use auction_query::auctions::{auction_document, document_of, enchants, parse_hypixel, AuctionError};
use auction_query::item::{
    AuctionResponse, Base64Error, DisplayInfo, Item, ItemBytes, ItemBytesT0, NbtError,
    PartialExtraAttr, PartialNbt, PartialNbtElement, PartialTag,
};
use auction_query::levels::LevelMap;
use auction_query::update::{page_url, Statistics, Step, Update};
use mongodb::bson::{Bson, Document};
use std::cell::Cell;

fn item(name: &str, bin: Option<bool>) -> Item {
    Item {
        item_name: name.to_string(),
        item_lore: "\u{a7}9Sharpness V\n\u{a7}7More".to_string(),
        uuid: "u1".to_string(),
        auctioneer: "a1".to_string(),
        end: 1_650_000_000_000,
        item_count: None,
        tier: "RARE".to_string(),
        item_bytes: ItemBytes::Data("aGVsbG8gd29ybGQ=".to_string()),
        starting_bid: -5,
        bin,
    }
}

fn stack(count: i64, id: &str, enchantments: Option<LevelMap>) -> PartialNbtElement {
    PartialNbtElement {
        count,
        tag: PartialTag {
            extra_attributes: PartialExtraAttr {
                id: id.to_string(),
                pet: None,
                enchantments,
                potion: None,
                potion_level: None,
                anvil_uses: None,
                enhanced: None,
                runes: None,
            },
            display: DisplayInfo {
                name: "shown".to_string(),
                lore: vec![],
            },
        },
    }
}

fn one_stack(_bytes: Vec<u8>) -> Result<PartialNbt, String> {
    Ok(PartialNbt {
        i: vec![stack(3, "SWORD", None), stack(4, "BOW", None)],
    })
}

fn no_stack(_bytes: Vec<u8>) -> Result<PartialNbt, String> {
    Ok(PartialNbt { i: vec![] })
}

fn failing(bytes: Vec<u8>) -> Result<PartialNbt, String> {
    Err(format!("{} bytes", bytes.len()))
}

fn keys(document: &Document) -> Vec<String> {
    document.keys().cloned().collect()
}

#[test]
fn both_forms_hold_the_text() {
    let plain = ItemBytes::Data("aGk=".to_string());
    let tagged = ItemBytes::T0(ItemBytesT0::Data("aGk=".to_string()));
    let text: String = plain.clone().into();
    assert_eq!(text, "aGk=");
    let text: String = tagged.clone().into();
    assert_eq!(text, "aGk=");
    assert_eq!(plain.decode(), Ok(b"hi".to_vec()));
    let bytes: Result<Vec<u8>, Base64Error> = tagged.into();
    assert_eq!(bytes, Ok(b"hi".to_vec()));
}

#[test]
fn base64_errors_are_told_apart() {
    let decode = |text: &str| ItemBytes::Data(text.to_string()).decode();
    assert_eq!(decode(""), Ok(vec![]));
    assert_eq!(decode("aGk"), Ok(b"hi".to_vec()));
    assert_eq!(decode("aG!="), Err(Base64Error::InvalidByte(2, b'!')));
    assert_eq!(decode("aGVsb"), Err(Base64Error::InvalidLength));
    assert_eq!(decode("aGl="), Err(Base64Error::InvalidLastSymbol(2, b'l')));
}

#[test]
fn reader_gets_the_decoded_bytes() {
    let read = |bytes: Vec<u8>| -> Result<PartialNbt, String> {
        assert_eq!(bytes, b"hello world");
        one_stack(bytes)
    };
    let nbt = item("Sword", None).to_nbt(&read).ok().unwrap();
    assert_eq!(nbt.i.len(), 2);
}

#[test]
fn nbt_errors_are_told_apart() {
    let failed = item("Sword", None).to_nbt(&failing);
    assert!(matches!(failed, Err(NbtError::Nbt(text)) if text == "11 bytes"));
    let mut broken = item("Sword", None);
    broken.item_bytes = ItemBytes::Data("aGVsb".to_string());
    let failed = broken.to_nbt(&one_stack);
    assert!(matches!(failed, Err(NbtError::Base64(Base64Error::InvalidLength))));
}

#[test]
fn gzipped_nbt_is_read() {
    let mut written = nbt::Blob::new();
    written.insert("Count", 7i64).unwrap();
    let mut bytes = Vec::new();
    written.to_gzip_writer(&mut bytes).unwrap();
    let mut auction = item("Sword", Some(true));
    auction.item_bytes = ItemBytes::Data(base64::encode(&bytes));
    let read = |bytes: Vec<u8>| -> Result<PartialNbt, nbt::Error> {
        let blob = nbt::Blob::from_gzip_reader(&mut std::io::Cursor::new(bytes))?;
        match blob.get("Count") {
            Some(nbt::Value::Long(count)) => Ok(PartialNbt {
                i: vec![stack(*count, "SWORD", None)],
            }),
            _ => Ok(PartialNbt { i: vec![] }),
        }
    };
    assert_eq!(auction.count(&read), Some(7));
}

#[test]
fn count_is_found_and_kept() {
    let mut auction = item("Sword", None);
    assert_eq!(auction.count(&failing), None);
    assert_eq!(auction.item_count, None);
    assert_eq!(auction.count(&no_stack), None);
    assert_eq!(auction.count(&one_stack), Some(3));
    assert_eq!(auction.item_count, Some(3));
    assert_eq!(auction.count(&failing), Some(3));
}

#[test]
fn known_count_needs_no_reading() {
    let calls = Cell::new(0);
    let read = |bytes: Vec<u8>| {
        calls.set(calls.get() + 1);
        one_stack(bytes)
    };
    let mut auction = item("Sword", None);
    auction.item_count = Some(9);
    assert_eq!(auction.count(&read), Some(9));
    assert_eq!(calls.get(), 0);
}

#[test]
fn count_in_given_data() {
    let mut auction = item("Sword", None);
    assert_eq!(auction.count_in(None), None);
    assert_eq!(auction.count_in(Some(PartialNbt { i: vec![] })), None);
    assert_eq!(auction.count_in(one_stack(vec![]).ok()), Some(3));
    assert_eq!(auction.count_in(None), Some(3));
}

#[test]
fn levels_are_a_map() {
    let mut levels = LevelMap::new();
    assert_eq!(levels.insert("growth".to_string(), 1), None);
    assert_eq!(levels.insert("thorns".to_string(), 2), None);
    assert_eq!(levels.insert("growth".to_string(), 6), Some(1));
    assert_eq!(levels.len(), 2);
    assert_eq!((levels.name(0).as_str(), levels.level(0)), ("growth", 6));
    assert_eq!((levels.name(1).as_str(), levels.level(1)), ("thorns", 2));
}

#[test]
fn enchants_of_a_book_are_in_upper_case() {
    let mut levels = LevelMap::new();
    levels.insert("ultimate_wise".to_string(), 5);
    levels.insert("stra\u{df}e".to_string(), -1);
    let levels = Some(levels);
    assert_eq!(
        enchants(&"Enchanted Book".to_string(), &levels),
        vec!["ULTIMATE_WISE;5".to_string(), "STRASSE;-1".to_string()]
    );
    assert!(enchants(&"Sword".to_string(), &levels).is_empty());
    assert!(enchants(&"Enchanted Book".to_string(), &None).is_empty());
}

#[test]
fn document_of_an_ordinary_item() {
    let mut levels = LevelMap::new();
    levels.insert("sharpness".to_string(), 5);
    let document = auction_document(&item("Sword", Some(true)), &stack(1, "SWORD", Some(levels)));
    assert_eq!(
        keys(&document),
        vec![
            "uuid",
            "auctioneer",
            "end",
            "item_name",
            "tier",
            "starting_bid",
            "item_id",
            "enchants"
        ]
    );
    assert_eq!(document.get("uuid"), Some(&Bson::String("u1".to_string())));
    assert_eq!(document.get("auctioneer"), Some(&Bson::String("a1".to_string())));
    assert_eq!(document.get("end"), Some(&Bson::Int64(1_650_000_000_000)));
    assert_eq!(document.get("item_name"), Some(&Bson::String("Sword".to_string())));
    assert_eq!(document.get("tier"), Some(&Bson::String("RARE".to_string())));
    assert_eq!(document.get("starting_bid"), Some(&Bson::Int64(-5)));
    assert_eq!(document.get("item_id"), Some(&Bson::String("SWORD".to_string())));
    assert_eq!(document.get("enchants"), Some(&Bson::Array(vec![])));
}

#[test]
fn document_of_a_book() {
    let mut levels = LevelMap::new();
    levels.insert("sharpness".to_string(), 5);
    let book = item("Enchanted Book", Some(true));
    let document = auction_document(&book, &stack(1, "ENCHANTED_BOOK", Some(levels)));
    assert_eq!(document.get_str("item_name"), Ok("Sharpness V"));
    assert_eq!(
        document.get("enchants"),
        Some(&Bson::Array(vec![Bson::String("SHARPNESS;5".to_string())]))
    );
}

#[test]
fn document_needs_a_stack() {
    let sword = item("Sword", Some(true));
    let found = document_of::<String>(&sword, Ok(one_stack(vec![]).ok().unwrap()));
    assert_eq!(found.ok().unwrap().get_str("item_id"), Ok("SWORD"));
    let found = document_of::<String>(&sword, Ok(PartialNbt { i: vec![] }));
    assert!(matches!(found, Err(AuctionError::NoStack)));
    let found = document_of::<String>(&sword, Err(NbtError::Nbt("bad".to_string())));
    assert!(matches!(found, Err(AuctionError::Unreadable(NbtError::Nbt(_)))));
}

#[test]
fn only_fixed_price_auctions_are_kept() {
    let auctions = vec![
        item("First", Some(true)),
        item("Bid", None),
        item("Second", Some(true)),
        item("Other bid", Some(false)),
    ];
    let documents = parse_hypixel(auctions, &one_stack).unwrap();
    let names: Vec<&str> = documents
        .iter()
        .map(|document| document.get_str("item_name").unwrap())
        .collect();
    assert_eq!(names, vec!["First", "Second"]);
}

#[test]
fn other_auctions_are_not_read() {
    let auctions = vec![item("Bid", None), item("Other bid", Some(false))];
    assert_eq!(parse_hypixel(auctions, &failing).unwrap(), Vec::<Document>::new());
}

#[test]
fn unreadable_auction_ends_the_reading() {
    let calls = Cell::new(0);
    let read = |bytes: Vec<u8>| {
        calls.set(calls.get() + 1);
        if calls.get() == 1 {
            one_stack(bytes)
        } else {
            no_stack(bytes)
        }
    };
    let auctions = vec![
        item("First", Some(true)),
        item("Second", Some(true)),
        item("Third", Some(true)),
    ];
    let failed = parse_hypixel(auctions, &read);
    assert!(matches!(failed, Err(AuctionError::NoStack)));
    assert_eq!(calls.get(), 2);
}

#[test]
fn page_addresses() {
    assert_eq!(page_url(1), "https://api.hypixel.net/skyblock/auctions?page=1");
    assert_eq!(page_url(20), "https://api.hypixel.net/skyblock/auctions?page=20");
    assert_eq!(page_url(-3), "https://api.hypixel.net/skyblock/auctions?page=-3");
    assert_eq!(
        page_url(i64::MIN),
        "https://api.hypixel.net/skyblock/auctions?page=-9223372036854775808"
    );
}

fn page(names: &[&str]) -> AuctionResponse {
    AuctionResponse {
        total_pages: 50,
        auctions: names.iter().map(|name| item(name, Some(true))).collect(),
    }
}

#[test]
fn update_takes_two_pages() {
    let mut statistics = Statistics::new();
    let mut update = Update::start(&mut statistics);
    assert_eq!(update.step(), Step::Fetch(1));
    update.receive(page(&["a", "b"]), &one_stack).unwrap();
    assert_eq!(update.step(), Step::Fetch(2));
    assert!(update.receive(page(&["x"]), &failing).is_err());
    assert_eq!(update.step(), Step::Fetch(2));
    update.receive(page(&["c"]), &one_stack).unwrap();
    assert_eq!(update.step(), Step::DropIndexes);
    update.indexes_dropped();
    assert_eq!(update.step(), Step::Insert);
    let names: Vec<&str> = update
        .documents()
        .iter()
        .map(|document| document.get_str("item_name").unwrap())
        .collect();
    assert_eq!(names, vec!["a", "b", "c"]);
}

#[test]
fn update_is_told_until_inserted() {
    let mut statistics = Statistics::new();
    let mut update = Update::start(&mut statistics);
    while update.step() != Step::Insert {
        assert!(statistics.is_updating);
        match update.step() {
            Step::Fetch(_) => update.receive(page(&["a"]), &one_stack).unwrap(),
            _ => update.indexes_dropped(),
        }
    }
    assert!(statistics.is_updating);
    assert_eq!(statistics.total_updates, 0);
    assert!(update.inserted(&mut statistics));
    assert_eq!(update.step(), Step::Done);
    assert!(!statistics.is_updating);
    assert_eq!(statistics.total_updates, 1);
}

#[test]
fn full_count_stays() {
    let mut statistics = Statistics::new();
    statistics.total_updates = i16::MAX;
    let mut update = Update::start(&mut statistics);
    update.receive(page(&[]), &one_stack).unwrap();
    update.receive(page(&[]), &one_stack).unwrap();
    update.indexes_dropped();
    assert!(!update.inserted(&mut statistics));
    assert!(!statistics.is_updating);
    assert_eq!(statistics.total_updates, i16::MAX);
}

#[test]
fn statistics_count_updates() {
    let mut statistics = Statistics::new();
    statistics.begin_update();
    assert_eq!(
        statistics,
        Statistics {
            is_updating: true,
            total_updates: 0,
            last_updated: 0
        }
    );
    statistics.finish_update();
    assert_eq!(
        statistics,
        Statistics {
            is_updating: false,
            total_updates: 1,
            last_updated: 0
        }
    );
}

#[test]
fn same_text_reads_alike() {
    let mut other = item("Other", Some(false));
    other.item_count = Some(4);
    other.item_bytes = ItemBytes::T0(ItemBytesT0::Data("aGVsbG8gd29ybGQ=".to_string()));
    let of_item = item("Sword", None).to_nbt(&failing);
    let of_other = other.to_nbt(&failing);
    assert!(matches!(of_item, Err(NbtError::Nbt(text)) if text == "11 bytes"));
    assert!(matches!(of_other, Err(NbtError::Nbt(text)) if text == "11 bytes"));
}

#[test]
fn count_repeats() {
    let mut auction = item("Sword", None);
    let before = auction.clone();
    assert_eq!(auction.count(&no_stack), None);
    assert_eq!(auction.count(&no_stack), None);
    assert_eq!(auction, before);
    assert_eq!(auction.count(&one_stack), Some(3));
    auction.item_bytes = ItemBytes::Data("!".to_string());
    assert_eq!(auction.count(&one_stack), Some(3));
}

#[test]
fn order_of_levels_counts_alike() {
    let calls = Cell::new(0);
    let read = |_bytes: Vec<u8>| -> Result<PartialNbt, String> {
        let mut names = vec!["growth", "thorns"];
        if calls.get() % 2 == 1 {
            names.reverse();
        }
        calls.set(calls.get() + 1);
        let mut levels = LevelMap::new();
        for name in names {
            levels.insert(name.to_string(), 1);
        }
        Ok(PartialNbt {
            i: vec![stack(6, "BOOK", Some(levels))],
        })
    };
    let mut first = item("Enchanted Book", None);
    let mut second = item("Other", Some(true));
    assert_eq!(first.count(&read), Some(6));
    assert_eq!(second.count(&read), Some(6));
    assert_eq!(calls.get(), 2);
}

//! From listed auctions to the documents that are stored of them.

use crate::document::{document_entries, has_key, insert, Entry, Field, FieldView};
use crate::item::{
    base64_decoded, nbt_outcome, reader_has_the_say, Base64Error, Item, NbtError, PartialNbt,
    PartialNbtElement,
};
use crate::levels::{Level, LevelMap};
use crate::text::{
    append_decimal, decimal_text, decimal_texts_differ, first_line,
    first_line_is_what_precedes_a_line_feed, first_line_of, plain_text_keeps_all, strip_codes,
    to_uppercase, uppercase_text, without_codes,
};
use mongodb::bson::Document;
use vstd::prelude::*;

verus! {

/// The name under which every enchanted book is listed.
pub const ENCHANTED_BOOK: &'static str = "Enchanted Book";

/// An enchantment as it is stored: its name in upper case, a semicolon and its level.
pub open spec fn enchant_text(level: Level) -> Seq<char> {
    uppercase_text(level.0) + ";"@ + decimal_text(level.1 as int)
}

/// The enchantments that are stored of an item: those of an enchanted book, in their order.
pub open spec fn enchants_of(item_name: Seq<char>, enchantments: Option<LevelMap>) -> Seq<
    Seq<char>,
> {
    match enchantments {
        Some(levels) if item_name == ENCHANTED_BOOK@ => levels.entries_view().map_values(
            |level: Level| enchant_text(level),
        ),
        _ => Seq::empty(),
    }
}

/// The name that is stored of an item: for an enchanted book the first line of its lore without
/// colour codes, else the name it is listed under.
pub open spec fn stored_name(item: Item) -> Seq<char> {
    if item.item_name@ == ENCHANTED_BOOK@ {
        without_codes(first_line_of(item.item_lore@))
    } else {
        item.item_name@
    }
}

/// The entries that are stored of an auction whose first stack is `element`.
pub open spec fn auction_entries(auction: Item, element: PartialNbtElement) -> Seq<Entry> {
    seq![
        ("uuid"@, FieldView::Text(auction.uuid@)),
        ("auctioneer"@, FieldView::Text(auction.auctioneer@)),
        ("end"@, FieldView::Int(auction.end)),
        ("item_name"@, FieldView::Text(stored_name(auction))),
        ("tier"@, FieldView::Text(auction.tier@)),
        ("starting_bid"@, FieldView::Int(auction.starting_bid)),
        ("item_id"@, FieldView::Text(element.tag.extra_attributes.id@)),
        (
            "enchants"@,
            FieldView::Texts(
                enchants_of(auction.item_name@, element.tag.extra_attributes.enchantments),
            ),
        ),
    ]
}

fn is_enchanted_book(item_name: &String) -> (is_book: bool)
    ensures
        is_book == (item_name@ == ENCHANTED_BOOK@),
{
    let book: String = ENCHANTED_BOOK.to_owned();
    *item_name == book
}

/// The enchantments that are stored of an item.
pub fn enchants(item_name: &String, enchantments: &Option<LevelMap>) -> (texts: Vec<String>)
    ensures
        texts@.map_values(|text: String| text@) == enchants_of(item_name@, *enchantments),
        item_name@ == ENCHANTED_BOOK@ && enchantments is Some ==> texts@.len()
            == enchantments->0@.dom().len(),
{
    let mut texts: Vec<String> = Vec::new();
    if is_enchanted_book(item_name) {
        if let Some(levels) = enchantments {
            let count: usize = levels.len();
            let mut index: usize = 0;
            while index < count
                invariant
                    index <= count,
                    count == levels.entries_view().len(),
                    texts@.len() == index,
                    forall|i: int|
                        0 <= i < index ==> (#[trigger] texts@[i])@ == enchant_text(
                            levels.entries_view()[i],
                        ),
                decreases count - index,
            {
                let mut text: String = to_uppercase(levels.name(index).as_str());
                text.append(";");
                append_decimal(&mut text, levels.level(index) as i64);
                texts.push(text);
                index = index + 1;
            }
        }
    }
    assert(texts@.map_values(|text: String| text@) =~= enchants_of(item_name@, *enchantments));
    texts
}

/// The keys of a stored auction differ from one another.
proof fn lemma_keys_are_distinct(auction: Item, element: PartialNbtElement)
    ensures
        ({
            let entries = auction_entries(auction, element);
            forall|k: int|
                0 <= k < entries.len() ==> !has_key(#[trigger] entries.take(k), entries[k].0)
        }),
{
    let entries = auction_entries(auction, element);
    reveal_strlit("uuid");
    reveal_strlit("auctioneer");
    reveal_strlit("end");
    reveal_strlit("item_name");
    reveal_strlit("tier");
    reveal_strlit("starting_bid");
    reveal_strlit("item_id");
    reveal_strlit("enchants");
    assert(entries[0].0.len() == 4 && entries[0].0[0] == 'u');
    assert(entries[1].0.len() == 10);
    assert(entries[2].0.len() == 3);
    assert(entries[3].0.len() == 9);
    assert(entries[4].0.len() == 4 && entries[4].0[0] == 't');
    assert(entries[5].0.len() == 12);
    assert(entries[6].0.len() == 7);
    assert(entries[7].0.len() == 8);
    assert forall|i: int, j: int| 0 <= i < j < entries.len() implies (#[trigger] entries[i]).0 != (
    #[trigger] entries[j]).0 by {}
    assert forall|k: int| 0 <= k < entries.len() implies !has_key(
        #[trigger] entries.take(k),
        entries[k].0,
    ) by {
        assert forall|i: int| 0 <= i < k implies (#[trigger] entries.take(k)[i]).0
            != entries[k].0 by {
            assert(entries.take(k)[i] == entries[i]);
        }
    }
}

/// The document that is stored of an auction whose first stack is `element`.
pub fn auction_document(auction: &Item, element: &PartialNbtElement) -> (document: Document)
    ensures
        document_entries(document) == auction_entries(*auction, *element),
{
    let texts: Vec<String> = enchants(
        &auction.item_name,
        &element.tag.extra_attributes.enchantments,
    );
    let name: String = if is_enchanted_book(&auction.item_name) {
        strip_codes(first_line(auction.item_lore.as_str()))
    } else {
        auction.item_name.clone()
    };
    let ghost entries = auction_entries(*auction, *element);
    let mut document: Document = Document::new();
    proof {
        lemma_keys_are_distinct(*auction, *element);
        assert(document_entries(document) =~= entries.take(0));
    }
    insert(&mut document, "uuid", Field::Text(auction.uuid.clone()));
    assert(document_entries(document) =~= entries.take(1));
    insert(&mut document, "auctioneer", Field::Text(auction.auctioneer.clone()));
    assert(document_entries(document) =~= entries.take(2));
    insert(&mut document, "end", Field::Int(auction.end));
    assert(document_entries(document) =~= entries.take(3));
    insert(&mut document, "item_name", Field::Text(name));
    assert(document_entries(document) =~= entries.take(4));
    insert(&mut document, "tier", Field::Text(auction.tier.clone()));
    assert(document_entries(document) =~= entries.take(5));
    insert(&mut document, "starting_bid", Field::Int(auction.starting_bid));
    assert(document_entries(document) =~= entries.take(6));
    insert(&mut document, "item_id", Field::Text(element.tag.extra_attributes.id.clone()));
    assert(document_entries(document) =~= entries.take(7));
    insert(&mut document, "enchants", Field::Texts(texts));
    assert(document_entries(document) =~= entries.take(8));
    document
}

/// Why no document could be made of an auction. `E` is the error of the NBT reader.
#[derive(Debug)]
pub enum AuctionError<E> {
    /// Its NBT data could not be read.
    Unreadable(NbtError<E>),
    /// Its NBT data tells of no stack.
    NoStack,
}

/// Whether an auction is for sale at a fixed price.
pub open spec fn is_bin(auction: Item) -> bool {
    auction.bin == Some(true)
}

/// The auctions for sale at a fixed price, in their order.
pub open spec fn bins(auctions: Seq<Item>) -> Seq<Item> {
    auctions.filter(|auction: Item| is_bin(auction))
}

/// Whether `outcome` is what becomes of an auction whose NBT data was read with `nbt`.
pub open spec fn document_from<E>(
    auction: Item,
    nbt: Result<PartialNbt, NbtError<E>>,
    outcome: Result<Document, AuctionError<E>>,
) -> bool {
    match nbt {
        Err(error) => outcome == Err::<Document, AuctionError<E>>(AuctionError::Unreadable(error)),
        Ok(nbt) => if nbt.i@.len() == 0 {
            outcome == Err::<Document, AuctionError<E>>(AuctionError::NoStack)
        } else {
            outcome matches Ok(document) && document_entries(document) == auction_entries(
                auction,
                nbt.i@[0],
            )
        },
    }
}

/// Whether reading the auction with `read` can give `outcome`.
pub open spec fn document_outcome<E, F: Fn(Vec<u8>) -> Result<PartialNbt, E>>(
    auction: Item,
    read: F,
    outcome: Result<Document, AuctionError<E>>,
) -> bool {
    exists|nbt: Result<PartialNbt, NbtError<E>>|
        #[trigger] nbt_outcome(auction, read, nbt) && document_from(auction, nbt, outcome)
}

/// Whether `documents` are what reading all of `auctions` with `read` can give.
pub open spec fn documents_outcome<E, F: Fn(Vec<u8>) -> Result<PartialNbt, E>>(
    auctions: Seq<Item>,
    read: F,
    documents: Seq<Document>,
) -> bool {
    &&& documents.len() == auctions.len()
    &&& forall|i: int|
        0 <= i < auctions.len() ==> document_outcome(
            auctions[i],
            read,
            Ok::<Document, AuctionError<E>>(#[trigger] documents[i]),
        )
}

/// Whether reading `auctions` with `read` can end at one of them with `error`, all before it having
/// been read.
pub open spec fn failure_outcome<E, F: Fn(Vec<u8>) -> Result<PartialNbt, E>>(
    auctions: Seq<Item>,
    read: F,
    error: AuctionError<E>,
) -> bool {
    exists|documents: Seq<Document>|
        {
            &&& documents.len() < auctions.len()
            &&& #[trigger] documents_outcome::<E, F>(
                auctions.take(documents.len() as int),
                read,
                documents,
            )
            &&& document_outcome(
                auctions[documents.len() as int],
                read,
                Err::<Document, AuctionError<E>>(error),
            )
        }
}

/// The document of an auction whose NBT data was read with `nbt`.
pub fn document_of<E>(auction: &Item, nbt: Result<PartialNbt, NbtError<E>>) -> (outcome: Result<
    Document,
    AuctionError<E>,
>)
    ensures
        document_from(*auction, nbt, outcome),
{
    match nbt {
        Err(error) => Err(AuctionError::Unreadable(error)),
        Ok(nbt) => if nbt.i.len() == 0 {
            Err(AuctionError::NoStack)
        } else {
            Ok(auction_document(auction, &nbt.i[0]))
        },
    }
}

/// The documents of those of `auctions` that are for sale at a fixed price, in their order. The NBT
/// data of each is read with `read`. The first auction of which no document can be made ends the
/// reading, and tells why.
pub fn parse_hypixel<E, F: Fn(Vec<u8>) -> Result<PartialNbt, E>>(
    auctions: Vec<Item>,
    read: &F,
) -> (outcome: Result<Vec<Document>, AuctionError<E>>)
    requires
        forall|bytes: Vec<u8>| call_requires(*read, (bytes,)),
    ensures
        match outcome {
            Ok(documents) => documents_outcome::<E, F>(bins(auctions@), *read, documents@),
            Err(error) => failure_outcome(bins(auctions@), *read, error),
        },
{
    let mut documents: Vec<Document> = Vec::new();
    let mut index: usize = 0;
    assert(auctions@.take(0) =~= Seq::<Item>::empty());
    reveal(Seq::filter);
    while index < auctions.len()
        invariant
            index <= auctions.len(),
            forall|bytes: Vec<u8>| call_requires(*read, (bytes,)),
            documents_outcome::<E, F>(bins(auctions@.take(index as int)), *read, documents@),
        decreases auctions.len() - index,
    {
        let auction = &auctions[index];
        proof {
            lemma_bins_of_prefix(auctions@, index as int);
        }
        if let Some(true) = auction.bin {
            let nbt = auction.to_nbt(read);
            let ghost seen = nbt;
            let read_so_far = document_of(auction, nbt);
            assert(nbt_outcome(*auction, *read, seen));
            match read_so_far {
                Ok(document) => {
                    documents.push(document);
                },
                Err(error) => {
                    proof {
                        let before = bins(auctions@.take(index as int));
                        let after = bins(auctions@.take(index + 1));
                        assert(after[before.len() as int] == *auction);
                        assert forall|i: int| 0 <= i < before.len() implies bins(auctions@)[i]
                            == before[i] by {
                            assert(after[i] == before[i]);
                        }
                        assert(bins(auctions@).take(documents@.len() as int) =~= before);
                    }
                    return Err(error);
                },
            }
        }
        index = index + 1;
    }
    assert(auctions@.take(index as int) =~= auctions@);
    Ok(documents)
}

/// How the auctions for sale at a fixed price grow with one more auction, and that they stay at the
/// front of those of the whole.
proof fn lemma_bins_of_prefix(auctions: Seq<Item>, index: int)
    requires
        0 <= index < auctions.len(),
    ensures
        bins(auctions.take(index + 1)) == (if is_bin(auctions[index]) {
            bins(auctions.take(index)).push(auctions[index])
        } else {
            bins(auctions.take(index))
        }),
        bins(auctions.take(index + 1)).len() <= bins(auctions).len(),
        forall|i: int|
            0 <= i < bins(auctions.take(index + 1)).len() ==> bins(auctions)[i] == #[trigger] bins(
                auctions.take(index + 1),
            )[i],
{
    let head = auctions.take(index + 1);
    assert(head.drop_last() =~= auctions.take(index));
    reveal(Seq::filter);
    pages_add_up(head, auctions.skip(index + 1));
    assert(head + auctions.skip(index + 1) =~= auctions);
}

/// What is for sale at a fixed price on two pages is what is on the first, then what is on the
/// second.
pub proof fn pages_add_up(first: Seq<Item>, second: Seq<Item>)
    ensures
        bins(first + second) == bins(first) + bins(second),
{
    Seq::filter_distributes_over_add(first, second, |auction: Item| is_bin(auction));
}

/// A document is made of an auction if and only if it is listed and its `bin` field says so,
/// whatever its other fields are.
pub proof fn bins_are_exactly_fixed_price(auctions: Seq<Item>, auction: Item)
    ensures
        bins(auctions).contains(auction) <==> auctions.contains(auction) && auction.bin == Some(
            true,
        ),
{
    broadcast use {Seq::lemma_filter_pred, Seq::lemma_filter_contains};

    let pred = |a: Item| is_bin(a);
    if bins(auctions).contains(auction) {
        let i = choose|i: int| 0 <= i < bins(auctions).len() && bins(auctions)[i] == auction;
        assert(pred(auctions.filter(pred)[i]));
        lemma_bins_are_listed(auctions, auction);
    }
    if auctions.contains(auction) && is_bin(auction) {
        let i = choose|i: int| 0 <= i < auctions.len() && auctions[i] == auction;
        assert(pred(auctions[i]));
        assert(auctions.filter(pred).contains(auctions[i]));
    }
}

proof fn lemma_bins_are_listed(auctions: Seq<Item>, auction: Item)
    requires
        bins(auctions).contains(auction),
    ensures
        auctions.contains(auction),
    decreases auctions.len(),
{
    reveal(Seq::filter);
    if auctions.len() > 0 {
        if auction == auctions.last() {
            assert(auctions[auctions.len() - 1] == auction);
        } else {
            let i = choose|i: int| 0 <= i < bins(auctions).len() && bins(auctions)[i] == auction;
            assert(bins(auctions.drop_last())[i] == auction);
            lemma_bins_are_listed(auctions.drop_last(), auction);
            let j = choose|j: int|
                0 <= j < auctions.drop_last().len() && auctions.drop_last()[j] == auction;
            assert(auctions[j] == auction);
        }
    }
}

/// An auction that is not for sale at a fixed price changes nothing of what is stored, wherever it
/// is listed.
pub proof fn other_auctions_leave_nothing(before: Seq<Item>, auction: Item, after: Seq<Item>)
    requires
        auction.bin != Some(true),
    ensures
        bins(before.push(auction) + after) == bins(before + after),
{
    pages_add_up(before.push(auction), after);
    pages_add_up(before, after);
    reveal(Seq::filter);
    assert(before.push(auction).drop_last() =~= before);
}

/// Only an enchanted book is renamed, and only an enchanted book has enchantments stored.
pub proof fn only_books_are_rewritten(auction: Item, element: PartialNbtElement)
    requires
        auction.item_name@ != "Enchanted Book"@,
    ensures
        auction_entries(auction, element)[3] == ("item_name"@, FieldView::Text(auction.item_name@)),
        auction_entries(auction, element)[7] == ("enchants"@, FieldView::Texts(Seq::empty())),
{
}

/// Where every auction at a fixed price is bound to give a document, reading them cannot fail.
pub proof fn readable_auctions_never_fail<E, F: Fn(Vec<u8>) -> Result<PartialNbt, E>>(
    auctions: Seq<Item>,
    read: F,
    error: AuctionError<E>,
)
    requires
        forall|i: int, outcome: Result<Document, AuctionError<E>>|
            0 <= i < bins(auctions).len() && #[trigger] document_outcome(
                bins(auctions)[i],
                read,
                outcome,
            ) ==> outcome is Ok,
    ensures
        !failure_outcome(bins(auctions), read, error),
{
}

/// One more auction on a page adds itself, at the end, where its `bin` field says so, and nothing
/// where it does not; an empty page has nothing to add.
pub proof fn one_more_auction(auctions: Seq<Item>, added: Item)
    ensures
        bins(Seq::empty()).len() == 0,
        added.bin == Some(true) ==> bins(auctions.push(added)) == bins(auctions).push(added),
        added.bin != Some(true) ==> bins(auctions.push(added)) == bins(auctions),
{
    reveal(Seq::filter);
    assert(auctions.push(added).drop_last() =~= auctions);
}

/// A page where all is for sale at a fixed price is kept whole, and one where nothing is leaves
/// nothing.
pub proof fn pages_are_kept_or_left(auctions: Seq<Item>)
    ensures
        (forall|i: int| 0 <= i < auctions.len() ==> (#[trigger] auctions[i]).bin == Some(true))
            ==> bins(auctions) == auctions,
        (forall|i: int| 0 <= i < auctions.len() ==> (#[trigger] auctions[i]).bin != Some(true))
            ==> bins(auctions).len() == 0,
    decreases auctions.len(),
{
    if auctions.len() == 0 {
        one_more_auction(auctions, arbitrary());
        assert(auctions =~= Seq::empty());
        assert(bins(auctions) =~= auctions);
    } else {
        pages_are_kept_or_left(auctions.drop_last());
        one_more_auction(auctions.drop_last(), auctions.last());
        assert(auctions.drop_last().push(auctions.last()) =~= auctions);
        assert(auctions.last() == auctions[auctions.len() - 1]);
        assert forall|i: int| 0 <= i < auctions.drop_last().len() implies auctions.drop_last()[i]
            == auctions[i] by {}
    }
}

/// The document of an auction has eight keys. It holds what the auction says of its own uuid,
/// auctioneer, end, tier and starting bid, and the id of the stack, whatever they are, and the
/// enchantments that are told of the stack.
pub proof fn document_holds_the_auction(auction: Item, element: PartialNbtElement)
    ensures
        auction_entries(auction, element).len() == 8,
        auction_entries(auction, element)[0] == ("uuid"@, FieldView::Text(auction.uuid@)),
        auction_entries(auction, element)[1] == (
            "auctioneer"@,
            FieldView::Text(auction.auctioneer@),
        ),
        auction_entries(auction, element)[2] == ("end"@, FieldView::Int(auction.end)),
        auction_entries(auction, element)[3].0 == "item_name"@,
        auction_entries(auction, element)[4] == ("tier"@, FieldView::Text(auction.tier@)),
        auction_entries(auction, element)[5] == (
            "starting_bid"@,
            FieldView::Int(auction.starting_bid),
        ),
        auction_entries(auction, element)[6] == (
            "item_id"@,
            FieldView::Text(element.tag.extra_attributes.id@),
        ),
        auction_entries(auction, element)[7] == (
            "enchants"@,
            FieldView::Texts(
                enchants_of(auction.item_name@, element.tag.extra_attributes.enchantments),
            ),
        ),
{
}

/// Auctions that differ in their uuid, auctioneer, end, tier or starting bid, or in the id of their
/// stack, give documents that differ.
pub proof fn documents_differ_where_auctions_do(
    first: Item,
    one: PartialNbtElement,
    second: Item,
    two: PartialNbtElement,
)
    requires
        auction_entries(first, one) == auction_entries(second, two),
    ensures
        first.uuid@ == second.uuid@,
        first.auctioneer@ == second.auctioneer@,
        first.end == second.end,
        first.tier@ == second.tier@,
        first.starting_bid == second.starting_bid,
        one.tag.extra_attributes.id@ == two.tag.extra_attributes.id@,
{
    document_holds_the_auction(first, one);
    document_holds_the_auction(second, two);
}

/// An enchanted book is stored under the first line of its lore without colour codes, whatever
/// lines follow; a first line without a section sign is stored as it is.
pub proof fn books_are_named_by_their_lore(
    book: Item,
    element: PartialNbtElement,
    line: Seq<char>,
    rest: Seq<char>,
)
    requires
        book.item_name@ == "Enchanted Book"@,
        !line.contains('\n'),
        book.item_lore@ == line || book.item_lore@ == line + seq!['\n'] + rest,
    ensures
        auction_entries(book, element)[3] == ("item_name"@, FieldView::Text(without_codes(line))),
        !line.contains('\u{00A7}') ==> auction_entries(book, element)[3] == (
            "item_name"@,
            FieldView::Text(line),
        ),
{
    first_line_is_what_precedes_a_line_feed(line, rest);
    if !line.contains('\u{00A7}') {
        plain_text_keeps_all(line);
    }
}

/// A book has one text stored for each of its enchantments, in their order: the name in upper case,
/// a semicolon, and behind it the level in decimal, whatever the level is.
pub proof fn enchantments_tell_name_and_level(book: Item, element: PartialNbtElement, i: int)
    requires
        book.item_name@ == "Enchanted Book"@,
        element.tag.extra_attributes.enchantments is Some,
        0 <= i < element.tag.extra_attributes.enchantments->0.entries_view().len(),
    ensures
        ({
            let levels = element.tag.extra_attributes.enchantments->0.entries_view();
            let stored = auction_entries(book, element)[7];
            let texts = enchants_of(book.item_name@, element.tag.extra_attributes.enchantments);
            let level = decimal_text(levels[i].1 as int);
            &&& stored == ("enchants"@, FieldView::Texts(texts))
            &&& texts.len() == levels.len()
            &&& texts[i].skip(texts[i].len() - level.len()) == level
            &&& texts[i][texts[i].len() - level.len() - 1] == ';'
            &&& texts[i].take(texts[i].len() - level.len() - 1) == uppercase_text(levels[i].0)
        }),
{
    reveal_strlit(";");
    let levels = element.tag.extra_attributes.enchantments->0.entries_view();
    let text = enchants_of(book.item_name@, element.tag.extra_attributes.enchantments)[i];
    let level = decimal_text(levels[i].1 as int);
    assert(text.skip(text.len() - level.len()) =~= level);
    assert(text.take(text.len() - level.len() - 1) =~= uppercase_text(levels[i].0));
}

/// Enchantments of one name and of different levels are stored as different texts.
pub proof fn levels_are_told_apart(
    item_name: Seq<char>,
    first: LevelMap,
    i: int,
    second: LevelMap,
    j: int,
)
    requires
        item_name == "Enchanted Book"@,
        0 <= i < first.entries_view().len(),
        0 <= j < second.entries_view().len(),
        first.entries_view()[i].0 == second.entries_view()[j].0,
        first.entries_view()[i].1 != second.entries_view()[j].1,
    ensures
        enchants_of(item_name, Some(first))[i] != enchants_of(item_name, Some(second))[j],
{
    let name = uppercase_text(first.entries_view()[i].0);
    let m = first.entries_view()[i].1 as int;
    let n = second.entries_view()[j].1 as int;
    let one = enchants_of(item_name, Some(first))[i];
    let two = enchants_of(item_name, Some(second))[j];
    let start = (name + ";"@).len() as int;
    assert(one.skip(start) =~= decimal_text(m));
    assert(two.skip(start) =~= decimal_text(n));
    decimal_texts_differ(m, n);
}

/// An item without enchantments, and one that is not an enchanted book, have none stored.
pub proof fn nothing_to_tell_is_not_told(item_name: Seq<char>, enchantments: Option<LevelMap>)
    requires
        item_name != "Enchanted Book"@ || enchantments is None
            || enchantments->0.entries_view().len() == 0,
    ensures
        enchants_of(item_name, enchantments).len() == 0,
{
}

/// A document is made of an auction if and only if its NBT data was read and has a stack; it is then
/// that of its first stack. Each failure has its own cause.
pub proof fn documents_come_of_first_stacks<E>(
    auction: Item,
    nbt: Result<PartialNbt, NbtError<E>>,
    outcome: Result<Document, AuctionError<E>>,
)
    requires
        document_from(auction, nbt, outcome),
    ensures
        outcome is Ok <==> nbt is Ok && nbt->Ok_0.i@.len() > 0,
        outcome is Ok ==> document_entries(outcome->Ok_0) == auction_entries(
            auction,
            nbt->Ok_0.i@.first(),
        ),
        nbt is Err ==> outcome == Err::<Document, AuctionError<E>>(
            AuctionError::Unreadable(nbt->Err_0),
        ),
        nbt is Ok && nbt->Ok_0.i@.len() == 0 ==> outcome == Err::<Document, AuctionError<E>>(
            AuctionError::NoStack,
        ),
{
}

/// What is stored of a page: one document for each auction at a fixed price, in their order. Each
/// holds the uuid and the starting bid of its own auction, and is that of the first stack of NBT
/// data that the auction can give.
pub proof fn documents_are_those_of_the_auctions<E, F: Fn(Vec<u8>) -> Result<PartialNbt, E>>(
    auctions: Seq<Item>,
    read: F,
    documents: Seq<Document>,
    i: int,
)
    requires
        documents_outcome::<E, F>(bins(auctions), read, documents),
    ensures
        documents.len() == bins(auctions).len(),
        0 <= i < documents.len() ==> document_entries(documents[i])[0] == (
            "uuid"@,
            FieldView::Text(bins(auctions)[i].uuid@),
        ),
        0 <= i < documents.len() ==> document_entries(documents[i])[5] == (
            "starting_bid"@,
            FieldView::Int(bins(auctions)[i].starting_bid),
        ),
        0 <= i < documents.len() ==> exists|nbt: PartialNbt|
            {
                &&& #[trigger] nbt_outcome(
                    bins(auctions)[i],
                    read,
                    Ok::<PartialNbt, NbtError<E>>(nbt),
                )
                &&& nbt.i@.len() > 0
                &&& document_entries(documents[i]) == auction_entries(
                    bins(auctions)[i],
                    nbt.i@.first(),
                )
            },
{
    if 0 <= i < documents.len() {
        let auction = bins(auctions)[i];
        let outcome = Ok::<Document, AuctionError<E>>(documents[i]);
        assert(document_outcome(auction, read, outcome));
        let nbt = choose|nbt: Result<PartialNbt, NbtError<E>>|
            #[trigger] nbt_outcome(auction, read, nbt) && document_from(auction, nbt, outcome);
        documents_come_of_first_stacks(auction, nbt, outcome);
        document_holds_the_auction(auction, nbt->Ok_0.i@.first());
        assert(nbt == Ok::<PartialNbt, NbtError<E>>(nbt->Ok_0));
        assert(nbt_outcome(auction, read, Ok::<PartialNbt, NbtError<E>>(nbt->Ok_0)));
    }
}

/// Whether reading the auction with `read` can give NBT data with a stack.
pub open spec fn is_readable<E, F: Fn(Vec<u8>) -> Result<PartialNbt, E>>(
    auction: Item,
    read: F,
) -> bool {
    exists|nbt: Result<PartialNbt, NbtError<E>>|
        #[trigger] nbt_outcome(auction, read, nbt) && nbt is Ok && nbt->Ok_0.i@.len() > 0
}

/// Where reading a page ends in a failure, some auction at a fixed price is its cause: its NBT data
/// can fail with the error told, or can have no stack, while those before it can be read.
pub proof fn failures_have_a_cause<E, F: Fn(Vec<u8>) -> Result<PartialNbt, E>>(
    auctions: Seq<Item>,
    read: F,
    error: AuctionError<E>,
) -> (k: int)
    requires
        failure_outcome(bins(auctions), read, error),
    ensures
        0 <= k < bins(auctions).len(),
        auctions.contains(bins(auctions)[k]),
        bins(auctions)[k].bin == Some(true),
        error matches AuctionError::Unreadable(cause) ==> nbt_outcome(
            bins(auctions)[k],
            read,
            Err::<PartialNbt, NbtError<E>>(cause),
        ),
        error is NoStack ==> exists|nbt: Result<PartialNbt, NbtError<E>>|
            #[trigger] nbt_outcome(bins(auctions)[k], read, nbt) && nbt is Ok
                && nbt->Ok_0.i@.len() == 0,
        forall|j: int| 0 <= j < k ==> #[trigger] is_readable(bins(auctions)[j], read),
{
    let listed = bins(auctions);
    let documents = choose|documents: Seq<Document>|
        {
            &&& documents.len() < listed.len()
            &&& #[trigger] documents_outcome::<E, F>(
                listed.take(documents.len() as int),
                read,
                documents,
            )
            &&& document_outcome(
                listed[documents.len() as int],
                read,
                Err::<Document, AuctionError<E>>(error),
            )
        };
    let k = documents.len() as int;
    bins_are_exactly_fixed_price(auctions, listed[k]);
    let failed = choose|nbt: Result<PartialNbt, NbtError<E>>|
        #[trigger] nbt_outcome(listed[k], read, nbt) && document_from(
            listed[k],
            nbt,
            Err::<Document, AuctionError<E>>(error),
        );
    documents_come_of_first_stacks(listed[k], failed, Err::<Document, AuctionError<E>>(error));
    if let Err(cause) = failed {
        assert(nbt_outcome(listed[k], read, Err::<PartialNbt, NbtError<E>>(cause)));
    }
    assert forall|j: int| 0 <= j < k implies #[trigger] is_readable(listed[j], read) by {
        let outcome = Ok::<Document, AuctionError<E>>(documents[j]);
        assert(listed.take(k)[j] == listed[j]);
        assert(document_outcome(listed.take(k)[j], read, outcome));
        let nbt = choose|nbt: Result<PartialNbt, NbtError<E>>|
            #[trigger] nbt_outcome(listed[j], read, nbt) && document_from(listed[j], nbt, outcome);
        documents_come_of_first_stacks(listed[j], nbt, outcome);
        assert(nbt_outcome(listed[j], read, nbt));
    }
    k
}

/// A page cannot fail where the text of every auction at a fixed price is base64 and the reader
/// gives data with a stack for its bytes.
pub proof fn readable_pages_are_read<E, F: Fn(Vec<u8>) -> Result<PartialNbt, E>>(
    auctions: Seq<Item>,
    read: F,
    error: AuctionError<E>,
)
    requires
        forall|i: int|
            0 <= i < auctions.len() && (#[trigger] auctions[i]).bin == Some(true)
                ==> base64_decoded(auctions[i].item_bytes.text()@) is Ok,
        forall|i: int, bytes: Vec<u8>, given: Result<PartialNbt, E>|
            0 <= i < auctions.len() && (#[trigger] auctions[i]).bin == Some(true)
                && base64_decoded(auctions[i].item_bytes.text()@) == Ok::<Seq<u8>, Base64Error>(
                bytes@,
            ) && #[trigger] call_ensures(read, (bytes,), given) ==> given is Ok
                && given->Ok_0.i@.len() > 0,
    ensures
        !failure_outcome(bins(auctions), read, error),
{
    if failure_outcome(bins(auctions), read, error) {
        let k = failures_have_a_cause(auctions, read, error);
        let auction = bins(auctions)[k];
        let i = choose|i: int| 0 <= i < auctions.len() && auctions[i] == auction;
        assert(auctions[i].bin == Some(true));
        match error {
            AuctionError::Unreadable(cause) => {
                reader_has_the_say(auction, read, Err::<PartialNbt, NbtError<E>>(cause));
            },
            AuctionError::NoStack => {
                let nbt = choose|nbt: Result<PartialNbt, NbtError<E>>|
                    #[trigger] nbt_outcome(auction, read, nbt) && nbt is Ok
                        && nbt->Ok_0.i@.len() == 0;
                reader_has_the_say(auction, read, nbt);
            },
        }
    }
}

} // verus!

//! Auctions as the auction house lists them, and the item data packed into each.

use crate::levels::LevelMap;
use vstd::prelude::*;

verus! {

/// The part of an item's NBT data that is read: a list of stacks.
pub struct PartialNbt {
    pub i: Vec<PartialNbtElement>,
}

/// One stack of items.
pub struct PartialNbtElement {
    pub count: i64,
    pub tag: PartialTag,
}

pub struct PartialTag {
    pub extra_attributes: PartialExtraAttr,
    pub display: DisplayInfo,
}

pub struct Pet {
    pub pet_type: String,
    pub tier: String,
}

pub struct PartialExtraAttr {
    pub id: String,
    pub pet: Option<String>,
    pub enchantments: Option<LevelMap>,
    pub potion: Option<String>,
    pub potion_level: Option<i16>,
    pub anvil_uses: Option<i16>,
    pub enhanced: Option<bool>,
    pub runes: Option<LevelMap>,
}

pub struct DisplayInfo {
    pub name: String,
    pub lore: Vec<String>,
}

/// One auction.
#[derive(Debug, PartialEq, Eq, Clone)]
pub struct Item {
    pub item_name: String,
    pub item_lore: String,
    pub uuid: String,
    pub auctioneer: String,
    pub end: i64,
    pub item_count: Option<i64>,
    pub tier: String,
    pub item_bytes: ItemBytes,
    pub starting_bid: i64,
    pub bin: Option<bool>,
}

/// The packed item data, as base64 text, in either of the two forms in which it is listed.
#[derive(Debug, PartialEq, Eq, Clone)]
pub enum ItemBytes {
    T0(ItemBytesT0),
    Data(String),
}

#[derive(Debug, PartialEq, Eq, Clone)]
pub enum ItemBytesT0 {
    Data(String),
}

/// One page of the auction house.
pub struct AuctionResponse {
    pub total_pages: i64,
    pub auctions: Vec<Item>,
}

/// Why a text is not base64.
#[derive(Debug, PartialEq, Eq, Clone)]
pub enum Base64Error {
    /// A byte outside the alphabet, with its offset.
    InvalidByte(usize, u8),
    /// A length that no encoding has.
    InvalidLength,
    /// A last symbol with bits that no byte takes up, with its offset.
    InvalidLastSymbol(usize, u8),
}

/// Why the NBT data of an item could not be read. `E` is the error of the NBT reader.
#[derive(Debug)]
pub enum NbtError<E> {
    Base64(Base64Error),
    Nbt(E),
}

/// What a base64 text stands for.
pub uninterp spec fn base64_decoded(text: Seq<char>) -> Result<Seq<u8>, Base64Error>;

/// Whether `decoded` is what the base64 text `text` stands for.
pub open spec fn is_decoding(text: Seq<char>, decoded: Result<Vec<u8>, Base64Error>) -> bool {
    base64_decoded(text) == match decoded {
        Ok(bytes) => Ok::<Seq<u8>, Base64Error>(bytes@),
        Err(error) => Err::<Seq<u8>, Base64Error>(error),
    }
}

/// `base64::decode` of `base64`: the bytes of a text in the standard alphabet, or the reason why it
/// is none. Both are functions of the text.
#[verifier::external_body]
pub(crate) fn decode_base64(text: &str) -> (decoded: Result<Vec<u8>, Base64Error>)
    ensures
        base64_decoded(text@) == match decoded {
            Ok(bytes) => Ok::<Seq<u8>, Base64Error>(bytes@),
            Err(error) => Err::<Seq<u8>, Base64Error>(error),
        },
{
    match base64::decode(text) {
        Ok(bytes) => Ok(bytes),
        Err(base64::DecodeError::InvalidByte(at, byte)) => Err(Base64Error::InvalidByte(at, byte)),
        Err(base64::DecodeError::InvalidLength) => Err(Base64Error::InvalidLength),
        Err(base64::DecodeError::InvalidLastSymbol(at, byte)) => Err(
            Base64Error::InvalidLastSymbol(at, byte),
        ),
    }
}

impl ItemBytes {
    /// The base64 text, whichever form holds it.
    pub open spec fn text(self) -> String {
        match self {
            ItemBytes::T0(ItemBytesT0::Data(text)) => text,
            ItemBytes::Data(text) => text,
        }
    }

    fn as_text(&self) -> (text: &String)
        ensures
            *text == self.text(),
    {
        match self {
            ItemBytes::T0(inner) => {
                let ItemBytesT0::Data(text) = inner;
                text
            },
            ItemBytes::Data(text) => text,
        }
    }

    /// The bytes that the base64 text stands for.
    pub fn decode(&self) -> (decoded: Result<Vec<u8>, Base64Error>)
        ensures
            is_decoding(self.text()@, decoded),
    {
        decode_base64(self.as_text().as_str())
    }
}

/// The base64 text, whichever form holds it.
impl From<ItemBytes> for String {
    fn from(bytes: ItemBytes) -> (text: String) {
        match bytes {
            ItemBytes::T0(inner) => {
                let ItemBytesT0::Data(text) = inner;
                text
            },
            ItemBytes::Data(text) => text,
        }
    }
}

impl vstd::std_specs::convert::FromSpecImpl<ItemBytes> for String {
    open spec fn obeys_from_spec() -> bool {
        true
    }

    open spec fn from_spec(bytes: ItemBytes) -> String {
        bytes.text()
    }
}

/// The bytes that the base64 text stands for.
impl From<ItemBytes> for Result<Vec<u8>, Base64Error> {
    fn from(bytes: ItemBytes) -> (decoded: Result<Vec<u8>, Base64Error>)
        ensures
            is_decoding(bytes.text()@, decoded),
    {
        bytes.decode()
    }
}

/// What comes back is told by the clause on `from` above, up to the bytes of the vector, and by no
/// equation between vectors.
impl vstd::std_specs::convert::FromSpecImpl<ItemBytes> for Result<Vec<u8>, Base64Error> {
    open spec fn obeys_from_spec() -> bool {
        false
    }

    open spec fn from_spec(bytes: ItemBytes) -> Result<Vec<u8>, Base64Error> {
        choose|decoded: Result<Vec<u8>, Base64Error>| is_decoding(bytes.text()@, decoded)
    }
}

/// Whether reading the NBT data of `item` with `read` can give `outcome`: the base64 text is
/// decoded, and its bytes, if it has any to give, are handed to `read`.
pub open spec fn nbt_outcome<E, F: Fn(Vec<u8>) -> Result<PartialNbt, E>>(
    item: Item,
    read: F,
    outcome: Result<PartialNbt, NbtError<E>>,
) -> bool {
    match base64_decoded(item.item_bytes.text()@) {
        Err(error) => outcome == Err::<PartialNbt, NbtError<E>>(NbtError::Base64(error)),
        Ok(content) => exists|bytes: Vec<u8>, given: Result<PartialNbt, E>|
            {
                &&& bytes@ == content
                &&& #[trigger] call_ensures(read, (bytes,), given)
                &&& outcome == match given {
                    Ok(nbt) => Ok::<PartialNbt, NbtError<E>>(nbt),
                    Err(error) => Err::<PartialNbt, NbtError<E>>(NbtError::Nbt(error)),
                }
            },
    }
}

/// The number of items that NBT data tells of: that of its first stack.
pub open spec fn counted(nbt: Option<PartialNbt>) -> Option<i64> {
    match nbt {
        Some(nbt) => if nbt.i@.len() > 0 {
            Some(nbt.i@[0].count)
        } else {
            None
        },
        None => None,
    }
}

/// Whether counting the items of `item` with `read` can give `count`: a number that is known is
/// given back without reading, any other is that of the NBT data, where it can be read.
pub open spec fn count_outcome<E, F: Fn(Vec<u8>) -> Result<PartialNbt, E>>(
    item: Item,
    read: F,
    count: Option<i64>,
) -> bool {
    match item.item_count {
        Some(known) => count == Some(known),
        None => exists|outcome: Result<PartialNbt, NbtError<E>>|
            #[trigger] nbt_outcome(item, read, outcome) && count == counted(outcome.ok()),
    }
}

impl Item {
    /// The item with `count` for the number of its items.
    pub open spec fn with_count(self, count: Option<i64>) -> Item {
        Item { item_count: count, ..self }
    }

    /// The NBT data of the item: `read` gets the bytes that the base64 text stands for.
    pub fn to_nbt<E, F: Fn(Vec<u8>) -> Result<PartialNbt, E>>(&self, read: &F) -> (outcome: Result<
        PartialNbt,
        NbtError<E>,
    >)
        requires
            forall|bytes: Vec<u8>| call_requires(*read, (bytes,)),
        ensures
            nbt_outcome(*self, *read, outcome),
    {
        match self.item_bytes.decode() {
            Err(error) => Err(NbtError::Base64(error)),
            Ok(bytes) => match read(bytes) {
                Ok(nbt) => Ok(nbt),
                Err(error) => Err(NbtError::Nbt(error)),
            },
        }
    }

    /// The number of items in the stack, given the NBT data that was read, if any. A number that is
    /// known already is given back; one that is found is kept.
    pub fn count_in(&mut self, nbt: Option<PartialNbt>) -> (count: Option<i64>)
        ensures
            count == (if old(self).item_count is Some {
                old(self).item_count
            } else {
                counted(nbt)
            }),
            *final(self) == old(self).with_count(count),
    {
        if let Some(count) = self.item_count {
            return Some(count);
        }
        if let Some(nbt) = nbt {
            if nbt.i.len() > 0 {
                let count: i64 = nbt.i[0].count;
                self.item_count = Some(count);
                return Some(count);
            }
        }
        None
    }

    /// The number of items in the stack. Where it is not known yet, the NBT data is read with
    /// `read` to find it, and the number found is kept. `None` where neither gives it.
    pub fn count<E, F: Fn(Vec<u8>) -> Result<PartialNbt, E>>(&mut self, read: &F) -> (count: Option<
        i64,
    >)
        requires
            forall|bytes: Vec<u8>| call_requires(*read, (bytes,)),
        ensures
            count_outcome(*old(self), *read, count),
            *final(self) == old(self).with_count(count),
    {
        if let Some(count) = self.item_count {
            return Some(count);
        }
        let outcome = self.to_nbt(read);
        let ghost seen = outcome;
        let nbt: Option<PartialNbt> = match outcome {
            Ok(nbt) => Some(nbt),
            Err(_) => None,
        };
        assert(nbt == seen.ok());
        self.count_in(nbt)
    }
}

/// Whether two optional texts read the same.
pub open spec fn texts_alike(first: Option<String>, second: Option<String>) -> bool {
    match (first, second) {
        (Some(first), Some(second)) => first@ == second@,
        (None, None) => true,
        _ => false,
    }
}

/// Whether two optional maps have the same levels, in whichever order.
pub open spec fn levels_alike(first: Option<LevelMap>, second: Option<LevelMap>) -> bool {
    match (first, second) {
        (Some(first), Some(second)) => first@ == second@,
        (None, None) => true,
        _ => false,
    }
}

/// Whether two stacks hold the same values.
pub open spec fn stacks_alike(first: PartialNbtElement, second: PartialNbtElement) -> bool {
    let a = first.tag.extra_attributes;
    let b = second.tag.extra_attributes;
    let shown = first.tag.display;
    let other = second.tag.display;
    &&& first.count == second.count
    &&& a.id@ == b.id@
    &&& texts_alike(a.pet, b.pet)
    &&& levels_alike(a.enchantments, b.enchantments)
    &&& texts_alike(a.potion, b.potion)
    &&& a.potion_level == b.potion_level
    &&& a.anvil_uses == b.anvil_uses
    &&& a.enhanced == b.enhanced
    &&& levels_alike(a.runes, b.runes)
    &&& shown.name@ == other.name@
    &&& shown.lore@.map_values(|line: String| line@) == other.lore@.map_values(
        |line: String| line@,
    )
}

/// Whether two pieces of NBT data hold the same values, stack by stack.
pub open spec fn nbt_alike(first: PartialNbt, second: PartialNbt) -> bool {
    &&& first.i@.len() == second.i@.len()
    &&& forall|k: int|
        0 <= k < first.i@.len() ==> stacks_alike(#[trigger] first.i@[k], second.i@[k])
}

/// Whether `read` gives the same values for the same bytes, or fails on both.
pub open spec fn reads_alike<E, F: Fn(Vec<u8>) -> Result<PartialNbt, E>>(read: F) -> bool {
    forall|first: Vec<u8>, second: Vec<u8>, one: Result<PartialNbt, E>, two: Result<PartialNbt, E>|
        first@ == second@ && #[trigger] call_ensures(read, (first,), one)
            && #[trigger] call_ensures(read, (second,), two) ==> match (one, two) {
            (Ok(one), Ok(two)) => nbt_alike(one, two),
            (Err(_), Err(_)) => true,
            _ => false,
        }
}

/// Whether `read` gives the same number of items for the same bytes.
pub open spec fn counts_alike<E, F: Fn(Vec<u8>) -> Result<PartialNbt, E>>(read: F) -> bool {
    forall|first: Vec<u8>, second: Vec<u8>, one: Result<PartialNbt, E>, two: Result<PartialNbt, E>|
        first@ == second@ && #[trigger] call_ensures(read, (first,), one)
            && #[trigger] call_ensures(read, (second,), two) ==> counted(one.ok()) == counted(
            two.ok(),
        )
}

/// A reader that gives the same values for the same bytes gives the same number of items.
pub proof fn alike_readings_count_alike<E, F: Fn(Vec<u8>) -> Result<PartialNbt, E>>(read: F)
    requires
        reads_alike::<E, F>(read),
    ensures
        counts_alike::<E, F>(read),
{
    assert forall|
        first: Vec<u8>,
        second: Vec<u8>,
        one: Result<PartialNbt, E>,
        two: Result<PartialNbt, E>,
    |
        first@ == second@ && #[trigger] call_ensures(read, (first,), one)
            && #[trigger] call_ensures(read, (second,), two) implies counted(one.ok()) == counted(
        two.ok(),
    ) by {
        if let (Ok(a), Ok(b)) = (one, two) {
            assert(nbt_alike(a, b));
            if a.i@.len() > 0 {
                assert(stacks_alike(a.i@[0], b.i@[0]));
            }
        }
    }
}

/// Items with one base64 text, in whichever form and whatever else they hold, can give the same NBT
/// data, and no other.
pub proof fn forms_read_alike<E, F: Fn(Vec<u8>) -> Result<PartialNbt, E>>(
    first: Item,
    second: Item,
    read: F,
    outcome: Result<PartialNbt, NbtError<E>>,
)
    requires
        first.item_bytes.text()@ == second.item_bytes.text()@,
    ensures
        nbt_outcome(first, read, outcome) == nbt_outcome(second, read, outcome),
{
}

/// Where the reader gives the same values for the same bytes, items with one base64 text, in
/// whichever form and whatever else they hold, give the same values, or fail alike: on a text that
/// is not base64 for the same reason, else in the reader.
pub proof fn one_text_gives_one_outcome<E, F: Fn(Vec<u8>) -> Result<PartialNbt, E>>(
    first: Item,
    second: Item,
    read: F,
    of_first: Result<PartialNbt, NbtError<E>>,
    of_second: Result<PartialNbt, NbtError<E>>,
)
    requires
        first.item_bytes.text()@ == second.item_bytes.text()@,
        reads_alike::<E, F>(read),
        nbt_outcome(first, read, of_first),
        nbt_outcome(second, read, of_second),
    ensures
        of_first is Ok <==> of_second is Ok,
        match (of_first, of_second) {
            (Ok(one), Ok(two)) => nbt_alike(one, two),
            (Err(NbtError::Base64(one)), Err(NbtError::Base64(two))) => one == two,
            (Err(NbtError::Nbt(_)), Err(NbtError::Nbt(_))) => true,
            _ => false,
        },
{
}

/// A number that was found once is given back ever after, whatever reads the NBT data then and
/// whatever item data has come in its place, and the item stays as it is.
pub proof fn count_is_kept<E, F: Fn(Vec<u8>) -> Result<PartialNbt, E>>(
    item: Item,
    first: i64,
    item_bytes: ItemBytes,
    read: F,
    second: Option<i64>,
)
    requires
        count_outcome(
            (Item { item_bytes, ..item.with_count(Some(first)) }),
            read,
            second,
        ),
    ensures
        second == Some(first),
        ({
            let changed = Item { item_bytes, ..item.with_count(Some(first)) };
            changed.with_count(second) == changed
        }),
{
}

/// Where the reader gives the same number of items for the same bytes, counting again gives what
/// counting gave, be it a number or none, and leaves the item as it is. Where it gave a number, the
/// item data may have been replaced in between.
pub proof fn count_repeats<E, F: Fn(Vec<u8>) -> Result<PartialNbt, E>>(
    item: Item,
    read: F,
    first: Option<i64>,
    changed: Item,
    second: Option<i64>,
)
    requires
        counts_alike::<E, F>(read),
        count_outcome(item, read, first),
        changed == item.with_count(first) || first is Some && changed == (Item {
            item_bytes: changed.item_bytes,
            ..item.with_count(first)
        }),
        count_outcome(changed, read, second),
    ensures
        second == first,
        changed.with_count(second) == changed,
{
}

/// Either form holds its text as it is.
pub proof fn forms_hold_their_text(text: String)
    ensures
        ItemBytes::Data(text).text() == text,
        ItemBytes::T0(ItemBytesT0::Data(text)).text() == text,
{
}

/// Decoding gives the bytes that the text stands for, and fails for its own reason.
pub proof fn decoding_is_of_the_text(text: Seq<char>, decoded: Result<Vec<u8>, Base64Error>)
    requires
        is_decoding(text, decoded),
    ensures
        decoded matches Ok(bytes) ==> base64_decoded(text) == Ok::<Seq<u8>, Base64Error>(bytes@),
        decoded matches Err(error) ==> base64_decoded(text) == Err::<Seq<u8>, Base64Error>(error),
{
}

/// What comes of an item's NBT data is what the reader said of the bytes of its text: its data
/// where it gave any, its error where it failed. Where there are no bytes, the reason is given.
pub proof fn reader_has_the_say<E, F: Fn(Vec<u8>) -> Result<PartialNbt, E>>(
    item: Item,
    read: F,
    outcome: Result<PartialNbt, NbtError<E>>,
)
    requires
        nbt_outcome(item, read, outcome),
    ensures
        base64_decoded(item.item_bytes.text()@) matches Err(error) ==> outcome == Err::<
            PartialNbt,
            NbtError<E>,
        >(NbtError::Base64(error)),
        outcome is Ok ==> exists|bytes: Vec<u8>, given: Result<PartialNbt, E>|
            {
                &&& #[trigger] call_ensures(read, (bytes,), given)
                &&& base64_decoded(item.item_bytes.text()@) == Ok::<Seq<u8>, Base64Error>(bytes@)
                &&& given == Ok::<PartialNbt, E>(outcome->Ok_0)
            },
        outcome is Err && outcome->Err_0 is Nbt ==> exists|
            bytes: Vec<u8>,
            given: Result<PartialNbt, E>,
        |
            {
                &&& #[trigger] call_ensures(read, (bytes,), given)
                &&& base64_decoded(item.item_bytes.text()@) == Ok::<Seq<u8>, Base64Error>(bytes@)
                &&& given == Err::<PartialNbt, E>(outcome->Err_0->Nbt_0)
            },
        outcome matches Err(NbtError::Base64(error)) ==> base64_decoded(item.item_bytes.text()@)
            == Err::<Seq<u8>, Base64Error>(error),
{
    if let Ok(content) = base64_decoded(item.item_bytes.text()@) {
        let (bytes, given) = choose|bytes: Vec<u8>, given: Result<PartialNbt, E>|
            {
                &&& bytes@ == content
                &&& #[trigger] call_ensures(read, (bytes,), given)
                &&& outcome == match given {
                    Ok(nbt) => Ok::<PartialNbt, NbtError<E>>(nbt),
                    Err(error) => Err::<PartialNbt, NbtError<E>>(NbtError::Nbt(error)),
                }
            };
        assert(call_ensures(read, (bytes,), given));
    }
}

/// Counting changes the number of an item and nothing else of it.
pub proof fn counting_changes_the_number_only(item: Item, count: Option<i64>)
    ensures
        item.with_count(count).item_count == count,
        item.with_count(count).item_name == item.item_name,
        item.with_count(count).item_lore == item.item_lore,
        item.with_count(count).uuid == item.uuid,
        item.with_count(count).auctioneer == item.auctioneer,
        item.with_count(count).end == item.end,
        item.with_count(count).tier == item.tier,
        item.with_count(count).item_bytes == item.item_bytes,
        item.with_count(count).starting_bid == item.starting_bid,
        item.with_count(count).bin == item.bin,
{
}

/// The number of items is that of the first stack, whatever it is and whatever stacks follow; data
/// without stacks, and no data, tell of none.
pub proof fn first_stack_is_counted(nbt: PartialNbt)
    ensures
        nbt.i@.len() > 0 ==> counted(Some(nbt)) == Some(nbt.i@.first().count),
        nbt.i@.len() == 0 ==> counted(Some(nbt)) is None,
        counted(None) is None,
{
}

/// An item whose number is not known, and of whose bytes the reader always gives data with a first
/// stack of `number` items, is counted to be `number`.
pub proof fn count_is_that_of_the_first_stack<E, F: Fn(Vec<u8>) -> Result<PartialNbt, E>>(
    item: Item,
    read: F,
    number: i64,
    count: Option<i64>,
)
    requires
        item.item_count is None,
        base64_decoded(item.item_bytes.text()@) is Ok,
        forall|bytes: Vec<u8>, given: Result<PartialNbt, E>|
            base64_decoded(item.item_bytes.text()@) == Ok::<Seq<u8>, Base64Error>(bytes@)
                && #[trigger] call_ensures(read, (bytes,), given) ==> given is Ok
                && given->Ok_0.i@.len() > 0 && given->Ok_0.i@.first().count == number,
        count_outcome(item, read, count),
    ensures
        count == Some(number),
{
}

/// An item whose number is not known, and whose text is not base64 or on whose bytes the reader
/// always fails, is not counted.
pub proof fn unreadable_items_are_not_counted<E, F: Fn(Vec<u8>) -> Result<PartialNbt, E>>(
    item: Item,
    read: F,
    count: Option<i64>,
)
    requires
        item.item_count is None,
        forall|bytes: Vec<u8>, given: Result<PartialNbt, E>|
            base64_decoded(item.item_bytes.text()@) == Ok::<Seq<u8>, Base64Error>(bytes@)
                && #[trigger] call_ensures(read, (bytes,), given) ==> given is Err,
        count_outcome(item, read, count),
    ensures
        count is None,
{
}

/// Of an item whose number is not known, a number comes if and only if reading gave data with a
/// stack, and it is that of the first; where reading failed, or gave no stack, none comes.
pub proof fn counts_have_a_source<E, F: Fn(Vec<u8>) -> Result<PartialNbt, E>>(
    item: Item,
    read: F,
    count: Option<i64>,
) -> (outcome: Result<PartialNbt, NbtError<E>>)
    requires
        item.item_count is None,
        count_outcome(item, read, count),
    ensures
        nbt_outcome(item, read, outcome),
        count is Some <==> outcome is Ok && outcome->Ok_0.i@.len() > 0,
        count is Some ==> count == Some(outcome->Ok_0.i@.first().count),
{
    choose|outcome: Result<PartialNbt, NbtError<E>>|
        #[trigger] nbt_outcome(item, read, outcome) && count == counted(outcome.ok())
}

} // verus!

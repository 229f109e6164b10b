//! BSON documents: the outside collection that auctions are stored in.

use mongodb::bson::{Bson, Document};
use vstd::prelude::*;

verus! {

/// The BSON document of the `bson` crate: keys with values, in the order of insertion.
#[verifier::external_type_specification]
#[verifier::external_body]
pub struct ExDocument(Document);

/// The error of `serde_json`, carried and never looked into.
#[verifier::external_type_specification]
#[verifier::external_body]
pub struct ExJsonError(serde_json::Error);

/// A value to be put into a document.
pub enum Field {
    Text(String),
    Int(i64),
    Texts(Vec<String>),
}

/// What a document holds under one key: a string, a 64-bit integer, an array of strings, or any
/// other BSON value, told by its type and its encoding.
pub enum FieldView {
    Text(Seq<char>),
    Int(i64),
    Texts(Seq<Seq<char>>),
    Other(u8, Seq<u8>),
}

impl View for Field {
    type V = FieldView;

    open spec fn view(&self) -> FieldView {
        match *self {
            Field::Text(text) => FieldView::Text(text@),
            Field::Int(number) => FieldView::Int(number),
            Field::Texts(texts) => FieldView::Texts(texts@.map_values(|text: String| text@)),
        }
    }
}

/// One key of a document with its value.
pub type Entry = (Seq<char>, FieldView);

/// The entries of a document, in its order.
pub uninterp spec fn document_entries(document: Document) -> Seq<Entry>;

/// Whether one of `entries` has the key `key`.
pub open spec fn has_key(entries: Seq<Entry>, key: Seq<char>) -> bool {
    exists|i: int| 0 <= i < entries.len() && (#[trigger] entries[i]).0 == key
}

/// `entries` with `value` under `key`: a key that is there keeps its place, a new one comes last.
pub open spec fn with_entry(entries: Seq<Entry>, key: Seq<char>, value: FieldView) -> Seq<Entry> {
    if has_key(entries, key) {
        let i = choose|i: int| 0 <= i < entries.len() && (#[trigger] entries[i]).0 == key;
        entries.update(i, (key, value))
    } else {
        entries.push((key, value))
    }
}

/// `Document::new` of `bson`: a document without entries.
pub assume_specification[ Document::new ]() -> (document: Document)
    ensures
        document_entries(document) == Seq::<Entry>::empty(),
;

/// `Document::insert` of `bson`, with the value that it replaces dropped: a key that the document
/// has keeps its place and gets the new value, any other key is added at the end.
#[verifier::external_body]
pub(crate) fn insert(document: &mut Document, key: &str, value: Field)
    ensures
        document_entries(*final(document)) == with_entry(
            document_entries(*old(document)),
            key@,
            value@,
        ),
{
    let value: Bson = match value {
        Field::Text(text) => Bson::from(text),
        Field::Int(number) => Bson::from(number),
        Field::Texts(texts) => Bson::from(texts),
    };
    document.insert(key, value);
}

/// What is told of a value is what it holds.
pub proof fn values_are_told_by_what_they_hold(text: String, number: i64, texts: Vec<String>)
    ensures
        Field::Text(text)@ == FieldView::Text(text@),
        Field::Int(number)@ == FieldView::Int(number),
        Field::Texts(texts)@ is Texts,
        Field::Texts(texts)@->Texts_0.len() == texts@.len(),
        forall|i: int|
            0 <= i < texts@.len() ==> (#[trigger] Field::Texts(texts)@->Texts_0[i]) == texts@[i]@,
{
}

/// An entry goes where its key is, and the others stay; a key that is not there comes last.
pub proof fn other_entries_stay(entries: Seq<Entry>, key: Seq<char>, value: FieldView, i: int)
    requires
        0 <= i < entries.len(),
        forall|j: int, k: int|
            0 <= j < k < entries.len() ==> (#[trigger] entries[j]).0 != (#[trigger] entries[k]).0,
    ensures
        entries[i].0 == key ==> with_entry(entries, key, value) == entries.update(i, (key, value)),
        entries[i].0 != key ==> with_entry(entries, key, value)[i] == entries[i],
        (forall|k: int| 0 <= k < entries.len() ==> (#[trigger] entries[k]).0 != key) ==> with_entry(
            entries,
            key,
            value,
        ) == entries.push((key, value)),
{
}

} // verus!

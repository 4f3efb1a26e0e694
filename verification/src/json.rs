//! The JSON tree that the scanner walks.

use vstd::prelude::*;

verus! {

/// A JSON document. A number is held as its text. The entries of an object
/// stand in the order in which the tree is walked; the scanner looks at their
/// values only.
#[derive(Debug, PartialEq, Eq)]
pub enum JsonValue {
    Null,
    Bool(bool),
    Number(String),
    String(String),
    Array(Vec<JsonValue>),
    Object(Vec<(String, JsonValue)>),
}

/// The string leaves of `value` in the order of a depth-first walk: the
/// values of an object in the order of its entries, the elements of an array
/// by index. Nulls, booleans and numbers are no string leaves, and neither
/// are the keys of objects.
pub open spec fn leaves(value: JsonValue) -> Seq<Seq<char>>
    decreases value, 0nat,
{
    match value {
        JsonValue::String(s) => seq![s@],
        JsonValue::Array(items) => leaves_of_items(items@, items@.len()),
        JsonValue::Object(entries) => leaves_of_entries(entries@, entries@.len()),
        _ => Seq::empty(),
    }
}

/// The string leaves of the first `n` of `items`.
pub open spec fn leaves_of_items(items: Seq<JsonValue>, n: nat) -> Seq<Seq<char>>
    decreases items, n,
{
    if n == 0 || n > items.len() {
        Seq::empty()
    } else {
        leaves_of_items(items, (n - 1) as nat) + leaves(items[n - 1])
    }
}

/// The string leaves of the values of the first `n` of `entries`.
pub open spec fn leaves_of_entries(entries: Seq<(String, JsonValue)>, n: nat) -> Seq<Seq<char>>
    decreases entries, n,
{
    if n == 0 || n > entries.len() {
        Seq::empty()
    } else {
        leaves_of_entries(entries, (n - 1) as nat) + leaves(entries[n - 1].1)
    }
}

} // verus!

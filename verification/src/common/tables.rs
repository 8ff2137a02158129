//! The `dashmap::DashMap` tables of the library, seen as maps from the key's
//! characters to the value.
//!
//! Each instantiation of `DashMap` has a name for what it holds and one
//! wrapper per method that the library calls on it, whose contract states the
//! method's effect on that map. A wrapper takes the table by `&mut` where the
//! method changes it (the method itself takes `&self`), so that the change is
//! visible to the proofs.

use vstd::prelude::*;
use dashmap::DashMap;

verus! {

#[verifier::external_type_specification]
#[verifier::external_body]
#[verifier::reject_recursive_types(K)]
#[verifier::reject_recursive_types(V)]
#[verifier::reject_recursive_types(S)]
pub struct ExDashMap<K, V, S>(DashMap<K, V, S>);


/// A table of timestamps (Unix milliseconds) by key.
pub type TimeTable = DashMap<String, u64>;

/// What a `DashMap<String, u64>` holds: a timestamp by key.
pub uninterp spec fn time_table(m: DashMap<String, u64>) -> Map<Seq<char>, u64>;

/// Calls `DashMap::new()` for a timestamp table; the new map is empty.
#[verifier::external_body]
pub(crate) fn time_new() -> (fresh: TimeTable)
    ensures
        time_table(fresh).dom().is_empty(),
{
    DashMap::new()
}

/// Calls `DashMap::get(key)` on a timestamp table and copies the value out of
/// the returned guard: the value stored under the key, if any.
#[verifier::external_body]
pub(crate) fn time_get(m: &DashMap<String, u64>, key: &str) -> (r: Option<u64>)
    ensures
        r == time_table(*m).get(key@),
{
    m.get(key).map(|v| *v)
}

/// Calls `DashMap::insert(key, value)` on a timestamp table: the key now maps
/// to the value, other keys are unchanged.
#[verifier::external_body]
pub(crate) fn time_insert(m: &mut DashMap<String, u64>, key: String, value: u64)
    ensures
        time_table(*final(m)) == time_table(*old(m)).insert(key@, value),
{
    m.insert(key, value);
}

/// Calls `DashMap::remove(key)` on a timestamp table: the key is no longer
/// present, other keys are unchanged.
#[verifier::external_body]
pub(crate) fn time_remove(m: &mut DashMap<String, u64>, key: &str)
    ensures
        time_table(*final(m)) == time_table(*old(m)).remove(key@),
{
    m.remove(key);
}

/// A table of texts by key.
pub type TextTable = DashMap<String, String>;

/// What a `DashMap<String, String>` holds: a text by key.
pub uninterp spec fn text_table(m: DashMap<String, String>) -> Map<Seq<char>, Seq<char>>;

/// The text of an optional string.
pub open spec fn opt_view(o: Option<String>) -> Option<Seq<char>> {
    match o {
        Some(s) => Some(s@),
        None => None,
    }
}

/// Calls `DashMap::new()` for a text table; the new map is empty.
#[verifier::external_body]
pub(crate) fn text_new() -> (fresh: TextTable)
    ensures
        text_table(fresh).dom().is_empty(),
{
    DashMap::new()
}

/// Calls `DashMap::get(key)` on a text table and clones the value out of the
/// returned guard: the text stored under the key, if any.
#[verifier::external_body]
pub(crate) fn text_get(m: &DashMap<String, String>, key: &str) -> (r: Option<String>)
    ensures
        opt_view(r) == text_table(*m).get(key@),
{
    m.get(key).map(|v| v.value().clone())
}

/// Calls `DashMap::insert(key, value)` on a text table: the key now maps to the
/// value, other keys are unchanged; the previous value of the key is returned.
#[verifier::external_body]
pub(crate) fn text_insert(m: &mut DashMap<String, String>, key: String, value: String) -> (r: Option<
    String,
>)
    ensures
        text_table(*final(m)) == text_table(*old(m)).insert(key@, value@),
        opt_view(r) == text_table(*old(m)).get(key@),
{
    m.insert(key, value)
}

/// Calls `DashMap::remove(key)` on a text table: the key is no longer present,
/// other keys are unchanged; the removed value is returned.
#[verifier::external_body]
pub(crate) fn text_remove(m: &mut DashMap<String, String>, key: &str) -> (r: Option<String>)
    ensures
        text_table(*final(m)) == text_table(*old(m)).remove(key@),
        opt_view(r) == text_table(*old(m)).get(key@),
{
    m.remove(key).map(|(_, v)| v)
}

/// Calls `DashMap::len()` on a text table: the number of entries.
#[verifier::external_body]
pub(crate) fn text_len(m: &DashMap<String, String>) -> (r: usize)
    ensures
        r == text_table(*m).len(),
{
    m.len()
}

/// Calls `DashMap::iter()` on a text table and clones each entry out: every
/// entry once, in an order that the map does not fix.
#[verifier::external_body]
pub(crate) fn text_entries(m: &DashMap<String, String>) -> (r: Vec<(String, String)>)
    ensures
        r@.len() == text_table(*m).len(),
        forall|i: int|
            0 <= i < r@.len() ==> text_table(*m).contains_key(#[trigger] r@[i].0@) && text_table(
                *m,
            )[r@[i].0@] == r@[i].1@,
        forall|i: int, j: int| 0 <= i < j < r@.len() ==> r@[i].0@ != r@[j].0@,
{
    m.iter().map(|e| (e.key().clone(), e.value().clone())).collect()
}

} // verus!

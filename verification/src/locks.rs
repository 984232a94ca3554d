//! Tables that many tasks share: which lock belongs to a host, and how often a
//! source has been synced.

use dashmap::DashMap;
use std::collections::hash_map::RandomState;
#[allow(unused_imports)]
use crate::text::Text;
use vstd::prelude::*;

verus! {

/// `dashmap::DashMap`.
#[verifier::external_type_specification]
#[verifier::external_body]
#[verifier::reject_recursive_types(K)]
#[verifier::reject_recursive_types(V)]
#[verifier::reject_recursive_types(S)]
pub struct ExDashMap<K, V, S>(dashmap::DashMap<K, V, S>);

/// What a table of numbers by source and host holds.
pub uninterp spec fn numbers(table: DashMap<(String, String), usize, RandomState>) -> Map<(Text, Text), usize>;

/// What a table of counts by source holds.
pub uninterp spec fn counts(table: DashMap<String, u64, RandomState>) -> Map<Text, u64>;

/// `DashMap::new`: a table that holds nothing.
#[verifier::external_body]
pub(crate) fn no_numbers() -> (table: DashMap<(String, String), usize, RandomState>)
    ensures
        (numbers(table) == Map::<(Text, Text), usize>::empty()),
{
    DashMap::new()
}

/// `DashMap::entry` with `Entry::or_insert`: the number under a source and a host.
/// Where there is none yet, the given one is put there first; nothing else changes.
#[verifier::external_body]
pub(crate) fn number_or(
    table: &mut DashMap<(String, String), usize, RandomState>,
    source_id: &str,
    hostname: &str,
    fresh: usize,
) -> (number: usize)
    ensures
        numbers(*final(table)) == (if numbers(*old(table)).contains_key((source_id@, hostname@)) {
            numbers(*old(table))
        } else {
            numbers(*old(table)).insert((source_id@, hostname@), fresh)
        }),
        number == numbers(*final(table))[(source_id@, hostname@)],
{
    *table.entry((source_id.to_string(), hostname.to_string())).or_insert(fresh)
}

/// `DashMap::new`: a table that holds nothing.
#[verifier::external_body]
pub(crate) fn no_counts() -> (table: DashMap<String, u64, RandomState>)
    ensures
        (counts(table) == Map::<Text, u64>::empty()),
{
    DashMap::new()
}

/// `DashMap::entry` with `Entry::or_default`: the count under a key. Where there is
/// none yet, zero is put there first; nothing else changes.
#[verifier::external_body]
pub(crate) fn count_or_zero(table: &mut DashMap<String, u64, RandomState>, key: &str) -> (count: u64)
    ensures
        counts(*final(table)) == (if counts(*old(table)).contains_key(key@) {
            counts(*old(table))
        } else {
            counts(*old(table)).insert(key@, 0)
        }),
        count == counts(*final(table))[key@],
{
    *table.entry(key.to_string()).or_default()
}

/// `DashMap::insert`: puts a count under a key, in place of what was there.
#[verifier::external_body]
pub(crate) fn put_count(table: &mut DashMap<String, u64, RandomState>, key: &str, count: u64) -> (before: Option<u64>)
    ensures
        counts(*final(table)) == counts(*old(table)).insert(key@, count),
        before == (if counts(*old(table)).contains_key(key@) {
            Some(counts(*old(table))[key@])
        } else {
            None
        }),
{
    table.insert(key.to_string(), count)
}

} // verus!

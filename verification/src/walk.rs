//! Walking the entries of a history downwards from a given index.
//!
//! The walk is a range of the ordered map of the standard library.  Nothing in
//! this file is proved: the two functions state what the standard library
//! documents of `BTreeMap::range` and of `next_back` on the range it returns.

use crate::entry::{Entry, TxnIndex};
use crate::history::EntryMap;
use crossbeam::utils::CachePadded;
use std::collections::btree_map::Range;
use vstd::prelude::*;

verus! {

/// `Range` of the ordered map of the standard library: a double-ended iterator
/// over part of the map.  Its inside is not looked at here.
#[verifier::external_type_specification]
#[verifier::external_body]
#[verifier::reject_recursive_types(K)]
#[verifier::reject_recursive_types(V)]
pub struct ExRange<'a, K, V>(Range<'a, K, V>);

/// A walk over the padded entries of a history.
pub type Walk<'a> = Range<'a, TxnIndex, CachePadded<Entry>>;

/// The slots that a walk has not handed out yet, lowest index first.
pub uninterp spec fn remaining(walk: Walk<'_>) -> Seq<(TxnIndex, CachePadded<Entry>)>;

/// Whether `items` are the slots of `slots` with an index below `bound`, each
/// once, lowest index first.
pub open spec fn slots_below(
    items: Seq<(TxnIndex, CachePadded<Entry>)>,
    slots: Map<TxnIndex, CachePadded<Entry>>,
    bound: TxnIndex,
) -> bool {
    &&& forall|i: int|
        0 <= i < items.len() ==> (#[trigger] items[i]).0 < bound && slots.contains_key(items[i].0)
            && slots[items[i].0] == items[i].1
    &&& forall|i: int, j: int|
        0 <= i < j < items.len() ==> (#[trigger] items[i]).0 < (#[trigger] items[j]).0
    &&& forall|k: TxnIndex|
        k < bound && #[trigger] slots.contains_key(k) ==> exists|i: int|
            0 <= i < items.len() && (#[trigger] items[i]).0 == k
}

/// Starts a walk over the slots with an index below `bound`.
///
/// Trusted: `BTreeMap::range` with the range `..bound` gives a double-ended
/// iterator over the entries of the map whose key is below `bound`, in the
/// order of their keys.
#[verifier::external_body]
pub(crate) fn walk_below<'a>(slots: &'a EntryMap, bound: TxnIndex) -> (walk: Walk<'a>)
    ensures
        slots_below(remaining(walk), slots@, bound),
{
    slots.range(..bound)
}

/// Hands out the highest slot that the walk has left, with its index.
///
/// Trusted: `next_back` on the range removes the last of the remaining
/// entries from it and returns that entry, or returns `None` where none
/// remains.
#[verifier::external_body]
pub(crate) fn step_down<'a>(walk: &mut Walk<'a>) -> (item: Option<(TxnIndex, &'a CachePadded<Entry>)>)
    ensures
        match item {
            Some(found) => remaining(*old(walk)).len() > 0 && remaining(*final(walk)) == remaining(
                *old(walk),
            ).drop_last() && (found.0, *found.1) == remaining(*old(walk)).last(),
            None => remaining(*old(walk)).len() == 0 && remaining(*final(walk)) == remaining(
                *old(walk),
            ),
        },
{
    walk.next_back().map(|pair| (*pair.0, pair.1))
}

} // verus!

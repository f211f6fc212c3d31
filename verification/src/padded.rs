//! Entries are stored padded to the length of a cache line, so that a flag
//! flip in one slot does not invalidate its neighbours.

use crate::entry::Entry;
use crossbeam::utils::CachePadded;
use vstd::prelude::*;

verus! {

/// `CachePadded` of the `crossbeam` crate: a value, padded and aligned to the
/// length of a cache line.  Its inside is not looked at here.
#[verifier::external_type_specification]
#[verifier::external_body]
#[verifier::reject_recursive_types(T)]
pub struct ExCachePadded<T>(CachePadded<T>);

/// The entry inside a padded slot.
pub uninterp spec fn padded_entry(slot: CachePadded<Entry>) -> Entry;

/// Pads an entry.
///
/// Trusted: `CachePadded::new` stores its argument unchanged.
#[verifier::external_body]
pub(crate) fn pad(entry: Entry) -> (slot: CachePadded<Entry>)
    ensures
        padded_entry(slot) == entry,
{
    CachePadded::new(entry)
}

/// Takes the entry out of its padding.
///
/// Trusted: `CachePadded::into_inner` returns the stored value.
#[verifier::external_body]
pub(crate) fn unpad(slot: CachePadded<Entry>) -> (entry: Entry)
    ensures
        entry == padded_entry(slot),
{
    slot.into_inner()
}

/// Looks at the entry inside a padded slot.
///
/// Trusted: dereferencing a `CachePadded` gives a reference to the stored
/// value.
#[verifier::external_body]
pub(crate) fn peek(slot: &CachePadded<Entry>) -> (entry: &Entry)
    ensures
        *entry == padded_entry(*slot),
{
    &**slot
}

} // verus!

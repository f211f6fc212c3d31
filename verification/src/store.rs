//! The concurrent map that holds one history per key.
//!
//! The map comes from the `dashmap` crate.  Nothing in this file is proved:
//! each function states what the `dashmap` method it calls does to the
//! contents of the map.

use crate::entry::TxnIndex;
use crate::history::{read_spec, VersionedValue};
use crate::outcome::{MVHashMapError, MVHashMapOutput};
use dashmap::DashMap;
use vstd::prelude::*;

verus! {

/// `DashMap` of the `dashmap` crate: a hash map split into shards, each behind
/// its own lock.  Its inside is not looked at here.
#[verifier::external_type_specification]
#[verifier::external_body]
#[verifier::reject_recursive_types(K)]
#[verifier::reject_recursive_types(V)]
#[verifier::reject_recursive_types(S)]
pub struct ExDashMap<K, V, S>(DashMap<K, V, S>);

/// The concurrent map from keys to histories.
pub type Store = DashMap<String, VersionedValue>;

/// The histories that the map holds, by key.
pub uninterp spec fn histories(store: Store) -> Map<Seq<char>, VersionedValue>;

/// No histories at all.
pub open spec fn no_histories() -> Map<Seq<char>, VersionedValue> {
    Map::empty()
}

/// A map without keys.
///
/// Trusted: `DashMap::new` makes an empty map.
#[verifier::external_body]
pub(crate) fn empty_store() -> (store: Store)
    ensures
        histories(store) == no_histories(),
{
    DashMap::new()
}

/// Puts `history` at `key`, in place of what was there.
///
/// Trusted: `DashMap::insert` maps the key to the value and leaves every other
/// key as it was.
#[verifier::external_body]
pub(crate) fn put(store: &mut Store, key: String, history: VersionedValue)
    ensures
        histories(*final(store)) == histories(*old(store)).insert(key@, history),
{
    store.insert(key, history);
}

/// Takes the history at `key` out of the map.
///
/// Trusted: `DashMap::remove` returns the value that the key was mapped to, if
/// there was one, and leaves the map without that key and every other key as
/// it was.
#[verifier::external_body]
pub(crate) fn take(store: &mut Store, key: &String) -> (history: Option<
    VersionedValue,
>)
    ensures
        histories(*final(store)) == histories(*old(store)).remove(key@),
        history == if histories(*old(store)).contains_key(key@) {
            Some(histories(*old(store))[key@])
        } else {
            None
        },
{
    store.remove(key).map(|pair| pair.1)
}

/// Reads the history at `key`, where it lies, on behalf of the transaction at
/// `txn_idx`.
///
/// Trusted: `DashMap::view` calls the closure on the value that the key is
/// mapped to and returns what the closure returns, or `None` where the map has
/// no such key.  The closure is the read of the history.
#[verifier::external_body]
pub(crate) fn read_at(store: &Store, key: &String, txn_idx: TxnIndex) -> (r:
    Option<Result<MVHashMapOutput, MVHashMapError>>)
    ensures
        r == if histories(*store).contains_key(key@) {
            Some(read_spec(histories(*store)[key@].entries(), txn_idx))
        } else {
            None
        },
{
    store.view(key, |_, history| history.read(txn_idx))
}

} // verus!

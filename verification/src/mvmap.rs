//! The multi-version map: one history per key, and the list of keys that have
//! ever carried a delta.

use crate::delta::DeltaOp;
use crate::entry::{Entry, TxnIndex, Version};
use crate::history::{
    accepts_write, delta_entry, estimate_of, read_spec, written, EntryMap, VersionedValue,
};
use crate::outcome::{MVHashMapError, MVHashMapOutput};
use crate::store::{empty_store, histories, put, read_at, take, Store};
use crate::write::WriteOp;
use vstd::prelude::*;

verus! {

/// What a history is, to a reader of contracts.
pub struct HistoryView {
    /// The entries, by the index of the transaction that wrote them.
    pub entries: Map<TxnIndex, Entry>,
    /// Whether a delta was ever added.
    pub contains_delta: bool,
}

/// What the multi-version map is, to a reader of contracts.
pub struct MVHashMapView {
    /// The history of each key that has one.
    pub data: Map<Seq<char>, HistoryView>,
    /// The keys that carried a delta, in the order in which they first did.
    pub delta_keys: Seq<Seq<char>>,
}

impl View for VersionedValue {
    type V = HistoryView;

    open spec fn view(&self) -> HistoryView {
        HistoryView { entries: self.entries(), contains_delta: self.contains_delta }
    }
}

/// The keys of a list, as sequences of characters.
pub open spec fn key_views(keys: Seq<String>) -> Seq<Seq<char>> {
    keys.map_values(|key: String| key@)
}

impl MVHashMapView {
    /// A map without keys.
    pub open spec fn empty() -> MVHashMapView {
        MVHashMapView { data: Map::empty(), delta_keys: Seq::empty() }
    }

    /// The history at `key`; the empty one where the key has none.
    pub open spec fn history(self, key: Seq<char>) -> HistoryView {
        if self.data.contains_key(key) {
            self.data[key]
        } else {
            HistoryView { entries: Map::empty(), contains_delta: false }
        }
    }

    /// What the transaction at `txn_idx` reads at `key`.
    pub open spec fn read(self, key: Seq<char>, txn_idx: TxnIndex) -> Result<
        MVHashMapOutput,
        MVHashMapError,
    > {
        if self.data.contains_key(key) {
            read_spec(self.data[key].entries, txn_idx)
        } else {
            Err(MVHashMapError::NotFound)
        }
    }

    /// Whether the write of `version` may be added at `key`.
    pub open spec fn accepts_write(self, key: Seq<char>, version: Version) -> bool {
        accepts_write(self.history(key).entries, version.0, version.1)
    }

    /// The map after the write `data` of `version` at `key`.
    pub open spec fn add_write(self, key: Seq<char>, version: Version, data: WriteOp) -> MVHashMapView {
        MVHashMapView {
            data: self.data.insert(
                key,
                HistoryView {
                    entries: self.history(key).entries.insert(version.0, written(version.1, data)),
                    contains_delta: self.history(key).contains_delta,
                },
            ),
            delta_keys: self.delta_keys,
        }
    }

    /// The map after the delta of the transaction at `txn_idx` at `key`.
    pub open spec fn add_delta(self, key: Seq<char>, txn_idx: TxnIndex, delta: DeltaOp) -> MVHashMapView {
        MVHashMapView {
            data: self.data.insert(
                key,
                HistoryView {
                    entries: self.history(key).entries.insert(txn_idx, delta_entry(delta)),
                    contains_delta: true,
                },
            ),
            delta_keys: if self.history(key).contains_delta {
                self.delta_keys
            } else {
                self.delta_keys.push(key)
            },
        }
    }

    /// Whether the transaction at `txn_idx` has an entry at `key`.
    pub open spec fn has_entry(self, key: Seq<char>, txn_idx: TxnIndex) -> bool {
        self.data.contains_key(key) && self.data[key].entries.contains_key(txn_idx)
    }

    /// The map after the entry of the transaction at `txn_idx` at `key` has
    /// become an estimate.
    pub open spec fn mark_estimate(self, key: Seq<char>, txn_idx: TxnIndex) -> MVHashMapView {
        MVHashMapView {
            data: self.data.insert(
                key,
                HistoryView {
                    entries: self.data[key].entries.insert(
                        txn_idx,
                        estimate_of(self.data[key].entries[txn_idx]),
                    ),
                    contains_delta: self.data[key].contains_delta,
                },
            ),
            delta_keys: self.delta_keys,
        }
    }

    /// The map after the entry of the transaction at `txn_idx` at `key` has
    /// been removed.
    pub open spec fn delete(self, key: Seq<char>, txn_idx: TxnIndex) -> MVHashMapView {
        MVHashMapView {
            data: self.data.insert(
                key,
                HistoryView {
                    entries: self.data[key].entries.remove(txn_idx),
                    contains_delta: self.data[key].contains_delta,
                },
            ),
            delta_keys: self.delta_keys,
        }
    }

    /// The map after the history at `key` has been taken out.
    pub open spec fn without_key(self, key: Seq<char>) -> MVHashMapView {
        MVHashMapView { data: self.data.remove(key), delta_keys: self.delta_keys }
    }

    /// The map after the list of delta keys has been handed out.
    pub open spec fn drained(self) -> MVHashMapView {
        MVHashMapView { data: self.data, delta_keys: Seq::empty() }
    }
}

/// The multi-version map that the transactions of one batch read from and
/// write to while they are executed speculatively.
pub struct MVHashMap {
    data: Store,
    delta_keys: Vec<String>,
}

impl View for MVHashMap {
    type V = MVHashMapView;

    closed spec fn view(&self) -> MVHashMapView {
        MVHashMapView {
            data: histories(self.data).map_values(|history: VersionedValue| history@),
            delta_keys: key_views(self.delta_keys@),
        }
    }
}

impl Default for MVHashMap {
    /// A map without keys.
    fn default() -> (m: MVHashMap)
        ensures
            m@ == MVHashMapView::empty(),
    {
        MVHashMap::new()
    }
}

impl MVHashMap {
    /// A map without keys.
    pub fn new() -> (m: MVHashMap)
        ensures
            m@ == MVHashMapView::empty(),
    {
        let m = MVHashMap { data: empty_store(), delta_keys: Vec::new() };
        assert(m@.data =~= Map::empty());
        assert(m@.delta_keys =~= Seq::empty());
        m
    }

    /// Takes the history at `key` out of the map, or starts an empty one.
    fn checkout(&mut self, key: &String) -> (history: VersionedValue)
        ensures
            history@ == old(self)@.history(key@),
            final(self)@ == old(self)@.without_key(key@),
    {
        let history = match take(&mut self.data, key) {
            Some(history) => history,
            None => VersionedValue::new(),
        };
        assert(self@.data =~= old(self)@.data.remove(key@));
        history
    }

    /// Puts `history` at `key`.
    fn checkin(&mut self, key: &String, history: VersionedValue)
        ensures
            final(self)@.data == old(self)@.data.insert(key@, history@),
            final(self)@.delta_keys == old(self)@.delta_keys,
    {
        put(&mut self.data, key.clone(), history);
        assert(self@.data =~= old(self)@.data.insert(key@, history@));
    }

    /// Removes the history at `key` from the map and returns its entries, or
    /// `None` where the key has no history.
    pub fn entry_map_for_key(&mut self, key: &String) -> (r: Option<EntryMap>)
        ensures
            final(self)@ == old(self)@.without_key(key@),
            match r {
                Some(entries) => old(self)@.data.contains_key(key@) && crate::history::unpadded(
                    entries@,
                ) == old(self)@.data[key@].entries,
                None => !old(self)@.data.contains_key(key@),
            },
    {
        let taken = take(&mut self.data, key);
        assert(self@.data =~= old(self)@.data.remove(key@));
        match taken {
            Some(history) => Some(history.versioned_map),
            None => None,
        }
    }

    /// Hands out the keys that have carried a delta, in the order in which
    /// they first did, and forgets them.
    pub fn aggregator_keys(&mut self) -> (keys: Vec<String>)
        ensures
            key_views(keys@) == old(self)@.delta_keys,
            final(self)@ == old(self)@.drained(),
    {
        let mut keys: Vec<String> = Vec::new();
        core::mem::swap(&mut self.delta_keys, &mut keys);
        assert(self@.delta_keys =~= Seq::empty());
        keys
    }

    /// Adds the write `data` of `version` at `key`, in place of what the same
    /// transaction had there.  A write that is replaced must be of a lower
    /// incarnation.
    pub fn add_write(&mut self, key: &String, version: Version, data: WriteOp)
        requires
            old(self)@.accepts_write(key@, version),
        ensures
            final(self)@ == old(self)@.add_write(key@, version, data),
    {
        let mut history = self.checkout(key);
        history.write(version.0, version.1, data);
        self.checkin(key, history);
        assert(self@.data =~= old(self)@.add_write(key@, version, data).data);
    }

    /// Adds the write as `add_write` does where it may be added, and leaves
    /// the map as it is where it may not.  Returns which of the two happened.
    pub fn try_add_write(&mut self, key: &String, version: Version, data: WriteOp) -> (added: bool)
        ensures
            added == old(self)@.accepts_write(key@, version),
            final(self)@ == if added {
                old(self)@.add_write(key@, version, data)
            } else {
                old(self)@
            },
    {
        let mut history = self.checkout(key);
        let added = history.can_write(version.0, version.1);
        if added {
            history.write(version.0, version.1, data);
        }
        self.checkin(key, history);
        if added {
            assert(self@.data =~= old(self)@.add_write(key@, version, data).data);
        } else {
            assert(old(self)@.data.contains_key(key@));
            assert(self@.data =~= old(self)@.data);
        }
        added
    }

    /// Adds the delta of the transaction at `txn_idx` at `key`, in place of
    /// what the same transaction had there.  The first delta at a key puts the
    /// key on the list of delta keys.
    pub fn add_delta(&mut self, key: &String, txn_idx: TxnIndex, delta: DeltaOp)
        ensures
            final(self)@ == old(self)@.add_delta(key@, txn_idx, delta),
    {
        let mut history = self.checkout(key);
        let first = history.delta(txn_idx, delta);
        self.checkin(key, history);
        if first {
            self.delta_keys.push(key.clone());
            assert(self@.delta_keys =~= old(self)@.delta_keys.push(key@));
        }
        assert(self@.data =~= old(self)@.add_delta(key@, txn_idx, delta).data);
    }

    /// Turns the entry of the transaction at `txn_idx` at `key` into an
    /// estimate.  The entry must exist.
    pub fn mark_estimate(&mut self, key: &String, txn_idx: TxnIndex)
        requires
            old(self)@.has_entry(key@, txn_idx),
        ensures
            final(self)@ == old(self)@.mark_estimate(key@, txn_idx),
    {
        let mut history = self.checkout(key);
        history.mark_estimate(txn_idx);
        self.checkin(key, history);
        assert(self@.data =~= old(self)@.mark_estimate(key@, txn_idx).data);
    }

    /// Marks the entry as `mark_estimate` does where it exists, and leaves the
    /// map as it is where it does not.  Returns which of the two happened.
    pub fn try_mark_estimate(&mut self, key: &String, txn_idx: TxnIndex) -> (marked: bool)
        ensures
            marked == old(self)@.has_entry(key@, txn_idx),
            final(self)@ == if marked {
                old(self)@.mark_estimate(key@, txn_idx)
            } else {
                old(self)@
            },
    {
        match take(&mut self.data, key) {
            None => {
                assert(self@.data =~= old(self)@.data);
                false
            },
            Some(history) => {
                let mut history = history;
                let marked = history.has_entry(txn_idx);
                if marked {
                    history.mark_estimate(txn_idx);
                }
                put(&mut self.data, key.clone(), history);
                if marked {
                    assert(self@.data =~= old(self)@.mark_estimate(key@, txn_idx).data);
                } else {
                    assert(self@.data =~= old(self)@.data);
                }
                marked
            },
        }
    }

    /// Removes the entry of the transaction at `txn_idx` at `key`, if it has
    /// one.  The key must have a history.
    pub fn delete(&mut self, key: &String, txn_idx: TxnIndex)
        requires
            old(self)@.data.contains_key(key@),
        ensures
            final(self)@ == old(self)@.delete(key@, txn_idx),
    {
        let mut history = self.checkout(key);
        history.delete(txn_idx);
        self.checkin(key, history);
        assert(self@.data =~= old(self)@.delete(key@, txn_idx).data);
    }

    /// Removes the entry as `delete` does where the key has a history, and
    /// leaves the map as it is where it has none.  Returns which of the two
    /// happened.
    pub fn try_delete(&mut self, key: &String, txn_idx: TxnIndex) -> (found: bool)
        ensures
            found == old(self)@.data.contains_key(key@),
            final(self)@ == if found {
                old(self)@.delete(key@, txn_idx)
            } else {
                old(self)@
            },
    {
        match take(&mut self.data, key) {
            None => {
                assert(self@.data =~= old(self)@.data);
                false
            },
            Some(history) => {
                let mut history = history;
                history.delete(txn_idx);
                put(&mut self.data, key.clone(), history);
                assert(self@.data =~= old(self)@.delete(key@, txn_idx).data);
                true
            },
        }
    }

    /// What the transaction at `txn_idx` reads at `key`: the result of walking
    /// the history of the key downwards from just below `txn_idx`, and
    /// `NotFound` where the key has no history.
    pub fn read(&self, key: &String, txn_idx: TxnIndex) -> (r: Result<
        MVHashMapOutput,
        MVHashMapError,
    >)
        ensures
            r == self@.read(key@, txn_idx),
    {
        match read_at(&self.data, key, txn_idx) {
            Some(r) => r,
            None => Err(MVHashMapError::NotFound),
        }
    }
}

} // verus!

//! The history of one key: its entries by transaction index, and the read
//! that walks them downwards.

use crate::delta::DeltaOp;
use crate::entry::{
    entry_of, share, Entry, EntryCell, Incarnation, TxnIndex, FLAG_DONE, FLAG_ESTIMATE,
};
use crate::outcome::{Accumulator, MVHashMapError, MVHashMapOutput};
use crate::padded::{pad, padded_entry, peek, unpad};
use crate::walk::{remaining, slots_below, step_down, walk_below};
use crate::write::WriteOp;
use crossbeam::utils::CachePadded;
use std::collections::BTreeMap;
use std::sync::Arc;
use vstd::prelude::*;

verus! {

/// Padded entries by the index of the transaction that wrote them.
pub type EntryMap = BTreeMap<TxnIndex, CachePadded<Entry>>;

/// The entries of a map of padded entries, without their padding.
pub open spec fn unpadded(slots: Map<TxnIndex, CachePadded<Entry>>) -> Map<TxnIndex, Entry> {
    slots.map_values(|slot: CachePadded<Entry>| padded_entry(slot))
}

/// All entries written at one key.
pub struct VersionedValue {
    /// The entries, by the index of the transaction that wrote them.
    pub versioned_map: EntryMap,
    /// Whether a delta was ever added at this key.
    pub contains_delta: bool,
}

/// The accumulator after a further delta, found below those gathered so far.
/// A failed merge is remembered; it does not stop the walk.
pub open spec fn accumulate(acc: Accumulator, below: DeltaOp) -> Accumulator {
    match acc {
        Accumulator::Empty => Accumulator::Merged(below),
        Accumulator::Merged(above) => match above.merge_spec(below) {
            Ok(merged) => Accumulator::Merged(merged),
            Err(_) => Accumulator::Failed,
        },
        Accumulator::Failed => Accumulator::Failed,
    }
}

/// The result of a read whose walk ends at a write.
///
/// With no delta above it the write is returned as it is.  Otherwise the write
/// is read as an aggregator base: a write without one (a deletion) is returned
/// as it is, whatever became of the deltas; with a base, the merged delta is
/// applied to it.
pub open spec fn resolve_write(
    idx: TxnIndex,
    incarnation: Incarnation,
    data: Arc<WriteOp>,
    acc: Accumulator,
) -> Result<MVHashMapOutput, MVHashMapError> {
    match acc {
        Accumulator::Empty => Ok(MVHashMapOutput::Version((idx, incarnation), data)),
        Accumulator::Merged(delta) => match data.numeric_base_spec() {
            None => Ok(MVHashMapOutput::Version((idx, incarnation), data)),
            Some(base) => match delta.apply_spec(base) {
                Ok(value) => Ok(MVHashMapOutput::Resolved(value)),
                Err(_) => Err(MVHashMapError::DeltaApplicationFailure),
            },
        },
        Accumulator::Failed => match data.numeric_base_spec() {
            None => Ok(MVHashMapOutput::Version((idx, incarnation), data)),
            Some(_) => Err(MVHashMapError::DeltaApplicationFailure),
        },
    }
}

/// The result of a read whose walk reaches the bottom of the history.
pub open spec fn exhausted(acc: Accumulator) -> Result<MVHashMapOutput, MVHashMapError> {
    match acc {
        Accumulator::Empty => Err(MVHashMapError::NotFound),
        Accumulator::Merged(delta) => Err(MVHashMapError::Unresolved(delta)),
        Accumulator::Failed => Err(MVHashMapError::DeltaApplicationFailure),
    }
}

/// The result of walking `entries` downwards from just below `bound`, with
/// `acc` gathered on the way there.
pub open spec fn read_from(entries: Map<TxnIndex, Entry>, bound: nat, acc: Accumulator) -> Result<
    MVHashMapOutput,
    MVHashMapError,
>
    decreases bound,
{
    if bound == 0 {
        exhausted(acc)
    } else {
        let idx = (bound - 1) as usize;
        if !entries.contains_key(idx) {
            read_from(entries, (bound - 1) as nat, acc)
        } else if entries[idx].is_estimate() {
            Err(MVHashMapError::Dependency(idx))
        } else {
            match entries[idx].cell_spec() {
                EntryCell::Write(incarnation, data) => resolve_write(idx, incarnation, data, acc),
                EntryCell::Delta(delta) => read_from(
                    entries,
                    (bound - 1) as nat,
                    accumulate(acc, delta),
                ),
            }
        }
    }
}

/// What the transaction at `txn_idx` reads from `entries`.
pub open spec fn read_spec(entries: Map<TxnIndex, Entry>, txn_idx: TxnIndex) -> Result<
    MVHashMapOutput,
    MVHashMapError,
> {
    read_from(entries, txn_idx as nat, Accumulator::Empty)
}

/// Adds a delta found below those gathered so far.
pub fn merge_below(acc: Accumulator, below: DeltaOp) -> (r: Accumulator)
    ensures
        r == accumulate(acc, below),
{
    match acc {
        Accumulator::Empty => Accumulator::Merged(below),
        Accumulator::Merged(above) => match above.merge_onto(below) {
            Ok(merged) => Accumulator::Merged(merged),
            Err(_) => Accumulator::Failed,
        },
        Accumulator::Failed => Accumulator::Failed,
    }
}

/// Ends a read at the write `data` of version `(idx, incarnation)`.
pub fn resolve(idx: TxnIndex, incarnation: Incarnation, data: &Arc<WriteOp>, acc: Accumulator) -> (r:
    Result<MVHashMapOutput, MVHashMapError>)
    ensures
        r == resolve_write(idx, incarnation, *data, acc),
{
    match acc {
        Accumulator::Empty => Ok(MVHashMapOutput::Version((idx, incarnation), share(data))),
        Accumulator::Merged(delta) => match data.to_numeric_base() {
            None => Ok(MVHashMapOutput::Version((idx, incarnation), share(data))),
            Some(base) => match delta.apply_to(base) {
                Ok(value) => Ok(MVHashMapOutput::Resolved(value)),
                Err(_) => Err(MVHashMapError::DeltaApplicationFailure),
            },
        },
        Accumulator::Failed => match data.to_numeric_base() {
            None => Ok(MVHashMapOutput::Version((idx, incarnation), share(data))),
            Some(_) => Err(MVHashMapError::DeltaApplicationFailure),
        },
    }
}

/// Ends a read at the bottom of the history.
pub fn finish(acc: Accumulator) -> (r: Result<MVHashMapOutput, MVHashMapError>)
    ensures
        r == exhausted(acc),
{
    match acc {
        Accumulator::Empty => Err(MVHashMapError::NotFound),
        Accumulator::Merged(delta) => Err(MVHashMapError::Unresolved(delta)),
        Accumulator::Failed => Err(MVHashMapError::DeltaApplicationFailure),
    }
}

/// A walk passes over slots that hold nothing: from below `high` it goes on
/// as from below `low`, where no slot from `low` up to `high` holds an entry.
pub proof fn lemma_empty_slots_are_skipped(
    entries: Map<TxnIndex, Entry>,
    low: nat,
    high: nat,
    acc: Accumulator,
)
    requires
        low <= high <= usize::MAX,
        forall|k: TxnIndex| low <= k < high ==> !entries.contains_key(k),
    ensures
        read_from(entries, high, acc) == read_from(entries, low, acc),
    decreases high - low,
{
    if low < high {
        lemma_empty_slots_are_skipped(entries, low, (high - 1) as nat, acc);
    }
}

impl Default for VersionedValue {
    /// An empty history.
    fn default() -> (v: VersionedValue)
        ensures
            v.entries() == Map::<TxnIndex, Entry>::empty(),
            !v.contains_delta,
    {
        VersionedValue::new()
    }
}

impl VersionedValue {
    /// The entries of the history, without their padding.
    pub open spec fn entries(self) -> Map<TxnIndex, Entry> {
        unpadded(self.versioned_map@)
    }

    /// An empty history.
    pub fn new() -> (v: VersionedValue)
        ensures
            v.entries() == Map::<TxnIndex, Entry>::empty(),
            !v.contains_delta,
    {
        let v = VersionedValue { versioned_map: BTreeMap::new(), contains_delta: false };
        assert(v.entries() =~= Map::<TxnIndex, Entry>::empty());
        v
    }

    /// What the transaction at `txn_idx` reads: the entries below `txn_idx`
    /// are walked from the highest down, until an estimate or a write is met
    /// or none is left.
    pub fn read(&self, txn_idx: TxnIndex) -> (r: Result<MVHashMapOutput, MVHashMapError>)
        ensures
            r == read_spec(self.entries(), txn_idx),
    {
        let mut acc = Accumulator::Empty;
        let mut walk = walk_below(&self.versioned_map, txn_idx);
        let ghost mut bound: TxnIndex = txn_idx;
        loop
            invariant
                bound <= txn_idx,
                slots_below(remaining(walk), self.versioned_map@, bound),
                read_spec(self.entries(), txn_idx) == read_from(self.entries(), bound as nat, acc),
            decreases remaining(walk).len(),
        {
            let ghost before = remaining(walk);
            match step_down(&mut walk) {
                None => {
                    proof {
                        assert forall|k: TxnIndex| 0 <= k < bound implies !self.entries().contains_key(
                            k,
                        ) by {
                            if self.versioned_map@.contains_key(k) {
                                let i = choose|i: int| 0 <= i < before.len() && before[i].0 == k;
                            }
                        }
                        lemma_empty_slots_are_skipped(self.entries(), 0, bound as nat, acc);
                    }
                    return finish(acc);
                },
                Some(found) => {
                    let idx: TxnIndex = found.0;
                    let entry = peek(found.1);
                    proof {
                        let top = before.len() - 1;
                        assert(before[top] == (idx, *found.1));
                        assert(self.entries().contains_key(idx));
                        assert(self.entries()[idx] == *entry);
                        assert forall|k: TxnIndex| idx < k < bound implies !self.entries().contains_key(
                            k,
                        ) by {
                            if self.versioned_map@.contains_key(k) {
                                let i = choose|i: int| 0 <= i < before.len() && before[i].0 == k;
                                if i < top {
                                    assert(before[i].0 < before[top].0);
                                }
                            }
                        }
                        lemma_empty_slots_are_skipped(
                            self.entries(),
                            (idx + 1) as nat,
                            bound as nat,
                            acc,
                        );
                    }
                    if entry.flag() == FLAG_ESTIMATE {
                        return Err(MVHashMapError::Dependency(idx));
                    }
                    match entry.cell() {
                        EntryCell::Write(incarnation, data) => {
                            return resolve(idx, *incarnation, data, acc);
                        },
                        EntryCell::Delta(delta) => {
                            acc = merge_below(acc, *delta);
                        },
                    }
                    proof {
                        let after = remaining(walk);
                        assert forall|k: TxnIndex|
                            k < idx && #[trigger] self.versioned_map@.contains_key(
                                k,
                            ) implies exists|i: int|
                            0 <= i < after.len() && (#[trigger] after[i]).0 == k by {
                            let i = choose|i: int| 0 <= i < before.len() && before[i].0 == k;
                            assert(after[i] == before[i]);
                        }
                        assert forall|i: int| 0 <= i < after.len() implies (#[trigger] after[i]).0
                            < idx && self.versioned_map@.contains_key(after[i].0)
                            && self.versioned_map@[after[i].0] == after[i].1 by {
                            assert(after[i] == before[i]);
                            assert(before[i].0 < before[before.len() - 1].0);
                        }
                        assert forall|i: int, j: int| 0 <= i < j < after.len() implies (
                        #[trigger] after[i]).0 < (#[trigger] after[j]).0 by {
                            assert(after[i] == before[i]);
                            assert(after[j] == before[j]);
                        }
                        bound = idx;
                    }
                },
            }
        }
    }

    /// Records the write `data` of version `(txn_idx, incarnation)`, in place
    /// of whatever the transaction had at this key before.
    pub fn write(&mut self, txn_idx: TxnIndex, incarnation: Incarnation, data: WriteOp)
        requires
            accepts_write(old(self).entries(), txn_idx, incarnation),
        ensures
            final(self).entries() == old(self).entries().insert(
                txn_idx,
                written(incarnation, data),
            ),
            final(self).contains_delta == old(self).contains_delta,
    {
        let slot = pad(Entry::new_write_from(FLAG_DONE, incarnation, data));
        self.versioned_map.insert(txn_idx, slot);
        assert(self.entries() =~= old(self).entries().insert(txn_idx, written(incarnation, data)));
    }

    /// Records the delta of the transaction at `txn_idx`, in place of whatever
    /// the transaction had at this key before.  Returns whether this is the
    /// first delta the key has ever seen.
    pub fn delta(&mut self, txn_idx: TxnIndex, delta: DeltaOp) -> (first: bool)
        ensures
            final(self).entries() == old(self).entries().insert(txn_idx, delta_entry(delta)),
            final(self).contains_delta,
            first == !old(self).contains_delta,
    {
        let slot = pad(Entry::new_delta_from(FLAG_DONE, delta));
        self.versioned_map.insert(txn_idx, slot);
        assert(self.entries() =~= old(self).entries().insert(txn_idx, delta_entry(delta)));
        let first = !self.contains_delta;
        self.contains_delta = true;
        first
    }

    /// Whether the transaction at `txn_idx` has an entry at this key.
    pub fn has_entry(&self, txn_idx: TxnIndex) -> (r: bool)
        ensures
            r == self.entries().contains_key(txn_idx),
    {
        self.versioned_map.get(&txn_idx).is_some()
    }

    /// Whether a write of `incarnation` by the transaction at `txn_idx` may be
    /// recorded.
    pub fn can_write(&self, txn_idx: TxnIndex, incarnation: Incarnation) -> (r: bool)
        ensures
            r == accepts_write(self.entries(), txn_idx, incarnation),
    {
        match self.versioned_map.get(&txn_idx) {
            None => {
                assert(!self.entries().contains_key(txn_idx));
                true
            },
            Some(slot) => {
                assert(self.entries().contains_key(txn_idx));
                assert(self.entries()[txn_idx] == padded_entry(*slot));
                match peek(slot).cell() {
                    EntryCell::Write(previous, _) => *previous < incarnation,
                    EntryCell::Delta(_) => true,
                }
            },
        }
    }

    /// Turns the entry of the transaction at `txn_idx` into an estimate.
    pub fn mark_estimate(&mut self, txn_idx: TxnIndex)
        requires
            old(self).entries().contains_key(txn_idx),
        ensures
            final(self).entries() == old(self).entries().insert(
                txn_idx,
                estimate_of(old(self).entries()[txn_idx]),
            ),
            final(self).contains_delta == old(self).contains_delta,
    {
        match self.versioned_map.remove(&txn_idx) {
            None => {
                assert(!old(self).entries().contains_key(txn_idx));
            },
            Some(slot) => {
                assert(old(self).entries()[txn_idx] == padded_entry(slot));
                let mut entry = unpad(slot);
                entry.mark_estimate();
                self.versioned_map.insert(txn_idx, pad(entry));
                assert(self.entries() =~= old(self).entries().insert(
                    txn_idx,
                    estimate_of(old(self).entries()[txn_idx]),
                ));
            },
        }
    }

    /// Removes the entry of the transaction at `txn_idx`, if it has one.
    pub fn delete(&mut self, txn_idx: TxnIndex)
        ensures
            final(self).entries() == old(self).entries().remove(txn_idx),
            final(self).contains_delta == old(self).contains_delta,
    {
        self.versioned_map.remove(&txn_idx);
        assert(self.entries() =~= old(self).entries().remove(txn_idx));
    }
}

/// The entry that a write of `incarnation` leaves.
pub open spec fn written(incarnation: Incarnation, data: WriteOp) -> Entry {
    entry_of(FLAG_DONE, EntryCell::Write(incarnation, Arc::new(data)))
}

/// The entry that a delta leaves.
pub open spec fn delta_entry(delta: DeltaOp) -> Entry {
    entry_of(FLAG_DONE, EntryCell::Delta(delta))
}

/// The entry with its flag turned to estimate.
pub open spec fn estimate_of(entry: Entry) -> Entry {
    entry_of(FLAG_ESTIMATE, entry.cell_spec())
}

/// Whether a write of `incarnation` may take the slot of the transaction at
/// `txn_idx`: a write that is already there must be of a lower incarnation.
pub open spec fn accepts_write(
    entries: Map<TxnIndex, Entry>,
    txn_idx: TxnIndex,
    incarnation: Incarnation,
) -> bool {
    entries.contains_key(txn_idx) ==> match entries[txn_idx].cell_spec() {
        EntryCell::Write(previous, _) => previous < incarnation,
        EntryCell::Delta(_) => true,
    }
}

} // verus!

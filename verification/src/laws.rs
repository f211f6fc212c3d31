//! What holds of every read, whatever the history it walks.

use crate::entry::{
    lemma_entry_of, Entry, EntryCell, TxnIndex, Version, FLAG_DONE, FLAG_ESTIMATE,
};
use crate::history::{lemma_empty_slots_are_skipped, read_from, read_spec, written};
use crate::mvmap::MVHashMapView;
use crate::outcome::{Accumulator, MVHashMapError, MVHashMapOutput};
use crate::write::WriteOp;
use std::sync::Arc;
use vstd::prelude::*;

verus! {

/// Whether a walk goes on past the slot of the transaction at `idx`: the slot
/// is empty, or holds a delta that is no estimate.
pub open spec fn passed_over(entries: Map<TxnIndex, Entry>, idx: TxnIndex) -> bool {
    entries.contains_key(idx) ==> !entries[idx].is_estimate() && entries[idx].cell_spec() is Delta
}

/// Whether every slot from `low` up to, but without, `high` is passed over.
pub open spec fn all_passed_over(entries: Map<TxnIndex, Entry>, low: int, high: int) -> bool {
    forall|k: TxnIndex| low <= k < high ==> #[trigger] passed_over(entries, k)
}

/// A walk from below `bound` returns the write of version `(idx, incarnation)`
/// only if that write lies below `bound`, in the slot of `idx`.
pub proof fn lemma_version_from(
    entries: Map<TxnIndex, Entry>,
    bound: nat,
    acc: Accumulator,
    version: Version,
    data: Arc<WriteOp>,
)
    requires
        read_from(entries, bound, acc) == Ok::<MVHashMapOutput, MVHashMapError>(
            MVHashMapOutput::Version(version, data),
        ),
    ensures
        version.0 < bound,
        entries.contains_key(version.0),
        entries[version.0].cell_spec() == EntryCell::Write(version.1, data),
        !entries[version.0].is_estimate(),
    decreases bound,
{
    if bound > 0 {
        let idx = (bound - 1) as usize;
        if !entries.contains_key(idx) {
            lemma_version_from(entries, (bound - 1) as nat, acc, version, data);
        } else if !entries[idx].is_estimate() {
            match entries[idx].cell_spec() {
                EntryCell::Write(_, _) => {},
                EntryCell::Delta(delta) => {
                    lemma_version_from(
                        entries,
                        (bound - 1) as nat,
                        crate::history::accumulate(acc, delta),
                        version,
                        data,
                    );
                },
            }
        }
    }
}

/// A read on behalf of the transaction at `txn_idx` that returns a write
/// returns one of a transaction below `txn_idx`: the write that the history
/// holds in that slot, which is no estimate.
pub proof fn lemma_version_is_below_reader(
    entries: Map<TxnIndex, Entry>,
    txn_idx: TxnIndex,
    version: Version,
    data: Arc<WriteOp>,
)
    requires
        read_spec(entries, txn_idx) == Ok::<MVHashMapOutput, MVHashMapError>(
            MVHashMapOutput::Version(version, data),
        ),
    ensures
        version.0 < txn_idx,
        entries.contains_key(version.0),
        entries[version.0].cell_spec() == EntryCell::Write(version.1, data),
        !entries[version.0].is_estimate(),
{
    lemma_version_from(entries, txn_idx as nat, Accumulator::Empty, version, data);
}

/// A walk from below `bound` ends in a dependency on the transaction at
/// `idx` exactly when the slot of `idx` lies below `bound` and holds an
/// estimate, and every slot between it and `bound` is passed over.
pub proof fn lemma_dependency_from(
    entries: Map<TxnIndex, Entry>,
    bound: nat,
    acc: Accumulator,
    idx: TxnIndex,
)
    requires
        bound <= usize::MAX,
    ensures
        read_from(entries, bound, acc) == Err::<MVHashMapOutput, MVHashMapError>(
            MVHashMapError::Dependency(idx),
        ) <==> idx < bound && entries.contains_key(idx) && entries[idx].is_estimate()
            && all_passed_over(entries, idx + 1, bound as int),
    decreases bound,
{
    if bound > 0 {
        let top = (bound - 1) as usize;
        if !entries.contains_key(top) {
            lemma_dependency_from(entries, (bound - 1) as nat, acc, idx);
            assert(passed_over(entries, top));
        } else if entries[top].is_estimate() {
            assert(!passed_over(entries, top));
        } else {
            match entries[top].cell_spec() {
                EntryCell::Write(_, _) => {
                    assert(!passed_over(entries, top));
                },
                EntryCell::Delta(delta) => {
                    lemma_dependency_from(
                        entries,
                        (bound - 1) as nat,
                        crate::history::accumulate(acc, delta),
                        idx,
                    );
                    assert(passed_over(entries, top));
                },
            }
        }
    }
}

/// A read on behalf of the transaction at `txn_idx` reports a dependency on
/// the transaction at `idx` exactly when `idx` lies below `txn_idx`, its slot
/// holds an estimate, and every slot between the two is empty or holds a
/// delta that is no estimate.  The estimate reported is therefore the highest
/// one below the reader; a write that is no estimate and lies above it hides
/// it.
pub proof fn lemma_dependency_iff_first_estimate(
    entries: Map<TxnIndex, Entry>,
    txn_idx: TxnIndex,
    idx: TxnIndex,
)
    ensures
        read_spec(entries, txn_idx) == Err::<MVHashMapOutput, MVHashMapError>(
            MVHashMapError::Dependency(idx),
        ) <==> idx < txn_idx && entries.contains_key(idx) && entries[idx].is_estimate()
            && all_passed_over(entries, idx + 1, txn_idx as int),
{
    lemma_dependency_from(entries, txn_idx as nat, Accumulator::Empty, idx);
}

/// A read that reports a dependency reports the highest estimate below the
/// reader.
pub proof fn lemma_dependency_is_highest_estimate(
    entries: Map<TxnIndex, Entry>,
    txn_idx: TxnIndex,
    idx: TxnIndex,
)
    requires
        read_spec(entries, txn_idx) == Err::<MVHashMapOutput, MVHashMapError>(
            MVHashMapError::Dependency(idx),
        ),
    ensures
        idx < txn_idx,
        entries.contains_key(idx) && entries[idx].is_estimate(),
        forall|k: TxnIndex|
            idx < k < txn_idx && entries.contains_key(k) ==> !(#[trigger] entries[k]).is_estimate(),
{
    lemma_dependency_iff_first_estimate(entries, txn_idx, idx);
    assert forall|k: TxnIndex| idx < k < txn_idx && entries.contains_key(k) implies !(
    #[trigger] entries[k]).is_estimate() by {
        assert(passed_over(entries, k));
    }
}

/// A walk from below `bound` finds nothing exactly when it has gathered no
/// delta on the way and no slot below `bound` holds an entry.
pub proof fn lemma_not_found_from(entries: Map<TxnIndex, Entry>, bound: nat, acc: Accumulator)
    requires
        bound <= usize::MAX,
    ensures
        read_from(entries, bound, acc) == Err::<MVHashMapOutput, MVHashMapError>(
            MVHashMapError::NotFound,
        ) <==> acc is Empty && forall|k: TxnIndex| k < bound ==> !entries.contains_key(k),
    decreases bound,
{
    if bound > 0 {
        let top = (bound - 1) as usize;
        if !entries.contains_key(top) {
            lemma_not_found_from(entries, (bound - 1) as nat, acc);
        } else if !entries[top].is_estimate() {
            match entries[top].cell_spec() {
                EntryCell::Write(_, _) => {},
                EntryCell::Delta(delta) => {
                    lemma_not_found_from(
                        entries,
                        (bound - 1) as nat,
                        crate::history::accumulate(acc, delta),
                    );
                },
            }
        }
    }
}

/// A read finds nothing exactly when no transaction below the reader has an
/// entry in the history.
pub proof fn lemma_not_found_iff_nothing_below(entries: Map<TxnIndex, Entry>, txn_idx: TxnIndex)
    ensures
        read_spec(entries, txn_idx) == Err::<MVHashMapOutput, MVHashMapError>(
            MVHashMapError::NotFound,
        ) <==> forall|k: TxnIndex| k < txn_idx ==> !entries.contains_key(k),
{
    lemma_not_found_from(entries, txn_idx as nat, Accumulator::Empty);
}

/// A walk from below `bound` that ends unresolved has met deltas only: every
/// slot below `bound` is passed over.
pub proof fn lemma_unresolved_from(
    entries: Map<TxnIndex, Entry>,
    bound: nat,
    acc: Accumulator,
    delta: crate::delta::DeltaOp,
)
    requires
        bound <= usize::MAX,
        read_from(entries, bound, acc) == Err::<MVHashMapOutput, MVHashMapError>(
            MVHashMapError::Unresolved(delta),
        ),
    ensures
        all_passed_over(entries, 0, bound as int),
        acc is Empty ==> exists|k: TxnIndex| k < bound && entries.contains_key(k),
    decreases bound,
{
    if bound > 0 {
        let top = (bound - 1) as usize;
        if !entries.contains_key(top) {
            lemma_unresolved_from(entries, (bound - 1) as nat, acc, delta);
            assert(passed_over(entries, top));
        } else if !entries[top].is_estimate() {
            match entries[top].cell_spec() {
                EntryCell::Write(_, _) => {},
                EntryCell::Delta(below) => {
                    lemma_unresolved_from(
                        entries,
                        (bound - 1) as nat,
                        crate::history::accumulate(acc, below),
                        delta,
                    );
                    assert(passed_over(entries, top));
                },
            }
        }
    }
}

/// A read ends unresolved only where deltas, and nothing but deltas that are
/// no estimates, lie below the reader: there is no base write to apply them
/// to.
pub proof fn lemma_unresolved_means_deltas_only(
    entries: Map<TxnIndex, Entry>,
    txn_idx: TxnIndex,
    delta: crate::delta::DeltaOp,
)
    requires
        read_spec(entries, txn_idx) == Err::<MVHashMapOutput, MVHashMapError>(
            MVHashMapError::Unresolved(delta),
        ),
    ensures
        all_passed_over(entries, 0, txn_idx as int),
        exists|k: TxnIndex| k < txn_idx && entries.contains_key(k),
{
    lemma_unresolved_from(entries, txn_idx as nat, Accumulator::Empty, delta);
}

/// A read just above a write returns that write: after the write `data` of
/// `version` has been added at `key`, the transaction that follows the writer
/// reads `version` and `data` there.
pub proof fn lemma_read_after_write(
    map: MVHashMapView,
    key: Seq<char>,
    version: Version,
    data: WriteOp,
)
    requires
        version.0 < usize::MAX,
    ensures
        map.add_write(key, version, data).read(key, (version.0 + 1) as usize) == Ok::<
            MVHashMapOutput,
            MVHashMapError,
        >(MVHashMapOutput::Version(version, Arc::new(data))),
{
    let after = map.add_write(key, version, data);
    lemma_entry_of(FLAG_DONE, EntryCell::Write(version.1, Arc::new(data)));
    assert(after.data.contains_key(key));
    assert(after.data[key].entries.contains_key(version.0));
    assert(after.data[key].entries[version.0] == written(version.1, data));
}

/// A read at or below a write does not see it: a transaction at or below the
/// writer reads at `key` what it read before the write was added.
pub proof fn lemma_write_is_invisible_below(
    map: MVHashMapView,
    key: Seq<char>,
    version: Version,
    data: WriteOp,
    txn_idx: TxnIndex,
)
    requires
        txn_idx <= version.0,
    ensures
        map.add_write(key, version, data).read(key, txn_idx) == map.read(key, txn_idx),
{
    let before = map.history(key).entries;
    let after = map.add_write(key, version, data);
    assert forall|k: TxnIndex| k < txn_idx implies #[trigger] same_slot(
        before,
        after.data[key].entries,
        k,
    ) by {}
    lemma_same_below(
        before,
        after.data[key].entries,
        txn_idx as nat,
        Accumulator::Empty,
    );
    if !map.data.contains_key(key) {
        lemma_empty_slots_are_skipped(before, 0, txn_idx as nat, Accumulator::Empty);
    }
}

/// Once its history has been taken out, a key reads as one that was never
/// written.
pub proof fn lemma_nothing_is_read_after_take(map: MVHashMapView, key: Seq<char>, txn_idx: TxnIndex)
    ensures
        map.without_key(key).read(key, txn_idx) == Err::<MVHashMapOutput, MVHashMapError>(
            MVHashMapError::NotFound,
        ),
{
}

/// Marking an entry as an estimate changes its flag and nothing else: the
/// cell of the entry, and every other entry of every key, stay as they were.
pub proof fn lemma_estimate_keeps_cells(
    map: MVHashMapView,
    key: Seq<char>,
    txn_idx: TxnIndex,
    other_key: Seq<char>,
    other_idx: TxnIndex,
)
    requires
        map.has_entry(key, txn_idx),
        map.has_entry(other_key, other_idx),
    ensures
        map.mark_estimate(key, txn_idx).has_entry(other_key, other_idx),
        map.mark_estimate(key, txn_idx).data[other_key].entries[other_idx].cell_spec()
            == map.data[other_key].entries[other_idx].cell_spec(),
        map.mark_estimate(key, txn_idx).data[key].entries[txn_idx].is_estimate(),
        other_key != key || other_idx != txn_idx ==> map.mark_estimate(
            key,
            txn_idx,
        ).data[other_key].entries[other_idx] == map.data[other_key].entries[other_idx],
{
    lemma_entry_of(FLAG_ESTIMATE, map.data[key].entries[txn_idx].cell_spec());
}

/// The transaction that follows an estimate depends on it: after the entry of
/// the transaction at `txn_idx` has been marked, every reader above it whose
/// walk reaches it is told to wait for it.
pub proof fn lemma_read_after_estimate(map: MVHashMapView, key: Seq<char>, txn_idx: TxnIndex)
    requires
        map.has_entry(key, txn_idx),
        txn_idx < usize::MAX,
    ensures
        map.mark_estimate(key, txn_idx).read(key, (txn_idx + 1) as usize) == Err::<
            MVHashMapOutput,
            MVHashMapError,
        >(MVHashMapError::Dependency(txn_idx)),
{
    let after = map.mark_estimate(key, txn_idx);
    lemma_entry_of(FLAG_ESTIMATE, map.data[key].entries[txn_idx].cell_spec());
    assert(after.data[key].entries.contains_key(txn_idx));
    assert(after.data[key].entries[txn_idx].is_estimate());
}

/// Whether two histories have the same in the slot of the transaction at
/// `idx`: both nothing, or both the same entry.
pub open spec fn same_slot(
    first: Map<TxnIndex, Entry>,
    second: Map<TxnIndex, Entry>,
    idx: TxnIndex,
) -> bool {
    first.contains_key(idx) == second.contains_key(idx) && (first.contains_key(idx) ==> first[idx]
        == second[idx])
}

/// Two histories that agree below `bound` are walked alike from there.
pub proof fn lemma_same_below(
    first: Map<TxnIndex, Entry>,
    second: Map<TxnIndex, Entry>,
    bound: nat,
    acc: Accumulator,
)
    requires
        bound <= usize::MAX,
        forall|k: TxnIndex| k < bound ==> #[trigger] same_slot(first, second, k),
    ensures
        read_from(first, bound, acc) == read_from(second, bound, acc),
    decreases bound,
{
    if bound > 0 {
        let top = (bound - 1) as usize;
        assert(same_slot(first, second, top));
        if first.contains_key(top) {
            match first[top].cell_spec() {
                EntryCell::Write(_, _) => {},
                EntryCell::Delta(delta) => {
                    lemma_same_below(
                        first,
                        second,
                        (bound - 1) as nat,
                        crate::history::accumulate(acc, delta),
                    );
                },
            }
        } else {
            lemma_same_below(first, second, (bound - 1) as nat, acc);
        }
    }
}

} // verus!

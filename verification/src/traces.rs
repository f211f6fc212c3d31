//! What holds after a whole sequence of operations on the map.

use crate::delta::DeltaOp;
use crate::entry::{lemma_entry_of, EntryCell, Incarnation, TxnIndex, Version, FLAG_DONE};
use crate::history::written;
use crate::laws::lemma_read_after_write;
use crate::mvmap::MVHashMapView;
use crate::outcome::{MVHashMapError, MVHashMapOutput};
use crate::write::WriteOp;
use std::sync::Arc;
use vstd::prelude::*;

verus! {

/// The map after the transaction at `idx` has added the writes `writes` at
/// `key`, one after the other.
pub open spec fn after_writes(
    map: MVHashMapView,
    key: Seq<char>,
    idx: TxnIndex,
    writes: Seq<(Incarnation, WriteOp)>,
) -> MVHashMapView
    decreases writes.len(),
{
    if writes.len() == 0 {
        map
    } else {
        after_writes(map, key, idx, writes.drop_last()).add_write(
            key,
            (idx, writes.last().0),
            writes.last().1,
        )
    }
}

/// Whether each write is of a higher incarnation than those before it.
pub open spec fn incarnations_increase(writes: Seq<(Incarnation, WriteOp)>) -> bool {
    forall|a: int, b: int| 0 <= a < b < writes.len() ==> writes[a].0 < writes[b].0
}

/// After a transaction has written at a key once or more, each time with a
/// higher incarnation, the transaction that follows it reads the write of the
/// highest incarnation, which is the last one.
pub proof fn lemma_highest_incarnation_is_read(
    map: MVHashMapView,
    key: Seq<char>,
    idx: TxnIndex,
    writes: Seq<(Incarnation, WriteOp)>,
)
    requires
        idx < usize::MAX,
        writes.len() > 0,
        incarnations_increase(writes),
    ensures
        after_writes(map, key, idx, writes).read(key, (idx + 1) as usize) == Ok::<
            MVHashMapOutput,
            MVHashMapError,
        >(MVHashMapOutput::Version((idx, writes.last().0), Arc::new(writes.last().1))),
        forall|a: int| 0 <= a < writes.len() ==> writes[a].0 <= writes.last().0,
{
    lemma_read_after_write(
        after_writes(map, key, idx, writes.drop_last()),
        key,
        (idx, writes.last().0),
        writes.last().1,
    );
}

/// Writes of increasing incarnation may follow one another: where the map
/// accepts the first of them, it accepts each of the others after those
/// before it.
pub proof fn lemma_increasing_writes_are_accepted(
    map: MVHashMapView,
    key: Seq<char>,
    idx: TxnIndex,
    writes: Seq<(Incarnation, WriteOp)>,
    next: Incarnation,
)
    requires
        incarnations_increase(writes),
        writes.len() == 0 ==> map.accepts_write(key, (idx, next)),
        writes.len() > 0 ==> writes.last().0 < next,
    ensures
        after_writes(map, key, idx, writes).accepts_write(key, (idx, next)),
{
    if writes.len() > 0 {
        let before = after_writes(map, key, idx, writes.drop_last());
        let after = before.add_write(key, (idx, writes.last().0), writes.last().1);
        lemma_entry_of(FLAG_DONE, EntryCell::Write(writes.last().0, Arc::new(writes.last().1)));
        assert(after.data.contains_key(key));
        assert(after.data[key].entries[idx] == written(writes.last().0, writes.last().1));
    }
}

/// One operation that changes the map without taking anything out of it.
pub enum Operation {
    /// A write of a version at a key.
    Write(Seq<char>, Version, WriteOp),
    /// A delta of a transaction at a key.
    Delta(Seq<char>, TxnIndex, DeltaOp),
    /// The entry of a transaction at a key becomes an estimate.
    Estimate(Seq<char>, TxnIndex),
    /// The entry of a transaction at a key is removed.
    Delete(Seq<char>, TxnIndex),
}

/// Whether the map is in a state in which the operation may be made.
pub open spec fn permitted(map: MVHashMapView, operation: Operation) -> bool {
    match operation {
        Operation::Write(key, version, _) => map.accepts_write(key, version),
        Operation::Delta(_, _, _) => true,
        Operation::Estimate(key, idx) => map.has_entry(key, idx),
        Operation::Delete(key, _) => map.data.contains_key(key),
    }
}

/// The map after the operation.
pub open spec fn apply(map: MVHashMapView, operation: Operation) -> MVHashMapView {
    match operation {
        Operation::Write(key, version, data) => map.add_write(key, version, data),
        Operation::Delta(key, idx, delta) => map.add_delta(key, idx, delta),
        Operation::Estimate(key, idx) => map.mark_estimate(key, idx),
        Operation::Delete(key, idx) => map.delete(key, idx),
    }
}

/// The map after the operations, made in order on a new map.
pub open spec fn run(operations: Seq<Operation>) -> MVHashMapView
    decreases operations.len(),
{
    if operations.len() == 0 {
        MVHashMapView::empty()
    } else {
        apply(run(operations.drop_last()), operations.last())
    }
}

/// Whether each operation may be made when its turn comes.
pub open spec fn all_permitted(operations: Seq<Operation>) -> bool
    decreases operations.len(),
{
    operations.len() == 0 || (all_permitted(operations.drop_last()) && permitted(
        run(operations.drop_last()),
        operations.last(),
    ))
}

/// The keys at which the operations add a delta, each once, in the order in
/// which the first delta at each key is added.
pub open spec fn keys_given_a_delta(operations: Seq<Operation>) -> Seq<Seq<char>>
    decreases operations.len(),
{
    if operations.len() == 0 {
        Seq::empty()
    } else {
        let before = keys_given_a_delta(operations.drop_last());
        match operations.last() {
            Operation::Delta(key, _, _) => if before.contains(key) {
                before
            } else {
                before.push(key)
            },
            _ => before,
        }
    }
}

/// Whether the operation at position `at` adds a delta at `key`.
pub open spec fn adds_delta_at(operations: Seq<Operation>, at: int, key: Seq<char>) -> bool {
    &&& 0 <= at < operations.len()
    &&& operations[at] matches Operation::Delta(k, _, _)
    &&& k == key
}

/// Whether the list of delta keys holds no key twice and holds exactly the
/// keys whose history has seen a delta.
pub open spec fn tracks_deltas(map: MVHashMapView) -> bool {
    &&& map.delta_keys.no_duplicates()
    &&& forall|key: Seq<char>| #[trigger]
        map.delta_keys.contains(key) <==> map.data.contains_key(key) && map.data[key].contains_delta
}

/// A new map tracks its deltas.
pub proof fn lemma_new_map_tracks_deltas()
    ensures
        tracks_deltas(MVHashMapView::empty()),
{
}

/// An operation that may be made on a map that tracks its deltas leaves a map
/// that tracks them.
pub proof fn lemma_operation_keeps_track(map: MVHashMapView, operation: Operation)
    requires
        tracks_deltas(map),
        permitted(map, operation),
    ensures
        tracks_deltas(apply(map, operation)),
{
    let after = apply(map, operation);
    match operation {
        Operation::Delta(key, _, _) => {
            if !map.history(key).contains_delta {
                assert(!map.delta_keys.contains(key));
                lemma_push_new(map.delta_keys, key);
                assert forall|other: Seq<char>| #[trigger]
                    after.delta_keys.contains(other) <==> after.data.contains_key(other)
                        && after.data[other].contains_delta by {
                    lemma_push_contains(map.delta_keys, key, other);
                }
            }
        },
        _ => {},
    }
}

/// A list without `key` stays free of duplicates when `key` is appended.
pub proof fn lemma_push_new(keys: Seq<Seq<char>>, key: Seq<char>)
    requires
        keys.no_duplicates(),
        !keys.contains(key),
    ensures
        keys.push(key).no_duplicates(),
{
    let longer = keys.push(key);
    assert forall|a: int, b: int| 0 <= a < longer.len() && 0 <= b < longer.len() && a
        != b implies longer[a] != longer[b] by {
        if a < keys.len() {
            assert(keys.contains(keys[a]));
        }
        if b < keys.len() {
            assert(keys.contains(keys[b]));
        }
    }
}

/// What a list holds after `key` has been appended.
pub proof fn lemma_push_contains(keys: Seq<Seq<char>>, key: Seq<char>, other: Seq<char>)
    ensures
        keys.push(key).contains(other) <==> keys.contains(other) || other == key,
{
    let longer = keys.push(key);
    if keys.contains(other) {
        let at = choose|at: int| 0 <= at < keys.len() && keys[at] == other;
        assert(longer[at] == other);
    }
    if other == key {
        assert(longer[keys.len() as int] == other);
    }
    if longer.contains(other) {
        let at = choose|at: int| 0 <= at < longer.len() && longer[at] == other;
        if at < keys.len() {
            assert(keys[at] == other);
        }
    }
}

/// After any sequence of writes, deltas, estimates and deletes on a new map,
/// each made when the map permits it, the list of delta keys holds exactly
/// the keys at which a delta was added, each once, in the order in which the
/// first delta at each key was added.
pub proof fn lemma_delta_keys_after_run(operations: Seq<Operation>)
    requires
        all_permitted(operations),
    ensures
        run(operations).delta_keys == keys_given_a_delta(operations),
        run(operations).delta_keys.no_duplicates(),
        tracks_deltas(run(operations)),
        forall|key: Seq<char>| #[trigger]
            run(operations).delta_keys.contains(key) <==> exists|at: int|
                adds_delta_at(operations, at, key),
    decreases operations.len(),
{
    if operations.len() == 0 {
        lemma_new_map_tracks_deltas();
    } else {
        let earlier = operations.drop_last();
        let before = run(earlier);
        let last = operations.last();
        lemma_delta_keys_after_run(earlier);
        lemma_operation_keeps_track(before, last);
        let after = run(operations);
        assert(after.delta_keys == keys_given_a_delta(operations));
        assert forall|key: Seq<char>| #[trigger]
            after.delta_keys.contains(key) <==> exists|at: int|
                adds_delta_at(operations, at, key) by {
            if let Operation::Delta(k, _, _) = last {
                lemma_push_contains(before.delta_keys, k, key);
            }
            if before.delta_keys.contains(key) {
                let at = choose|at: int| adds_delta_at(earlier, at, key);
                assert(adds_delta_at(operations, at, key));
            }
            if let Operation::Delta(k, _, _) = last {
                if k == key {
                    assert(adds_delta_at(operations, operations.len() - 1, key));
                }
            }
            if exists|at: int| adds_delta_at(operations, at, key) {
                let at = choose|at: int| adds_delta_at(operations, at, key);
                if at < earlier.len() {
                    assert(adds_delta_at(earlier, at, key));
                }
            }
        }
    }
}

} // verus!

use mvhashmap::{
    delta_add, delta_sub, DeltaOp, DeltaUpdate, MVHashMap, MVHashMapError, MVHashMapOutput,
    WriteOp,
};
use std::sync::Arc;

fn key(name: &str) -> String {
    name.to_string()
}

fn number(value: u128) -> WriteOp {
    WriteOp::Value(value.to_le_bytes().to_vec())
}

fn bytes(content: &[u8]) -> WriteOp {
    WriteOp::Value(content.to_vec())
}

fn version_of(
    result: Result<MVHashMapOutput, MVHashMapError>,
) -> ((usize, usize), Arc<WriteOp>) {
    match result {
        Ok(MVHashMapOutput::Version(version, data)) => (version, data),
        other => panic!("expected a version, got {:?}", other),
    }
}

#[test]
fn basic_write_then_read() {
    let mut map = MVHashMap::new();
    map.add_write(&key("x"), (3, 0), bytes(b"first"));
    let (version, data) = version_of(map.read(&key("x"), 5));
    assert_eq!(version, (3, 0));
    assert_eq!(*data, bytes(b"first"));
    assert_eq!(map.read(&key("x"), 3), Err(MVHashMapError::NotFound));
    assert_eq!(map.read(&key("x"), 2), Err(MVHashMapError::NotFound));
}

#[test]
fn read_of_unknown_key_finds_nothing() {
    let mut map = MVHashMap::new();
    map.add_write(&key("x"), (3, 0), bytes(b"first"));
    assert_eq!(map.read(&key("y"), 5), Err(MVHashMapError::NotFound));
    assert_eq!(MVHashMap::default().read(&key("x"), 5), Err(MVHashMapError::NotFound));
}

#[test]
fn higher_incarnation_overrides() {
    let mut map = MVHashMap::new();
    map.add_write(&key("x"), (3, 0), bytes(b"first"));
    map.add_write(&key("x"), (3, 1), bytes(b"second"));
    let (version, data) = version_of(map.read(&key("x"), 4));
    assert_eq!(version, (3, 1));
    assert_eq!(*data, bytes(b"second"));
}

#[test]
fn increasing_incarnations_leave_the_highest() {
    let mut map = MVHashMap::new();
    for incarnation in [0usize, 2, 5, 9] {
        map.add_write(&key("x"), (7, incarnation), number(incarnation as u128));
    }
    let (version, data) = version_of(map.read(&key("x"), 8));
    assert_eq!(version, (7, 9));
    assert_eq!(*data, number(9));
}

#[test]
fn estimate_is_a_dependency() {
    let mut map = MVHashMap::new();
    map.add_write(&key("x"), (3, 0), bytes(b"first"));
    map.mark_estimate(&key("x"), 3);
    assert_eq!(map.read(&key("x"), 5), Err(MVHashMapError::Dependency(3)));
    assert_eq!(map.read(&key("x"), 4), Err(MVHashMapError::Dependency(3)));
    assert_eq!(map.read(&key("x"), 3), Err(MVHashMapError::NotFound));
}

#[test]
fn rewrite_clears_the_estimate() {
    let mut map = MVHashMap::new();
    map.add_write(&key("x"), (3, 0), bytes(b"first"));
    map.mark_estimate(&key("x"), 3);
    map.add_write(&key("x"), (3, 1), bytes(b"second"));
    let (version, data) = version_of(map.read(&key("x"), 5));
    assert_eq!(version, (3, 1));
    assert_eq!(*data, bytes(b"second"));
}

#[test]
fn highest_estimate_is_reported() {
    let mut map = MVHashMap::new();
    map.add_write(&key("x"), (1, 0), bytes(b"a"));
    map.add_write(&key("x"), (4, 0), bytes(b"b"));
    map.add_write(&key("x"), (6, 0), bytes(b"c"));
    map.mark_estimate(&key("x"), 1);
    map.mark_estimate(&key("x"), 4);
    assert_eq!(map.read(&key("x"), 6), Err(MVHashMapError::Dependency(4)));
    assert_eq!(map.read(&key("x"), 4), Err(MVHashMapError::Dependency(1)));
    let (version, _) = version_of(map.read(&key("x"), 9));
    assert_eq!(version, (6, 0));
}

#[test]
fn estimate_below_deltas_is_reported() {
    let mut map = MVHashMap::new();
    map.add_write(&key("a"), (2, 0), number(100));
    map.add_delta(&key("a"), 4, delta_add(5, 1000));
    map.mark_estimate(&key("a"), 2);
    assert_eq!(map.read(&key("a"), 6), Err(MVHashMapError::Dependency(2)));
    map.mark_estimate(&key("a"), 4);
    assert_eq!(map.read(&key("a"), 6), Err(MVHashMapError::Dependency(4)));
}

#[test]
fn deltas_are_resolved_by_the_base() {
    let mut map = MVHashMap::new();
    map.add_write(&key("a"), (2, 0), number(100));
    map.add_delta(&key("a"), 4, delta_add(5, 1000));
    map.add_delta(&key("a"), 6, delta_add(3, 1000));
    assert_eq!(map.read(&key("a"), 8), Ok(MVHashMapOutput::Resolved(108)));
    assert_eq!(map.read(&key("a"), 6), Ok(MVHashMapOutput::Resolved(105)));
    let (version, data) = version_of(map.read(&key("a"), 4));
    assert_eq!(version, (2, 0));
    assert_eq!(*data, number(100));
}

#[test]
fn mixed_deltas_are_resolved_by_the_base() {
    let mut map = MVHashMap::new();
    map.add_write(&key("a"), (0, 0), number(10));
    map.add_delta(&key("a"), 1, delta_add(5, 20));
    map.add_delta(&key("a"), 2, delta_sub(12, 20));
    map.add_delta(&key("a"), 3, delta_add(4, 20));
    assert_eq!(map.read(&key("a"), 4), Ok(MVHashMapOutput::Resolved(7)));
}

#[test]
fn deletion_overrides_delta_failure() {
    let mut map = MVHashMap::new();
    map.add_write(&key("a"), (2, 0), WriteOp::Deletion);
    map.add_delta(&key("a"), 4, delta_add(5, 10));
    map.add_delta(&key("a"), 6, delta_add(8, 10));
    let (version, data) = version_of(map.read(&key("a"), 8));
    assert_eq!(version, (2, 0));
    assert_eq!(*data, WriteOp::Deletion);
}

#[test]
fn deletion_below_deltas_is_returned() {
    let mut map = MVHashMap::new();
    map.add_write(&key("a"), (2, 3), WriteOp::Deletion);
    map.add_delta(&key("a"), 4, delta_add(5, 10));
    let (version, data) = version_of(map.read(&key("a"), 8));
    assert_eq!(version, (2, 3));
    assert!(data.is_deletion());
}

#[test]
fn failed_merge_above_a_base_fails_the_read() {
    let mut map = MVHashMap::new();
    map.add_write(&key("a"), (2, 0), number(1));
    map.add_delta(&key("a"), 4, delta_add(5, 10));
    map.add_delta(&key("a"), 6, delta_add(8, 10));
    assert_eq!(map.read(&key("a"), 8), Err(MVHashMapError::DeltaApplicationFailure));
    assert_eq!(map.read(&key("a"), 6), Ok(MVHashMapOutput::Resolved(6)));
}

#[test]
fn failed_application_fails_the_read() {
    let mut map = MVHashMap::new();
    map.add_write(&key("a"), (2, 0), number(8));
    map.add_delta(&key("a"), 4, delta_add(5, 10));
    assert_eq!(map.read(&key("a"), 8), Err(MVHashMapError::DeltaApplicationFailure));
}

#[test]
fn failed_merge_without_a_base_fails_the_read() {
    let mut map = MVHashMap::new();
    map.add_delta(&key("a"), 4, delta_add(5, 10));
    map.add_delta(&key("a"), 6, delta_add(8, 10));
    assert_eq!(map.read(&key("a"), 8), Err(MVHashMapError::DeltaApplicationFailure));
}

#[test]
fn failed_merge_stays_failed_over_later_deltas() {
    let mut map = MVHashMap::new();
    map.add_write(&key("a"), (0, 0), number(1));
    map.add_delta(&key("a"), 1, delta_sub(9, 10));
    map.add_delta(&key("a"), 4, delta_add(5, 10));
    map.add_delta(&key("a"), 6, delta_add(8, 10));
    assert_eq!(map.read(&key("a"), 8), Err(MVHashMapError::DeltaApplicationFailure));
}

#[test]
fn deltas_alone_are_unresolved() {
    let mut map = MVHashMap::new();
    map.add_delta(&key("a"), 4, delta_add(5, 1000));
    assert_eq!(map.read(&key("a"), 6), Err(MVHashMapError::Unresolved(delta_add(5, 1000))));
    assert_eq!(map.read(&key("a"), 4), Err(MVHashMapError::NotFound));
    map.add_delta(&key("a"), 5, delta_add(3, 1000));
    assert_eq!(
        map.read(&key("a"), 6),
        Err(MVHashMapError::Unresolved(DeltaOp::new(DeltaUpdate::Plus(8), 1000, 8, 0)))
    );
}

#[test]
fn write_replaces_own_delta() {
    let mut map = MVHashMap::new();
    map.add_delta(&key("a"), 4, delta_add(5, 1000));
    map.add_write(&key("a"), (4, 1), number(30));
    let (version, data) = version_of(map.read(&key("a"), 6));
    assert_eq!(version, (4, 1));
    assert_eq!(data.to_numeric_base(), Some(30));
}

#[test]
fn value_of_other_width_is_returned_as_written() {
    let mut map = MVHashMap::new();
    map.add_write(&key("a"), (2, 0), bytes(b"short"));
    map.add_delta(&key("a"), 4, delta_add(5, 1000));
    let (version, data) = version_of(map.read(&key("a"), 8));
    assert_eq!(version, (2, 0));
    assert_eq!(*data, bytes(b"short"));
}

#[test]
fn read_shares_the_written_payload() {
    let mut map = MVHashMap::new();
    map.add_write(&key("x"), (3, 0), bytes(b"a large payload"));
    let (_, first) = version_of(map.read(&key("x"), 4));
    let (_, second) = version_of(map.read(&key("x"), 9));
    assert!(Arc::ptr_eq(&first, &second));
    assert_eq!(*first, bytes(b"a large payload"));
}

#[test]
fn read_is_never_at_or_above_the_reader() {
    let mut map = MVHashMap::new();
    for idx in [0usize, 3, 4, 9] {
        map.add_write(&key("x"), (idx, 0), number(idx as u128));
    }
    for reader in 0usize..12 {
        match map.read(&key("x"), reader) {
            Ok(MVHashMapOutput::Version((idx, _), data)) => {
                assert!(idx < reader);
                assert_eq!(*data, number(idx as u128));
            },
            Err(MVHashMapError::NotFound) => assert_eq!(reader, 0),
            other => panic!("unexpected {:?}", other),
        }
    }
}

#[test]
fn delete_removes_one_entry() {
    let mut map = MVHashMap::new();
    map.add_write(&key("x"), (1, 0), bytes(b"a"));
    map.add_write(&key("x"), (3, 0), bytes(b"b"));
    map.delete(&key("x"), 3);
    let (version, _) = version_of(map.read(&key("x"), 5));
    assert_eq!(version, (1, 0));
    map.delete(&key("x"), 7);
    map.delete(&key("x"), 1);
    assert_eq!(map.read(&key("x"), 5), Err(MVHashMapError::NotFound));
}

#[test]
fn keys_are_kept_apart() {
    let mut map = MVHashMap::new();
    map.add_write(&key("x"), (1, 0), bytes(b"a"));
    map.add_write(&key("y"), (2, 0), bytes(b"b"));
    map.mark_estimate(&key("y"), 2);
    let (version, _) = version_of(map.read(&key("x"), 5));
    assert_eq!(version, (1, 0));
    assert_eq!(map.read(&key("y"), 5), Err(MVHashMapError::Dependency(2)));
}

#[test]
fn aggregator_keys_come_once_in_first_insertion_order() {
    let mut map = MVHashMap::new();
    map.add_delta(&key("b"), 1, delta_add(1, 10));
    map.add_write(&key("w"), (1, 0), number(1));
    map.add_delta(&key("a"), 2, delta_add(1, 10));
    map.add_delta(&key("b"), 3, delta_sub(1, 10));
    map.add_delta(&key("c"), 3, delta_add(1, 10));
    map.mark_estimate(&key("a"), 2);
    map.delete(&key("b"), 1);
    map.add_delta(&key("a"), 5, delta_add(1, 10));
    assert_eq!(map.aggregator_keys(), vec![key("b"), key("a"), key("c")]);
    assert_eq!(map.aggregator_keys(), Vec::<String>::new());
    map.add_delta(&key("a"), 6, delta_add(1, 10));
    map.add_delta(&key("d"), 6, delta_add(1, 10));
    assert_eq!(map.aggregator_keys(), vec![key("d")]);
}

#[test]
fn aggregator_keys_of_a_new_map_are_none() {
    let mut map = MVHashMap::new();
    map.add_write(&key("w"), (1, 0), number(1));
    assert!(map.aggregator_keys().is_empty());
}

#[test]
fn entry_map_is_taken_out() {
    let mut map = MVHashMap::new();
    map.add_write(&key("x"), (1, 0), bytes(b"a"));
    map.add_delta(&key("x"), 3, delta_add(2, 10));
    map.add_write(&key("y"), (2, 0), bytes(b"b"));
    assert!(map.entry_map_for_key(&key("z")).is_none());
    let entries = map.entry_map_for_key(&key("x")).expect("the key was written");
    assert_eq!(entries.keys().copied().collect::<Vec<usize>>(), vec![1, 3]);
    assert_eq!(entries[&1].flag(), 0);
    assert!(matches!(&entries[&1].cell, mvhashmap::EntryCell::Write(0, data) if **data == bytes(b"a")));
    assert!(matches!(&entries[&3].cell, mvhashmap::EntryCell::Delta(delta) if *delta == delta_add(2, 10)));
    assert_eq!(map.read(&key("x"), 5), Err(MVHashMapError::NotFound));
    assert!(map.entry_map_for_key(&key("x")).is_none());
    let (version, _) = version_of(map.read(&key("y"), 5));
    assert_eq!(version, (2, 0));
}

#[test]
fn try_add_write_refuses_a_stale_incarnation() {
    let mut map = MVHashMap::new();
    assert!(map.try_add_write(&key("x"), (3, 2), bytes(b"kept")));
    assert!(!map.try_add_write(&key("x"), (3, 2), bytes(b"same")));
    assert!(!map.try_add_write(&key("x"), (3, 1), bytes(b"lower")));
    let (version, data) = version_of(map.read(&key("x"), 4));
    assert_eq!(version, (3, 2));
    assert_eq!(*data, bytes(b"kept"));
    assert!(map.try_add_write(&key("x"), (3, 3), bytes(b"higher")));
    assert!(map.try_add_write(&key("x"), (2, 0), bytes(b"other slot")));
    let (version, data) = version_of(map.read(&key("x"), 4));
    assert_eq!(version, (3, 3));
    assert_eq!(*data, bytes(b"higher"));
}

#[test]
fn try_add_write_replaces_a_delta() {
    let mut map = MVHashMap::new();
    map.add_delta(&key("a"), 4, delta_add(5, 1000));
    assert!(map.try_add_write(&key("a"), (4, 0), number(1)));
    assert_eq!(map.read(&key("a"), 5), Ok(MVHashMapOutput::Version((4, 0), Arc::new(number(1)))));
}

#[test]
fn try_mark_estimate_needs_the_entry() {
    let mut map = MVHashMap::new();
    assert!(!map.try_mark_estimate(&key("x"), 3));
    map.add_write(&key("x"), (3, 0), bytes(b"a"));
    assert!(!map.try_mark_estimate(&key("x"), 2));
    assert!(!map.try_mark_estimate(&key("y"), 3));
    let (version, _) = version_of(map.read(&key("x"), 4));
    assert_eq!(version, (3, 0));
    assert!(map.try_mark_estimate(&key("x"), 3));
    assert_eq!(map.read(&key("x"), 4), Err(MVHashMapError::Dependency(3)));
}

#[test]
fn try_delete_needs_the_key() {
    let mut map = MVHashMap::new();
    assert!(!map.try_delete(&key("x"), 3));
    assert!(map.entry_map_for_key(&key("x")).is_none());
    map.add_write(&key("x"), (3, 0), bytes(b"a"));
    assert!(map.try_delete(&key("x"), 9));
    let (version, _) = version_of(map.read(&key("x"), 4));
    assert_eq!(version, (3, 0));
    assert!(map.try_delete(&key("x"), 3));
    assert_eq!(map.read(&key("x"), 4), Err(MVHashMapError::NotFound));
}

#[test]
fn key_taken_out_is_listed_again_by_a_later_delta() {
    let mut map = MVHashMap::new();
    map.add_delta(&key("a"), 1, delta_add(1, 10));
    assert!(map.entry_map_for_key(&key("a")).is_some());
    map.add_delta(&key("a"), 2, delta_add(1, 10));
    assert_eq!(map.aggregator_keys(), vec![key("a"), key("a")]);
}

#[test]
fn read_at_the_highest_index_is_prompt() {
    let mut map = MVHashMap::new();
    map.add_write(&key("x"), (0, 0), bytes(b"low"));
    map.add_write(&key("x"), (usize::MAX - 1, 0), bytes(b"high"));
    let (version, _) = version_of(map.read(&key("x"), usize::MAX));
    assert_eq!(version, (usize::MAX - 1, 0));
    let (version, _) = version_of(map.read(&key("x"), usize::MAX - 1));
    assert_eq!(version, (0, 0));
}

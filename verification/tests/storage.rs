use jopemachine_raft::GetEntriesContext;
use protobuf::Message;
use raftify::error::Error;
use raftify::log_store::{
    check_entries_low, entries_key_range, entry_type_to_str, first_index_of, last_index_after,
    limit_entries, new_snapshot, plan_append, snapshot_hard_state, term_of, AppendRefusal,
};
use raftify::mem_storage::MemStorage;
use raftify::types::{ConfState, Entry, HardState, Snapshot, SnapshotMetadata, StorageError};

fn new_entry(index: u64, term: u64) -> Entry {
    Entry::new_entry(index, term)
}

fn new_snapshot_at(index: u64, term: u64, voters: Vec<u64>) -> Snapshot {
    let mut conf_state = ConfState::default_state();
    conf_state.voters = voters;
    Snapshot { data: vec![], metadata: SnapshotMetadata { conf_state, index, term } }
}

fn size_of(e: &Entry) -> u64 {
    let mut r = jopemachine_raft::eraftpb::Entry::default();
    r.term = e.term;
    r.index = e.index;
    r.compute_size() as u64
}

fn indexes(v: &[Entry]) -> Vec<(u64, u64)> {
    v.iter().map(|e| (e.index, e.term)).collect()
}

/// A storage whose log holds entries 3, 4 and 5 (terms 3, 4, 5) after a
/// snapshot at index 2.
fn storage_3_to_5() -> MemStorage {
    let mut s = MemStorage::create();
    s.apply_snapshot(new_snapshot_at(2, 2, vec![1])).unwrap();
    s.append(&[new_entry(3, 3), new_entry(4, 4), new_entry(5, 5)]).unwrap();
    s
}

#[test]
fn mem_storage_starts_empty() {
    let s = MemStorage::create();
    assert_eq!(s.first_index().unwrap(), 1);
    assert_eq!(s.last_index().unwrap(), 0);
    assert_eq!(s.hard_state().unwrap(), HardState { term: 0, vote: 0, commit: 0 });
    let st = s.initial_state().unwrap();
    assert!(st.conf_state.voters.is_empty());
    assert_eq!(s.snapshot(0, 0).unwrap().metadata.index, 0);
}

#[test]
fn mem_storage_term() {
    let s = storage_3_to_5();
    assert_eq!(s.term(1), Err(StorageError::Compacted));
    assert_eq!(s.term(2), Ok(2));
    assert_eq!(s.term(3), Ok(3));
    assert_eq!(s.term(4), Ok(4));
    assert_eq!(s.term(5), Ok(5));
    assert_eq!(s.term(6), Err(StorageError::Unavailable));
}

#[test]
fn mem_storage_entries() {
    let s = storage_3_to_5();
    let ents = [new_entry(3, 3), new_entry(4, 4), new_entry(5, 5)];
    let ctx = || GetEntriesContext::empty(false);
    assert_eq!(s.entries(2, 5, None, ctx()).unwrap_err(), StorageError::Compacted);
    assert_eq!(indexes(&s.entries(3, 4, None, ctx()).unwrap()), vec![(3, 3)]);
    assert_eq!(indexes(&s.entries(4, 6, None, ctx()).unwrap()), vec![(4, 4), (5, 5)]);
    assert_eq!(indexes(&s.entries(3, 6, Some(u64::MAX), ctx()).unwrap()), vec![(3, 3), (4, 4), (5, 5)]);
    // Even if the limit is zero, the first entry is returned.
    assert_eq!(indexes(&s.entries(3, 6, Some(0), ctx()).unwrap()), vec![(3, 3)]);
    let two = size_of(&ents[0]) + size_of(&ents[1]);
    assert_eq!(indexes(&s.entries(3, 6, Some(two), ctx()).unwrap()), vec![(3, 3), (4, 4)]);
    assert_eq!(indexes(&s.entries(3, 6, Some(two + size_of(&ents[2]) / 2), ctx()).unwrap()), vec![(3, 3), (4, 4)]);
    let all = two + size_of(&ents[2]);
    assert_eq!(indexes(&s.entries(3, 6, Some(all - 1), ctx()).unwrap()), vec![(3, 3), (4, 4)]);
    assert_eq!(indexes(&s.entries(3, 6, Some(all), ctx()).unwrap()).len(), 3);
}

#[test]
fn mem_storage_last_index() {
    let mut s = storage_3_to_5();
    assert_eq!(s.last_index(), Ok(5));
    s.append(&[new_entry(6, 5)]).unwrap();
    assert_eq!(s.last_index(), Ok(6));
}

#[test]
fn mem_storage_compact() {
    for (idx, windex, wterm, wlen) in [(2u64, 3u64, 3u64, 3usize), (3, 3, 3, 3), (4, 4, 4, 2), (5, 5, 5, 1)] {
        let mut s = storage_3_to_5();
        s.compact(idx).unwrap();
        let first = s.first_index().unwrap();
        assert_eq!(first, windex);
        assert_eq!(s.term(first), Ok(wterm));
        let last = s.last_index().unwrap();
        assert_eq!(s.entries(first, last + 1, Some(100), GetEntriesContext::empty(false)).unwrap().len(), wlen);
    }
}

#[test]
fn mem_storage_append_overwrites() {
    let mut s = storage_3_to_5();
    s.append(&[new_entry(4, 6), new_entry(5, 6)]).unwrap();
    let got = s.entries(3, 6, None, GetEntriesContext::empty(false)).unwrap();
    assert_eq!(indexes(&got), vec![(3, 3), (4, 6), (5, 6)]);
    s.append(&[new_entry(4, 7)]).unwrap();
    assert_eq!(s.last_index(), Ok(4));
}

#[test]
fn mem_storage_hard_state() {
    let mut s = MemStorage::create();
    s.set_hard_state(&HardState { term: 3, vote: 2, commit: 1 }).unwrap();
    assert_eq!(s.hard_state().unwrap(), HardState { term: 3, vote: 2, commit: 1 });
    s.set_hard_state_commit(7).unwrap();
    assert_eq!(s.hard_state().unwrap(), HardState { term: 3, vote: 2, commit: 7 });
}

#[test]
fn mem_storage_apply_snapshot() {
    let mut s = MemStorage::create();
    s.apply_snapshot(new_snapshot_at(4, 4, vec![1, 2, 3])).unwrap();
    assert_eq!(s.first_index(), Ok(5));
    assert_eq!(s.last_index(), Ok(4));
    assert_eq!(s.hard_state().unwrap().commit, 4);
    assert_eq!(s.hard_state().unwrap().term, 4);
    assert_eq!(s.initial_state().unwrap().conf_state.voters, vec![1, 2, 3]);
    assert_eq!(s.term(4), Ok(4));
    // A snapshot older than the log is refused.
    s.append(&[new_entry(5, 4), new_entry(6, 4)]).unwrap();
    s.compact(6).unwrap();
    match s.apply_snapshot(new_snapshot_at(3, 3, vec![1])) {
        Err(Error::Storage(StorageError::SnapshotOutOfDate)) => {}
        other => panic!("unexpected {:?}", other),
    }
    // A snapshot at the invalid index only changes the membership.
    s.apply_snapshot(new_snapshot_at(0, 0, vec![9])).unwrap();
    assert_eq!(s.initial_state().unwrap().conf_state.voters, vec![9]);
    assert_eq!(s.last_index(), Ok(6));
}

#[test]
fn mem_storage_create_snapshot() {
    let mut s = storage_3_to_5();
    s.set_hard_state_commit(4).unwrap();
    s.set_conf_state(&ConfState { voters: vec![1, 2], learners: vec![], voters_outgoing: vec![], learners_next: vec![], auto_leave: false }).unwrap();
    s.create_snapshot(vec![1, 2, 3], 4, 4).unwrap();
    let snap = s.snapshot(0, 0).unwrap();
    assert_eq!(snap.data, vec![1, 2, 3]);
    assert_eq!(snap.metadata.index, 4);
    assert_eq!(snap.metadata.term, 4);
    assert_eq!(snap.metadata.conf_state.voters, vec![1, 2]);
}

#[test]
fn log_store_term_decisions() {
    // Entries 3..=5 stored, first index 3, snapshot at 0.
    let stored = |i: u64| if (3..=5).contains(&i) { Some(i) } else { None };
    assert_eq!(term_of(2, 3, 0, 0, stored(2)), Err(StorageError::Compacted));
    assert_eq!(term_of(3, 3, 0, 0, stored(3)), Ok(3));
    assert_eq!(term_of(5, 3, 0, 0, stored(5)), Ok(5));
    assert_eq!(term_of(6, 3, 0, 0, stored(6)), Err(StorageError::Unavailable));
    assert_eq!(term_of(4, 5, 4, 9, None), Ok(9));
}

#[test]
fn log_store_first_index_and_range() {
    assert_eq!(first_index_of(Some("0000000003"), 0), 3);
    assert_eq!(first_index_of(None, 7), 8);
    assert_eq!(check_entries_low(2, 3), Err(StorageError::Compacted));
    assert_eq!(check_entries_low(3, 3), Ok(()));
    assert_eq!(entries_key_range(4, 7), ("0000000004".to_string(), "0000000007".to_string()));
}

#[test]
fn log_store_append_decisions() {
    let ents = [new_entry(3, 3), new_entry(4, 5)];
    assert_eq!(plan_append(3, 5, &[]), Ok(5));
    assert_eq!(plan_append(3, 5, &ents), Ok(5));
    assert_eq!(plan_append(3, 2, &ents), Ok(4));
    assert_eq!(plan_append(4, 5, &ents), Err(AppendRefusal::OverwriteCompacted { first_index: 4, append: 3 }));
    assert_eq!(plan_append(1, 1, &ents), Err(AppendRefusal::NotContinuous { last_index: 1, append: 3 }));
    assert_eq!(last_index_after(2, &[new_entry(6, 1), new_entry(4, 1)]), 6);
}

#[test]
fn log_store_snapshot_decisions() {
    let hs = HardState { term: 5, vote: 2, commit: 1 };
    assert_eq!(snapshot_hard_state(hs, 10, 3), HardState { term: 5, vote: 2, commit: 10 });
    assert_eq!(snapshot_hard_state(hs, 10, 8), HardState { term: 8, vote: 2, commit: 10 });
    let snap = new_snapshot(vec![4], ConfState::default_state(), 7, 2);
    assert_eq!((snap.data, snap.metadata.index, snap.metadata.term), (vec![4], 7, 2));
    assert_eq!(entry_type_to_str(0), "EntryNormal");
    assert_eq!(entry_type_to_str(1), "EntryConfChange");
    assert_eq!(entry_type_to_str(2), "EntryConfChangeV2");
}

#[test]
fn log_store_size_limit() {
    let ents = vec![new_entry(4, 4), new_entry(5, 5), new_entry(6, 6)];
    let copy = |v: &Vec<Entry>| v.iter().map(|e| e.duplicate()).collect::<Vec<_>>();
    assert_eq!(limit_entries(copy(&ents), Some(0)).len(), 1);
    assert_eq!(limit_entries(copy(&ents), None).len(), 3);
    let two = size_of(&ents[0]) + size_of(&ents[1]);
    assert_eq!(limit_entries(copy(&ents), Some(two)).len(), 2);
    assert_eq!(limit_entries(copy(&ents), Some(two + size_of(&ents[2]))).len(), 3);
    assert_eq!(limit_entries(vec![], Some(0)).len(), 0);
}

use raftify::compacted_log::{compacted_log_text, json_file_text, CompactedEntry};
use raftify::error::Error;
use raftify::mem_storage::MemStorage;
use raftify::node::entry_sequence_number;
use raftify::stored::{
    conf_state_record, hard_state_record, last_index_record, snapshot_record, stored_conf_state,
    stored_hard_state, stored_last_index, stored_snapshot,
};
use raftify::types::{ConfState, Entry, EntryType, HardState, Snapshot, SnapshotMetadata};
use serde_json::Value;

fn conf(voters: Vec<u64>, learners: Vec<u64>) -> ConfState {
    ConfState { voters, learners, voters_outgoing: vec![], learners_next: vec![], auto_leave: false }
}

#[test]
fn nothing_stored_reads_as_default() {
    assert_eq!(stored_hard_state(None).unwrap(), HardState { term: 0, vote: 0, commit: 0 });
    let c = stored_conf_state(None).unwrap();
    assert!(c.voters.is_empty() && c.learners.is_empty() && !c.auto_leave);
    let s = stored_snapshot(None).unwrap();
    assert!(s.data.is_empty());
    assert_eq!((s.metadata.index, s.metadata.term), (0, 0));
    assert_eq!(stored_last_index(None).unwrap(), 0);
}

#[test]
fn stored_metadata_reads_back() {
    let h = HardState { term: 7, vote: 2, commit: 300 };
    assert_eq!(stored_hard_state(Some(&hard_state_record(h))).unwrap(), h);
    let c = conf(vec![1, 2, 3], vec![4]);
    let back = stored_conf_state(Some(&conf_state_record(&c))).unwrap();
    assert_eq!((back.voters, back.learners), (vec![1, 2, 3], vec![4]));
    let snap = Snapshot {
        data: vec![9, 8, 7],
        metadata: SnapshotMetadata { conf_state: conf(vec![1], vec![]), index: 40, term: 4 },
    };
    let back = stored_snapshot(Some(&snapshot_record(&snap))).unwrap();
    assert_eq!(back.data, vec![9, 8, 7]);
    assert_eq!((back.metadata.index, back.metadata.term), (40, 4));
    assert_eq!(back.metadata.conf_state.voters, vec![1]);
    let bytes = last_index_record(258);
    assert_eq!(bytes, vec![2, 1, 0, 0, 0, 0, 0, 0]);
    assert_eq!(stored_last_index(Some(&bytes)).unwrap(), 258);
}

#[test]
fn broken_metadata_is_an_error() {
    // A field tag with wire type 7 does not exist.
    assert!(matches!(stored_hard_state(Some(&[0x0f])), Err(Error::Other(_))));
    assert!(matches!(stored_conf_state(Some(&[0x0f])), Err(Error::Other(_))));
    assert!(matches!(stored_snapshot(Some(&[0x0f])), Err(Error::Other(_))));
    assert!(matches!(stored_last_index(Some(&[1, 2, 3])), Err(Error::Other(_))));
}

#[test]
fn sequence_numbers_of_entries() {
    assert_eq!(entry_sequence_number(&[5, 0, 0, 0, 0, 0, 0, 0, 1]).unwrap(), 5);
    assert!(matches!(entry_sequence_number(&[5]), Err(Error::Other(_))));
}

#[test]
fn snapshot_creation_needs_a_known_commit() {
    let mut s = MemStorage::create();
    assert!(s.can_create_snapshot());
    s.append(&[Entry::new_entry(1, 1), Entry::new_entry(2, 1), Entry::new_entry(3, 2)]).unwrap();
    s.set_hard_state_commit(2).unwrap();
    assert!(s.can_create_snapshot());
    s.set_hard_state_commit(4).unwrap();
    assert!(!s.can_create_snapshot());
    s.set_hard_state_commit(3).unwrap();
    s.compact(3).unwrap();
    s.set_hard_state_commit(2).unwrap();
    // Index 2 was compacted away and is not the snapshot's index (0).
    assert!(!s.can_create_snapshot());
    s.set_hard_state_commit(0).unwrap();
    assert!(s.can_create_snapshot());
}

fn compacted(index: u64) -> CompactedEntry {
    CompactedEntry {
        entry_type: EntryType::EntryConfChange,
        term: 2,
        index,
        data: "d".to_string(),
        context: "c".to_string(),
        sync_log: false,
    }
}

#[test]
fn compacted_log_appends_one_object_per_compaction() {
    assert!(compacted_log_text("", "t0".to_string(), &[]).unwrap().is_none());
    let first = compacted_log_text("", "t1".to_string(), &[compacted(1), compacted(2)]).unwrap().unwrap();
    let second = compacted_log_text(&first, "t2".to_string(), &[compacted(3)]).unwrap().unwrap();
    let v: Value = serde_json::from_str(&second).unwrap();
    let arr = v.as_array().unwrap();
    assert_eq!(arr.len(), 2);
    let t1 = arr[0]["t1"].as_array().unwrap();
    assert_eq!(t1.len(), 2);
    assert_eq!(t1[1]["index"], 2);
    assert_eq!(t1[0]["entry_type"], "EntryConfChange");
    assert_eq!(t1[0]["term"], 2);
    assert_eq!(t1[0]["data"], "d");
    assert_eq!(t1[0]["context"], "c");
    assert_eq!(t1[0]["sync_log"], false);
    assert_eq!(arr[1]["t2"][0]["index"], 3);
    assert!(matches!(compacted_log_text("{not json", "t".to_string(), &[compacted(1)]), Err(Error::Other(_))));
}

#[test]
fn json_file_collects_texts() {
    let a = json_file_text("", &["x".to_string()]).unwrap();
    let b = json_file_text(&a, &["y".to_string(), "z".to_string()]).unwrap();
    let v: Vec<String> = serde_json::from_str(&b).unwrap();
    assert_eq!(v, vec!["x", "y", "z"]);
    assert!(matches!(json_file_text("3", &[]), Err(Error::Other(_))));
}

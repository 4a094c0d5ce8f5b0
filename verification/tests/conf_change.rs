use jopemachine_raft::eraftpb;
use protobuf::Message;
use raftify::error::Error;
use raftify::mem_storage::consecutive_below_max;
use raftify::membership::{changes_answerable, covers_addresses, decode_committed_conf_change};
use raftify::node::{bootstrap_conf_change, NodeStatus};
use raftify::peers::Peers;
use raftify::types::{ConfChangeSingle, ConfChangeTransition, ConfChangeType, Entry, EntryType};

#[test]
fn committed_conf_change_v1_is_decoded_as_v2() {
    let mut cc = eraftpb::ConfChange::default();
    cc.set_change_type(eraftpb::ConfChangeType::RemoveNode);
    cc.node_id = 7;
    cc.context = vec![1, 2, 3].into();
    let bytes = cc.write_to_bytes().unwrap();
    let v2 = decode_committed_conf_change(EntryType::EntryConfChange, &bytes).unwrap();
    assert_eq!(v2.transition, ConfChangeTransition::Auto);
    assert_eq!(v2.changes, vec![ConfChangeSingle { change_type: ConfChangeType::RemoveNode, node_id: 7 }]);
    assert_eq!(v2.context, vec![1, 2, 3]);
}

#[test]
fn committed_conf_change_v2_is_decoded() {
    let mut cc = eraftpb::ConfChangeV2::default();
    cc.set_transition(eraftpb::ConfChangeTransition::Explicit);
    let mut a = eraftpb::ConfChangeSingle::default();
    a.set_change_type(eraftpb::ConfChangeType::AddLearnerNode);
    a.node_id = 4;
    let mut b = eraftpb::ConfChangeSingle::default();
    b.set_change_type(eraftpb::ConfChangeType::AddNode);
    b.node_id = 5;
    cc.set_changes(vec![a, b].into());
    cc.context = vec![9].into();
    let bytes = cc.write_to_bytes().unwrap();
    let v2 = decode_committed_conf_change(EntryType::EntryConfChangeV2, &bytes).unwrap();
    assert_eq!(v2.transition, ConfChangeTransition::Explicit);
    assert_eq!(
        v2.changes,
        vec![
            ConfChangeSingle { change_type: ConfChangeType::AddLearnerNode, node_id: 4 },
            ConfChangeSingle { change_type: ConfChangeType::AddNode, node_id: 5 },
        ]
    );
    assert_eq!(v2.context, vec![9]);
}

#[test]
fn undecodable_conf_change_is_an_error() {
    // A field tag with wire type 7 does not exist.
    let r = decode_committed_conf_change(EntryType::EntryConfChangeV2, &[0x0f]);
    assert!(matches!(r, Err(Error::Other(_))));
    let r = decode_committed_conf_change(EntryType::EntryConfChange, &[0x0f]);
    assert!(matches!(r, Err(Error::Other(_))));
}

#[test]
fn addresses_and_answers() {
    let add = ConfChangeSingle { change_type: ConfChangeType::AddNode, node_id: 2 };
    let learner = ConfChangeSingle { change_type: ConfChangeType::AddLearnerNode, node_id: 3 };
    let remove = ConfChangeSingle { change_type: ConfChangeType::RemoveNode, node_id: 4 };
    let one = vec!["127.0.0.1:60062".to_string()];
    assert!(covers_addresses(&[add], &one));
    assert!(!covers_addresses(&[add, learner], &one));
    assert!(covers_addresses(&[remove, remove], &[]));
    assert!(!covers_addresses(&[remove, add], &one));
    assert!(changes_answerable(&[add]));
    assert!(changes_answerable(&[remove, remove]));
    assert!(!changes_answerable(&[add, learner]));
    assert!(!changes_answerable(&[add, remove]));
    assert!(!changes_answerable(&[]));
}

#[test]
fn bootstrap_adds_every_other_member() {
    let mut peers = Peers::new();
    peers.add_peer(1, "127.0.0.1:60061".to_string());
    peers.add_peer(2, "127.0.0.1:60062".to_string());
    peers.add_peer(3, "127.0.0.1:60063".to_string());
    let cc = bootstrap_conf_change(&peers, 1);
    assert_eq!(cc.transition, ConfChangeTransition::Auto);
    assert!(cc.context.is_empty());
    let mut ids: Vec<u64> = cc.changes.iter().map(|c| c.node_id).collect();
    ids.sort();
    assert_eq!(ids, vec![2, 3]);
    assert!(cc.changes.iter().all(|c| c.change_type == ConfChangeType::AddNode));
}

#[test]
fn messages_wait_for_the_cluster() {
    let mut status = NodeStatus::follower(false);
    assert!(!status.may_send_messages());
    status.cluster_bootstrap_ready();
    assert!(status.may_send_messages());
}

#[test]
fn appended_entries_must_be_consecutive() {
    let e = |i: u64| Entry::new_entry(i, 1);
    assert!(consecutive_below_max(&[]));
    assert!(consecutive_below_max(&[e(3), e(4), e(5)]));
    assert!(!consecutive_below_max(&[e(3), e(5)]));
    assert!(!consecutive_below_max(&[e(3), e(2)]));
    assert!(!consecutive_below_max(&[e(u64::MAX)]));
}

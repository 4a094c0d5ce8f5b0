use raftify::membership::{
    all_additions, all_removals, apply_membership_changes, conf_change_outcome, join_conf_change,
    leave_conf_change, to_confchange_v2,
};
use raftify::messages::{ConfChangeResponseResult, RequestIdResponseResult, ResponseResult};
use raftify::node::{
    all_ready, bootstrap_done_for, committed_entry_kind, handle_conf_change,
    handle_member_bootstrap_ready, handle_propose, handle_request_id, initial_bootstrap_ready,
    initial_bootstrap_snapshot, is_cluster_founder, is_leader, take_conf_change_responder,
    take_normal_entry_responder, CommittedEntryKind, ConfChangeAction, ProposeAction,
    ResponseRegistry,
};
use raftify::peers::{PeerState, Peers};
use raftify::types::{
    ConfChange, ConfChangeSingle, ConfChangeTransition, ConfChangeType, Entry, EntryType,
};
use std::collections::HashMap;

fn three_peers() -> Peers {
    let mut p = Peers::new();
    p.add_peer(1, "127.0.0.1:60061".to_string());
    p.add_peer(2, "127.0.0.1:60062".to_string());
    p.add_peer(3, "127.0.0.1:60063".to_string());
    p
}

#[test]
fn peers_reserve_and_find() {
    let mut p = Peers::new();
    assert!(p.is_empty());
    assert_eq!(p.reserve_peer(1), 2);
    assert_eq!(p.reserve_peer(5), 5);
    p = three_peers();
    assert_eq!(p.len(), 3);
    assert_eq!(p.reserve_peer(1), 4);
    assert_eq!(p.reserve_peer(9), 9);
    assert_eq!(p.get_node_id_by_addr(&"127.0.0.1:60062".to_string()), Some(2));
    assert_eq!(p.get_node_id_by_addr(&"127.0.0.1:1".to_string()), None);
    assert_eq!(p.get(&3).unwrap().state, PeerState::Preparing);
    assert_eq!(p.remove(&3).unwrap().addr, "127.0.0.1:60063");
    assert!(p.get(&3).is_none());
    assert_eq!(p.max_id(), Some(2));
}

#[test]
fn confchange_conversions() {
    let cc = ConfChange { change_type: ConfChangeType::AddLearnerNode, node_id: 7, context: vec![1, 2], id: 3 };
    let v2 = to_confchange_v2(cc);
    assert_eq!(v2.transition, ConfChangeTransition::Auto);
    assert_eq!(v2.changes, vec![ConfChangeSingle { change_type: ConfChangeType::AddLearnerNode, node_id: 7 }]);
    assert_eq!(v2.context, vec![1, 2]);
    let leave = leave_conf_change(4, vec![9]);
    assert_eq!(leave.changes, vec![ConfChangeSingle { change_type: ConfChangeType::RemoveNode, node_id: 4 }]);
    assert_eq!(leave.context, vec![9]);
    let join = join_conf_change(5, vec![8]);
    assert_eq!(join.changes, vec![ConfChangeSingle { change_type: ConfChangeType::AddNode, node_id: 5 }]);
}

#[test]
fn committed_membership_changes() {
    let mut peers = three_peers();
    let add = [ConfChangeSingle { change_type: ConfChangeType::AddNode, node_id: 4 }];
    let leaving = apply_membership_changes(&mut peers, 1, &add, &["127.0.0.1:60064".to_string()]);
    assert!(!leaving);
    assert_eq!(peers.get(&4).unwrap().addr, "127.0.0.1:60064");
    match conf_change_outcome(&add, &peers) {
        ConfChangeResponseResult::JoinSuccess { assigned_id, peers: p } => {
            assert_eq!(assigned_id, 4);
            assert_eq!(p.len(), 4);
        }
        other => panic!("unexpected {:?}", other),
    }
    let remove = [
        ConfChangeSingle { change_type: ConfChangeType::RemoveNode, node_id: 2 },
        ConfChangeSingle { change_type: ConfChangeType::RemoveNode, node_id: 1 },
    ];
    let leaving = apply_membership_changes(&mut peers, 1, &remove, &[]);
    assert!(leaving);
    assert!(peers.get(&2).is_none());
    assert!(peers.get(&1).is_some());
    assert!(matches!(conf_change_outcome(&remove, &peers), ConfChangeResponseResult::RemoveSuccess));
    assert!(all_additions(&add) && !all_additions(&remove));
    assert!(all_removals(&remove) && !all_removals(&add));
}

#[test]
fn proposals_are_answered_by_their_commit() {
    let peers = three_peers();
    let mut reg: ResponseRegistry<&str> = ResponseRegistry::new();
    match handle_propose(&mut reg, 2, 1, &peers, "client-a") {
        ProposeAction::WrongLeader { responder, leader_id, leader_addr } => {
            assert_eq!((responder, leader_id, leader_addr.as_str()), ("client-a", 1, "127.0.0.1:60061"));
        }
        _ => panic!("a follower must not propose"),
    }
    let ctx_a = match handle_propose(&mut reg, 1, 1, &peers, "client-a") {
        ProposeAction::Propose { context } => context,
        _ => panic!("the leader proposes"),
    };
    let ctx_b = match handle_propose(&mut reg, 1, 1, &peers, "client-b") {
        ProposeAction::Propose { context } => context,
        _ => panic!("the leader proposes"),
    };
    assert_eq!(ctx_a, vec![0, 0, 0, 0, 0, 0, 0, 0]);
    assert_eq!(ctx_b, vec![1, 0, 0, 0, 0, 0, 0, 0]);
    assert_eq!(take_normal_entry_responder(&mut reg, &ctx_b).unwrap(), Some("client-b"));
    assert_eq!(take_normal_entry_responder(&mut reg, &ctx_b).unwrap(), None);
    assert_eq!(take_normal_entry_responder(&mut reg, &ctx_a).unwrap(), Some("client-a"));
    assert!(take_normal_entry_responder(&mut reg, &[1, 2]).is_err());
}

#[test]
fn conf_change_requests() {
    let peers = three_peers();
    let mut reg: ResponseRegistry<u32> = ResponseRegistry::new();
    assert!(matches!(handle_conf_change(&mut reg, true, 1, 1, &peers, 7), ConfChangeAction::Drop { responder: 7 }));
    match handle_conf_change(&mut reg, false, 3, 2, &peers, 8) {
        ConfChangeAction::Reply { responder, result: ConfChangeResponseResult::WrongLeader { leader_id, leader_addr } } => {
            assert_eq!((responder, leader_id, leader_addr.as_str()), (8, 2, "127.0.0.1:60062"));
        }
        _ => panic!("a follower answers with the leader"),
    }
    let ctx = match handle_conf_change(&mut reg, false, 1, 1, &peers, 9) {
        ConfChangeAction::Propose { context } => context,
        _ => panic!("the leader proposes"),
    };
    assert_eq!(take_conf_change_responder(&mut reg, &ctx).unwrap(), Some(9));
    let _ = handle_conf_change(&mut reg, false, 1, 1, &peers, 10);
    assert_eq!(take_conf_change_responder(&mut reg, &[]).unwrap(), None);
    assert!(take_conf_change_responder(&mut reg, &[3]).is_err());
}

#[test]
fn request_id_and_bootstrap() {
    let peers = three_peers();
    match handle_request_id(2, 1, &peers) {
        RequestIdResponseResult::WrongLeader { leader_id, leader_addr } => {
            assert_eq!((leader_id, leader_addr.as_str()), (1, "127.0.0.1:60061"));
        }
        other => panic!("unexpected {:?}", other),
    }
    match handle_request_id(1, 1, &peers) {
        RequestIdResponseResult::Success { reserved_id, leader_id, peers: p } => {
            assert_eq!((reserved_id, leader_id, p.len()), (4, 1, 3));
        }
        other => panic!("unexpected {:?}", other),
    }
    let mut ready = initial_bootstrap_ready(&peers);
    assert_eq!(ready.as_ref().unwrap().len(), 1);
    assert!(!all_ready(&peers, ready.as_ref().unwrap()));
    assert!(matches!(handle_member_bootstrap_ready(&mut ready, 1, 1, 2), ResponseResult::Success));
    handle_member_bootstrap_ready(&mut ready, 1, 1, 3);
    assert!(all_ready(&peers, ready.as_ref().unwrap()));
    let mut not_ready: HashMap<u64, bool> = HashMap::new();
    not_ready.insert(1, true);
    not_ready.insert(2, false);
    not_ready.insert(3, true);
    assert!(!all_ready(&peers, &not_ready));
    assert!(initial_bootstrap_ready(&Peers::new()).is_none());
    assert!(bootstrap_done_for(&Peers::new()));
    assert!(!bootstrap_done_for(&peers));
    assert!(is_cluster_founder(1) && !is_cluster_founder(2));
    assert!(is_leader(3, 3) && !is_leader(3, 1));
    let snap = initial_bootstrap_snapshot();
    assert_eq!((snap.metadata.index, snap.metadata.term), (0, 0));
    assert_eq!(snap.metadata.conf_state.voters, vec![1]);
}

#[test]
fn committed_entry_kinds() {
    let mut e = Entry::new_entry(1, 1);
    assert_eq!(committed_entry_kind(&e), CommittedEntryKind::Skip);
    e.data = vec![1];
    assert_eq!(committed_entry_kind(&e), CommittedEntryKind::Normal);
    e.entry_type = EntryType::EntryConfChangeV2;
    assert_eq!(committed_entry_kind(&e), CommittedEntryKind::ConfChange);
    e.entry_type = EntryType::EntryConfChange;
    assert_eq!(committed_entry_kind(&e), CommittedEntryKind::ConfChange);
}

#[test]
fn sequence_numbers_encode_as_eight_bytes() {
    let peers = three_peers();
    let mut reg: ResponseRegistry<u32> = ResponseRegistry::new();
    let mut contexts = Vec::new();
    for responder in 0..300u32 {
        match handle_propose(&mut reg, 1, 1, &peers, responder) {
            ProposeAction::Propose { context } => contexts.push(context),
            _ => panic!("the leader proposes"),
        }
    }
    assert_eq!(contexts[1], vec![1, 0, 0, 0, 0, 0, 0, 0]);
    assert_eq!(contexts[258], vec![2, 1, 0, 0, 0, 0, 0, 0]);
    // Bytes after the first eight are ignored; fewer than eight are refused.
    assert_eq!(take_normal_entry_responder(&mut reg, &[2, 1, 0, 0, 0, 0, 0, 0, 9]).unwrap(), Some(258));
    assert!(take_normal_entry_responder(&mut reg, &[1, 0, 0]).is_err());
    for (seq, context) in contexts.iter().enumerate() {
        let expected = if seq == 258 { None } else { Some(seq as u32) };
        assert_eq!(take_normal_entry_responder(&mut reg, context).unwrap(), expected);
    }
}

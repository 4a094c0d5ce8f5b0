use raftify::messages::ResponseResult;
use raftify::node::{
    light_ready_steps, ready_steps, BootstrapStep, LightReadyContents, LoopStep, NodeStatus,
    ReadyContents, ReadyStep,
};
use raftify::peers::Peers;

fn three_peers() -> Peers {
    let mut p = Peers::new();
    p.add_peer(1, "127.0.0.1:60061".to_string());
    p.add_peer(2, "127.0.0.1:60062".to_string());
    p.add_peer(3, "127.0.0.1:60063".to_string());
    p
}

#[test]
fn founder_waits_for_its_initial_members() {
    let peers = three_peers();
    let mut status = NodeStatus::founder(&peers, false);
    assert!(!status.should_exit);
    assert_eq!(status.loop_step(), LoopStep::WaitForPeers);
    assert!(matches!(status.bootstrap_step(2, 1, &peers), BootstrapStep::NotLeader));
    assert!(matches!(status.bootstrap_step(1, 1, &peers), BootstrapStep::Waiting));
    assert!(matches!(status.member_bootstrap_ready(1, 1, 2), ResponseResult::Success));
    assert!(matches!(status.bootstrap_step(1, 1, &peers), BootstrapStep::Waiting));
    status.member_bootstrap_ready(1, 1, 3);
    match status.bootstrap_step(1, 1, &peers) {
        BootstrapStep::Bootstrap { mut notify } => {
            notify.sort();
            assert_eq!(notify, vec![2, 3]);
        }
        _ => panic!("every member is ready"),
    }
    status.bootstrapped();
    assert_eq!(status.loop_step(), LoopStep::Serve);
}

#[test]
fn single_node_cluster_serves_at_once() {
    let status = NodeStatus::founder(&Peers::new(), true);
    assert!(status.peers_bootstrap_ready.is_none());
    assert_eq!(status.loop_step(), LoopStep::Serve);
}

#[test]
fn follower_starts_when_told() {
    let mut status = NodeStatus::follower(false);
    assert_eq!(status.loop_step(), LoopStep::WaitForPeers);
    assert!(matches!(status.bootstrap_step(2, 1, &three_peers()), BootstrapStep::NotLeader));
    assert!(matches!(status.cluster_bootstrap_ready(), ResponseResult::Success));
    assert_eq!(status.loop_step(), LoopStep::Serve);
}

#[test]
fn exit_ends_the_loop() {
    let mut status = NodeStatus::follower(true);
    status.membership_applied(false);
    assert_eq!(status.loop_step(), LoopStep::Serve);
    status.membership_applied(true);
    assert_eq!(status.loop_step(), LoopStep::Quit);
    status.cluster_bootstrap_ready();
    assert_eq!(status.loop_step(), LoopStep::Quit);
    let mut other = NodeStatus::follower(false);
    other.quit();
    assert_eq!(other.loop_step(), LoopStep::Quit);
}

#[test]
fn ready_is_handled_in_order() {
    let empty = ReadyContents {
        has_messages: false,
        has_snapshot: false,
        snapshot_has_data: false,
        has_entries: false,
        has_hard_state: false,
        has_persisted_messages: false,
    };
    assert_eq!(ready_steps(empty), vec![ReadyStep::ApplyCommittedEntries]);
    let full = ReadyContents {
        has_messages: true,
        has_snapshot: true,
        snapshot_has_data: true,
        has_entries: true,
        has_hard_state: true,
        has_persisted_messages: true,
    };
    assert_eq!(
        ready_steps(full),
        vec![
            ReadyStep::SendMessages,
            ReadyStep::RestoreStateMachine,
            ReadyStep::ApplySnapshot,
            ReadyStep::ApplyCommittedEntries,
            ReadyStep::AppendEntries,
            ReadyStep::SetHardState,
            ReadyStep::SendPersistedMessages,
        ]
    );
    let empty_snapshot = ReadyContents { snapshot_has_data: false, has_messages: false, ..full };
    assert_eq!(
        ready_steps(empty_snapshot),
        vec![
            ReadyStep::ApplySnapshot,
            ReadyStep::ApplyCommittedEntries,
            ReadyStep::AppendEntries,
            ReadyStep::SetHardState,
            ReadyStep::SendPersistedMessages,
        ]
    );
    assert_eq!(
        light_ready_steps(LightReadyContents { has_commit_index: true, has_messages: true }),
        vec![
            ReadyStep::SetCommit,
            ReadyStep::SendMessages,
            ReadyStep::ApplyCommittedEntries,
            ReadyStep::AdvanceApply,
        ]
    );
    assert_eq!(
        light_ready_steps(LightReadyContents { has_commit_index: false, has_messages: false }),
        vec![ReadyStep::ApplyCommittedEntries, ReadyStep::AdvanceApply]
    );
}

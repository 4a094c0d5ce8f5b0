use raftify::error::Error;
use raftify::messages::RequestIdResponseResult;
use raftify::peers::Peers;
use raftify::replies::{
    join_step, request_id_reply, request_id_step, ChangeConfigResultType, JoinStep,
    RequestIdStep, ResultCode,
};
use std::collections::HashMap;

#[test]
fn request_id_replies() {
    let wrong = RequestIdResponseResult::WrongLeader { leader_id: 1, leader_addr: "127.0.0.1:60061".to_string() };
    let r = request_id_reply(wrong, "127.0.0.1:60062".to_string());
    assert_eq!(r.code, ResultCode::WrongLeader);
    assert_eq!((r.leader_id, r.leader_addr.as_str(), r.reserved_id), (1, "127.0.0.1:60061", 0));
    assert!(r.peers.is_none());

    let mut peers = Peers::new();
    peers.add_peer(1, "127.0.0.1:60061".to_string());
    let ok = RequestIdResponseResult::Success { reserved_id: 2, leader_id: 1, peers };
    let r = request_id_reply(ok, "127.0.0.1:60061".to_string());
    assert_eq!(r.code, ResultCode::Success);
    assert_eq!((r.leader_id, r.leader_addr.as_str(), r.reserved_id), (1, "127.0.0.1:60061", 2));
    assert_eq!(r.peers.unwrap().len(), 1);
}

#[test]
fn request_id_steps() {
    match request_id_step(ResultCode::WrongLeader, 0, 3, "127.0.0.1:60063".to_string(), HashMap::new()) {
        RequestIdStep::Retry { leader_addr } => assert_eq!(leader_addr, "127.0.0.1:60063"),
        other => panic!("unexpected {:?}", other),
    }
    let mut peers = HashMap::new();
    peers.insert(1, "127.0.0.1:60061".to_string());
    match request_id_step(ResultCode::Success, 4, 1, "127.0.0.1:60061".to_string(), peers) {
        RequestIdStep::Joined { ticket } => {
            assert_eq!((ticket.reserved_id, ticket.leader_id), (4, 1));
            assert_eq!(ticket.leader_addr, "127.0.0.1:60061");
            assert_eq!(ticket.peers.get(&1).map(|s| s.as_str()), Some("127.0.0.1:60061"));
        }
        other => panic!("unexpected {:?}", other),
    }
    assert!(matches!(
        request_id_step(ResultCode::Error, 0, 0, String::new(), HashMap::new()),
        RequestIdStep::Failed { error: Error::JoinError }
    ));
}

#[test]
fn join_steps() {
    assert!(matches!(join_step(ChangeConfigResultType::ChangeConfigWrongLeader), JoinStep::Retry));
    assert!(matches!(join_step(ChangeConfigResultType::ChangeConfigSuccess), JoinStep::Joined));
    assert!(matches!(
        join_step(ChangeConfigResultType::ChangeConfigUnknownError),
        JoinStep::Failed { error: Error::JoinError }
    ));
    match join_step(ChangeConfigResultType::ChangeConfigRejected) {
        JoinStep::Failed { error: Error::Rejected(m) } => assert_eq!(m, "Join request rejected"),
        other => panic!("unexpected {:?}", other),
    }
    assert!(matches!(
        join_step(ChangeConfigResultType::ChangeConfigTimeoutError),
        JoinStep::Failed { error: Error::Timeout }
    ));
}

//! The replies that nodes exchange over the network when a node asks for an
//! id or to join, and what the asking node does with each.
use crate::error::Error;
use crate::messages::{ClusterJoinTicket, RequestIdResponseResult};
use crate::peers::Peers;
use std::collections::HashMap;
use vstd::prelude::*;

verus! {

/// The outcome that a reply carries.
#[derive(Clone, Copy, Debug, PartialEq, Eq, Structural)]
pub enum ResultCode {
    Success,
    Error,
    WrongLeader,
}

/// The outcome of a request for a membership change.
#[derive(Clone, Copy, Debug, PartialEq, Eq, Structural)]
pub enum ChangeConfigResultType {
    ChangeConfigSuccess,
    ChangeConfigWrongLeader,
    ChangeConfigUnknownError,
    ChangeConfigRejected,
    ChangeConfigTimeoutError,
}

/// The reply to a request for a node id. `peers` is absent when the
/// reply carries no members.
#[derive(Debug)]
pub struct RequestIdReply {
    pub code: ResultCode,
    pub leader_id: u64,
    pub leader_addr: String,
    pub reserved_id: u64,
    pub peers: Option<Peers>,
}

/// The reply that a node at `own_addr` sends for the answer `result` of its
/// Raft node: a follower names the leader; the leader, which is this node,
/// sends the reserved id and the members.
pub fn request_id_reply(result: RequestIdResponseResult, own_addr: String) -> (r: RequestIdReply)
    requires
        !(result is Error),
    ensures
        (match result {
            RequestIdResponseResult::WrongLeader { leader_id, leader_addr } => {
                &&& r.code == ResultCode::WrongLeader
                &&& r.leader_id == leader_id
                &&& r.leader_addr@ == leader_addr@
                &&& r.reserved_id == 0
                &&& r.peers is None
            },
            RequestIdResponseResult::Success { reserved_id, leader_id, peers } => {
                &&& r.code == ResultCode::Success
                &&& r.leader_id == leader_id
                &&& r.leader_addr@ == own_addr@
                &&& r.reserved_id == reserved_id
                &&& r.peers matches Some(p) && p@ == peers@
            },
            RequestIdResponseResult::Error(_) => false,
        }),
{
    match result {
        RequestIdResponseResult::WrongLeader { leader_id, leader_addr } => RequestIdReply {
            code: ResultCode::WrongLeader,
            leader_id,
            leader_addr,
            reserved_id: 0,
            peers: None,
        },
        RequestIdResponseResult::Success { reserved_id, leader_id, peers } => RequestIdReply {
            code: ResultCode::Success,
            leader_id,
            leader_addr: own_addr,
            reserved_id,
            peers: Some(peers),
        },
        RequestIdResponseResult::Error(_) => {
            assert(false);
            RequestIdReply {
                code: ResultCode::Error,
                leader_id: 0,
                leader_addr: own_addr,
                reserved_id: 0,
                peers: None,
            }
        },
    }
}

/// What a node that asks for an id does with a reply.
#[derive(Debug)]
pub enum RequestIdStep {
    /// Ask again, at the leader's address.
    Retry { leader_addr: String },
    /// The node may join with this ticket.
    Joined { ticket: ClusterJoinTicket },
    /// The request failed.
    Failed { error: Error },
}

/// The step after a reply to a request for an id: a wrong leader sends the
/// node to the leader's address; success gives the ticket to join with;
/// an error fails the join.
pub fn request_id_step(
    code: ResultCode,
    reserved_id: u64,
    leader_id: u64,
    leader_addr: String,
    peers: HashMap<u64, String>,
) -> (r: RequestIdStep)
    ensures
        code == ResultCode::WrongLeader ==> (r matches RequestIdStep::Retry { leader_addr: a } && a@
            == leader_addr@),
        code == ResultCode::Success ==> (r matches RequestIdStep::Joined { ticket } && ticket.reserved_id
            == reserved_id && ticket.leader_id == leader_id && ticket.leader_addr@ == leader_addr@
            && ticket.peers@ == peers@),
        code == ResultCode::Error ==> (r matches RequestIdStep::Failed { error: Error::JoinError }),
{
    match code {
        ResultCode::WrongLeader => RequestIdStep::Retry { leader_addr },
        ResultCode::Success => RequestIdStep::Joined {
            ticket: ClusterJoinTicket { reserved_id, leader_id, leader_addr, peers },
        },
        ResultCode::Error => RequestIdStep::Failed { error: Error::JoinError },
    }
}

/// What a joining node does with the reply to its membership change.
#[derive(Debug)]
pub enum JoinStep {
    /// Ask the leader again.
    Retry,
    /// The node has joined.
    Joined,
    /// The join failed.
    Failed { error: Error },
}

/// The step after a reply to a request to join: a wrong leader is asked
/// again; success ends the join; any other outcome fails it with the
/// matching error.
pub fn join_step(result_type: ChangeConfigResultType) -> (r: JoinStep)
    ensures
        result_type == ChangeConfigResultType::ChangeConfigWrongLeader ==> r is Retry,
        result_type == ChangeConfigResultType::ChangeConfigSuccess ==> r is Joined,
        result_type == ChangeConfigResultType::ChangeConfigUnknownError ==> (r matches JoinStep::Failed {
            error: Error::JoinError,
        }),
        result_type == ChangeConfigResultType::ChangeConfigRejected ==> (r matches JoinStep::Failed {
            error: Error::Rejected(m),
        } && m@ == "Join request rejected"@),
        result_type == ChangeConfigResultType::ChangeConfigTimeoutError ==> (r matches JoinStep::Failed {
            error: Error::Timeout,
        }),
{
    match result_type {
        ChangeConfigResultType::ChangeConfigWrongLeader => JoinStep::Retry,
        ChangeConfigResultType::ChangeConfigSuccess => JoinStep::Joined,
        ChangeConfigResultType::ChangeConfigUnknownError => JoinStep::Failed { error: Error::JoinError },
        ChangeConfigResultType::ChangeConfigRejected => JoinStep::Failed {
            error: Error::Rejected("Join request rejected".to_owned()),
        },
        ChangeConfigResultType::ChangeConfigTimeoutError => JoinStep::Failed { error: Error::Timeout },
    }
}

} // verus!

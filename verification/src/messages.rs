//! The answers that a Raft node gives to the requests it serves, and the
//! messages it sends to itself.
use crate::error::Error;
use crate::peers::Peers;
use std::collections::HashMap;
use vstd::prelude::*;

verus! {

/// A message that a node sends to itself from a task it has started.
#[derive(Debug)]
pub enum SelfMessage {
    ReportUnreachable { node_id: u64 },
}

/// The answer to a request that either succeeds or must be sent to the leader.
#[derive(Debug)]
pub enum ResponseResult {
    Success,
    Error(Error),
    WrongLeader { leader_id: u64, leader_addr: String },
}

/// The answer to a membership change.
#[derive(Debug)]
pub enum ConfChangeResponseResult {
    JoinSuccess { assigned_id: u64, peers: Peers },
    RemoveSuccess,
    Error(Error),
    WrongLeader { leader_id: u64, leader_addr: String },
}

/// The answer to a request for a node id.
#[derive(Debug)]
pub enum RequestIdResponseResult {
    Success { reserved_id: u64, leader_id: u64, peers: Peers },
    Error(Error),
    WrongLeader { leader_id: u64, leader_addr: String },
}

/// The answers to the requests that come over the network.
#[allow(inconsistent_fields)]
#[derive(Debug)]
pub enum ServerResponseMsg {
    MemberBootstrapReady { result: ResponseResult },
    ClusterBootstrapReady { result: ResponseResult },
    Propose { result: ResponseResult },
    ConfigChange { result: ConfChangeResponseResult },
    RequestId { result: RequestIdResponseResult },
    ReportUnreachable { result: ResponseResult },
    DebugNode { result: String },
    SendMessage { result: ResponseResult },
}

/// What a node that wants to join a cluster has been given by the leader:
/// its id, the leader, and the members with their addresses.
#[derive(Debug)]
pub struct ClusterJoinTicket {
    pub reserved_id: u64,
    pub leader_id: u64,
    pub leader_addr: String,
    pub peers: HashMap<u64, String>,
}

} // verus!

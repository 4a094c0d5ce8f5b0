//! The decisions of a Raft node on the requests it serves and the entries
//! that its log commits. The node's event loop asks these functions what to
//! do, performs the I/O they call for, and hands back what came of it.
use crate::codec::{decode_u64, encode_u64, le_bytes, le_value};
use crate::error::Error;
use crate::messages::{ConfChangeResponseResult, RequestIdResponseResult, ResponseResult};
use crate::peers::{reserved_id, PeerView, Peers};
use crate::types::{
    ConfChangeSingle, ConfChangeTransition, ConfChangeType, ConfChangeV2, ConfState, Entry, EntryType,
    Snapshot, SnapshotMetadata,
};
use std::collections::HashMap;
use vstd::prelude::*;
use vstd::std_specs::hash::group_hash_axioms;

verus! {

broadcast use group_hash_axioms;

/// The requests that wait for their proposals to be committed, each under
/// the sequence number that the proposal carries in its context, and the
/// next sequence number to hand out.
pub struct ResponseRegistry<T> {
    next_seq: u64,
    pending: HashMap<u64, T>,
}

impl<T> ResponseRegistry<T> {
    pub closed spec fn next(&self) -> u64 {
        self.next_seq
    }

    pub closed spec fn waiting(&self) -> Map<u64, T> {
        self.pending@
    }

    /// Every waiting request holds a number handed out before the next one.
    pub open spec fn wf(&self) -> bool {
        forall|s: u64| self.waiting().contains_key(s) ==> s < self.next()
    }

    /// No request waits; numbering starts at 0.
    pub fn new() -> (r: Self)
        ensures
            r.next() == 0,
            r.waiting() == Map::<u64, T>::empty(),
            r.wf(),
    {
        ResponseRegistry { next_seq: 0, pending: HashMap::new() }
    }

    /// Records a request under the next sequence number and returns that
    /// number; the counter wraps around after `u64::MAX`, as an atomic
    /// `fetch_add` does.
    pub fn register(&mut self, responder: T) -> (seq: u64)
        ensures
            seq == old(self).next(),
            final(self).next() == (if old(self).next() == u64::MAX {
                0
            } else {
                (old(self).next() + 1) as u64
            }),
            final(self).waiting() == old(self).waiting().insert(seq, responder),
    {
        let seq = self.next_seq;
        self.next_seq = self.next_seq.wrapping_add(1);
        self.pending.insert(seq, responder);
        seq
    }

    /// Takes out the request waiting under `seq`, if any.
    pub fn take(&mut self, seq: u64) -> (r: Option<T>)
        ensures
            final(self).next() == old(self).next(),
            final(self).waiting() == old(self).waiting().remove(seq),
            match r {
                Some(t) => old(self).waiting().contains_key(seq) && t == old(self).waiting()[seq],
                None => !old(self).waiting().contains_key(seq),
            },
    {
        self.pending.remove(&seq)
    }
}

/// Whether the node is the leader it knows of.
pub fn is_leader(id: u64, leader_id: u64) -> (r: bool)
    ensures
        r == (id == leader_id),
{
    leader_id == id
}

/// The address of the leader, which must be a known peer.
fn leader_addr(peers: &Peers, leader_id: u64) -> (r: String)
    requires
        peers@.contains_key(leader_id),
    ensures
        r@ == peers@[leader_id].addr,
{
    match peers.get(&leader_id) {
        Some(p) => p.addr.clone(),
        None => {
            assert(false);
            String::new()
        },
    }
}

/// What to do with a proposal.
pub enum ProposeAction<T> {
    /// This node is not the leader: answer the requester, naming the leader.
    WrongLeader { responder: T, leader_id: u64, leader_addr: String },
    /// Propose the data to Raft with this context; the requester waits for
    /// the commit.
    Propose { context: Vec<u8> },
}

/// Decides on a proposal from `responder`. A follower sends it back with the
/// leader's id and address; the leader registers it and proposes the data
/// with its sequence number as the entry's context.
pub fn handle_propose<T>(
    registry: &mut ResponseRegistry<T>,
    id: u64,
    leader_id: u64,
    peers: &Peers,
    responder: T,
) -> (r: ProposeAction<T>)
    requires
        id != leader_id ==> peers@.contains_key(leader_id),
    ensures
        id != leader_id ==> *final(registry) == *old(registry) && (r matches ProposeAction::WrongLeader { responder: t, leader_id: l, leader_addr: a } && t == responder && l == leader_id && a@ == peers@[leader_id].addr),
        id == leader_id ==> (r matches ProposeAction::Propose { context } && context@ == le_bytes(old(registry).next())
            && final(registry).waiting() == old(registry).waiting().insert(old(registry).next(), responder)
            && final(registry).next() == (if old(registry).next() == u64::MAX { 0 } else { (old(registry).next() + 1) as u64 })),
{
    if !is_leader(id, leader_id) {
        let leader_addr = leader_addr(peers, leader_id);
        return ProposeAction::WrongLeader { responder, leader_id, leader_addr };
    }
    let seq = registry.register(responder);
    ProposeAction::Propose { context: encode_u64(seq) }
}

/// What to do with a request for a membership change.
pub enum ConfChangeAction<T> {
    /// A change is still pending: the request is dropped unanswered.
    Drop { responder: T },
    /// This node is not the leader: answer the requester with this result.
    Reply { responder: T, result: ConfChangeResponseResult },
    /// Propose the change to Raft with this context.
    Propose { context: Vec<u8> },
}

/// Decides on a request for a membership change from `responder`. While
/// another change is pending the request is dropped; a follower answers
/// with the leader; the leader registers it and proposes the change with
/// its sequence number as context.
pub fn handle_conf_change<T>(
    registry: &mut ResponseRegistry<T>,
    has_pending_conf: bool,
    id: u64,
    leader_id: u64,
    peers: &Peers,
    responder: T,
) -> (r: ConfChangeAction<T>)
    requires
        !has_pending_conf && id != leader_id ==> peers@.contains_key(leader_id),
    ensures
        has_pending_conf ==> *final(registry) == *old(registry) && (r matches ConfChangeAction::Drop { responder: t } && t == responder),
        !has_pending_conf && id != leader_id ==> *final(registry) == *old(registry) && (r matches ConfChangeAction::Reply { responder: t, result: ConfChangeResponseResult::WrongLeader { leader_id: l, leader_addr: a } } && t == responder && l == leader_id && a@ == peers@[leader_id].addr),
        !has_pending_conf && id == leader_id ==> (r matches ConfChangeAction::Propose { context } && context@ == le_bytes(old(registry).next())
            && final(registry).waiting() == old(registry).waiting().insert(old(registry).next(), responder)
            && final(registry).next() == (if old(registry).next() == u64::MAX { 0 } else { (old(registry).next() + 1) as u64 })),
{
    if has_pending_conf {
        return ConfChangeAction::Drop { responder };
    }
    if !is_leader(id, leader_id) {
        let leader_addr = leader_addr(peers, leader_id);
        let result = ConfChangeResponseResult::WrongLeader { leader_id, leader_addr };
        return ConfChangeAction::Reply { responder, result };
    }
    let seq = registry.register(responder);
    ConfChangeAction::Propose { context: encode_u64(seq) }
}

/// How a committed entry is handled.
#[derive(Clone, Copy, Debug, PartialEq, Eq, Structural)]
pub enum CommittedEntryKind {
    /// No data (an empty entry of a new leader): nothing to apply.
    Skip,
    /// Data for the state machine.
    Normal,
    /// A membership change.
    ConfChange,
}

/// How the committed `entry` is handled.
pub fn committed_entry_kind(entry: &Entry) -> (r: CommittedEntryKind)
    ensures
        entry.data@.len() == 0 ==> r == CommittedEntryKind::Skip,
        entry.data@.len() > 0 && entry.entry_type == EntryType::EntryNormal ==> r == CommittedEntryKind::Normal,
        entry.data@.len() > 0 && entry.entry_type != EntryType::EntryNormal ==> r == CommittedEntryKind::ConfChange,
{
    if entry.data.len() == 0 {
        return CommittedEntryKind::Skip;
    }
    match entry.entry_type {
        EntryType::EntryNormal => CommittedEntryKind::Normal,
        EntryType::EntryConfChange | EntryType::EntryConfChangeV2 => CommittedEntryKind::ConfChange,
    }
}

/// The sequence number that the context of a committed entry carries: the
/// number its first eight bytes encode, least significant first; an
/// `Other` error when there are fewer.
pub fn entry_sequence_number(context: &[u8]) -> (r: Result<u64, Error>)
    ensures
        r is Ok <==> context@.len() >= 8,
        r matches Ok(v) ==> v == le_value(context@),
        r matches Err(e) ==> e is Other,
{
    match decode_u64(context) {
        Ok(seq) => Ok(seq),
        Err(m) => Err(Error::Other(m)),
    }
}

/// The request that waits for a committed normal entry: the one registered
/// under the sequence number in the entry's context. A context that does
/// not hold a sequence number is an error.
pub fn take_normal_entry_responder<T>(registry: &mut ResponseRegistry<T>, context: &[u8]) -> (r: Result<Option<T>, Error>)
    ensures
        final(registry).next() == old(registry).next(),
        context@.len() < 8 ==> (r matches Err(e) && e is Other) && *final(registry) == *old(registry),
        context@.len() >= 8 ==> {
            let seq = le_value(context@);
            &&& final(registry).waiting() == old(registry).waiting().remove(seq)
            &&& r matches Ok(o) && match o {
                Some(t) => old(registry).waiting().contains_key(seq) && t == old(registry).waiting()[seq],
                None => !old(registry).waiting().contains_key(seq),
            }
        },
{
    match decode_u64(context) {
        Ok(seq) => Ok(registry.take(seq)),
        Err(m) => Err(Error::Other(m)),
    }
}

/// The request that waits for a committed membership change: the one
/// registered under the sequence number in the entry's context, or under 0
/// when the context is empty. A context that holds no sequence number is an
/// error.
pub fn take_conf_change_responder<T>(registry: &mut ResponseRegistry<T>, context: &[u8]) -> (r: Result<Option<T>, Error>)
    ensures
        final(registry).next() == old(registry).next(),
        0 < context@.len() < 8 ==> (r matches Err(e) && e is Other) && *final(registry) == *old(registry),
        context@.len() == 0 || context@.len() >= 8 ==> {
            let seq = if context@.len() == 0 { 0 } else { le_value(context@) };
            &&& final(registry).waiting() == old(registry).waiting().remove(seq)
            &&& r matches Ok(o) && match o {
                Some(t) => old(registry).waiting().contains_key(seq) && t == old(registry).waiting()[seq],
                None => !old(registry).waiting().contains_key(seq),
            }
        },
{
    if context.len() == 0 {
        return Ok(registry.take(0));
    }
    take_normal_entry_responder(registry, context)
}

/// The answer to a request for a node id. A follower names the leader; the
/// leader reserves an id and sends it with the known peers.
pub fn handle_request_id(id: u64, leader_id: u64, peers: &Peers) -> (r: RequestIdResponseResult)
    requires
        id != leader_id ==> peers@.contains_key(leader_id),
        id == leader_id ==> forall|k: u64| peers@.contains_key(k) ==> k < u64::MAX,
    ensures
        id != leader_id ==> (r matches RequestIdResponseResult::WrongLeader { leader_id: l, leader_addr: a } && l == leader_id && a@ == peers@[leader_id].addr),
        id == leader_id ==> (r matches RequestIdResponseResult::Success { reserved_id: n, leader_id: l, peers: p } && n == reserved_id(peers@.dom(), id) && l == id && p@ == peers@),
{
    if !is_leader(id, leader_id) {
        let leader_addr = leader_addr(peers, leader_id);
        return RequestIdResponseResult::WrongLeader { leader_id, leader_addr };
    }
    let reserved_id = peers.reserve_peer(id);
    RequestIdResponseResult::Success { reserved_id, leader_id: id, peers: peers.duplicate() }
}

/// Records that node `node_id` is ready for the cluster to start; only the
/// leader of a cluster that waits for its initial members does so.
pub fn handle_member_bootstrap_ready(
    ready: &mut Option<HashMap<u64, bool>>,
    id: u64,
    leader_id: u64,
    node_id: u64,
) -> (r: ResponseResult)
    requires
        id == leader_id,
        *old(ready) is Some,
    ensures
        r is Success,
        *final(ready) matches Some(m) && m@ == old(ready).unwrap()@.insert(node_id, true),
{
    match ready {
        Some(m) => {
            m.insert(node_id, true);
        },
        None => {},
    }
    ResponseResult::Success
}

/// Whether every initial member has said it is ready: there are as many
/// ready marks as members, and all are set.
pub open spec fn spec_all_ready(member_count: nat, ready: Map<u64, bool>) -> bool {
    member_count == ready.len() && forall|k: u64| ready.contains_key(k) ==> ready[k]
}

pub fn all_ready(peers: &Peers, ready: &HashMap<u64, bool>) -> (r: bool)
    ensures
        r == spec_all_ready(peers@.len(), ready@),
{
    if peers.len() != ready.len() {
        return false;
    }
    let ghost mut seen: Set<u64> = Set::empty();
    for kv in it: ready.iter()
        invariant
            peers@.len() == ready@.len(),
            forall|j: int| 0 <= j < it.seq().len() ==> {
                &&& ready@.contains_key(*it.seq()[j].0)
                &&& ready@[*it.seq()[j].0] == *it.seq()[j].1
            },
            forall|k: u64| ready@.contains_key(k) ==> it.seq().contains((&k, &ready@[k])),
            forall|k: u64| seen.contains(k) ==> ready@.contains_key(k) && ready@[k],
            forall|j: int| 0 <= j < it.index() ==> seen.contains(*it.seq()[j].0),
    {
        let (k, v) = kv;
        if !*v {
            return false;
        }
        proof {
            seen = seen.insert(*k);
        }
    }
    proof {
        assert forall|k: u64| ready@.contains_key(k) implies ready@[k] by {
            assert(seen.contains(k));
        }
    }
    true
}

/// The node that starts a cluster has id 1.
pub fn is_cluster_founder(node_id: u64) -> (r: bool)
    ensures
        r == (node_id == 1),
{
    node_id == 1
}

/// Whether a node need not wait for its initial members: when at most one
/// member is given.
pub fn bootstrap_done_for(initial_peers: &Peers) -> (r: bool)
    ensures
        r == (initial_peers@.len() <= 1),
{
    initial_peers.is_empty() || initial_peers.len() <= 1
}

/// The ready marks with which the founder starts: none when no initial
/// member is given, and otherwise the founder itself, ready.
pub fn initial_bootstrap_ready(initial_peers: &Peers) -> (r: Option<HashMap<u64, bool>>)
    ensures
        initial_peers@.is_empty() ==> r is None,
        !initial_peers@.is_empty() ==> (r matches Some(m) && m@ == Map::<u64, bool>::empty().insert(1, true)),
{
    if initial_peers.is_empty() {
        None
    } else {
        let mut m: HashMap<u64, bool> = HashMap::new();
        m.insert(1, true);
        Some(m)
    }
}

/// The snapshot with which the founder's storage starts: index and term 0,
/// with itself as the only voter.
pub fn initial_bootstrap_snapshot() -> (r: Snapshot)
    ensures
        r.data@.len() == 0,
        r.metadata.index == 0,
        r.metadata.term == 0,
        r.metadata.conf_state.voters@ == seq![1u64],
        r.metadata.conf_state.learners@.len() == 0,
        r.metadata.conf_state.voters_outgoing@.len() == 0,
        r.metadata.conf_state.learners_next@.len() == 0,
        !r.metadata.conf_state.auto_leave,
{
    let mut voters: Vec<u64> = Vec::new();
    voters.push(1);
    let mut conf_state = ConfState::default_state();
    conf_state.voters = voters;
    Snapshot { data: Vec::new(), metadata: SnapshotMetadata { conf_state, index: 0, term: 0 } }
}


/// What the node's event loop does next.
#[derive(Clone, Copy, Debug, PartialEq, Eq, Structural)]
pub enum LoopStep {
    /// The node has left or was told to quit: the loop ends.
    Quit,
    /// The cluster has not started yet: check whether it can, then serve.
    WaitForPeers,
    /// Serve the next request, message or tick.
    Serve,
}

/// What the leader of a cluster that waits for its initial members does.
pub enum BootstrapStep {
    /// This node is not the leader: it has nothing to do.
    NotLeader,
    /// Some initial member is not ready yet.
    Waiting,
    /// All are ready: commit their membership, then tell each of these
    /// nodes that the cluster has started.
    Bootstrap { notify: Vec<u64> },
}

/// The flags that steer a node's event loop.
pub struct NodeStatus {
    /// The node has left the cluster or was told to quit.
    pub should_exit: bool,
    /// The cluster has started: messages may be sent to peers.
    pub bootstrap_done: bool,
    /// The ready marks of the initial members, kept by the leader of a
    /// cluster that waits for them.
    pub peers_bootstrap_ready: Option<HashMap<u64, bool>>,
}

impl NodeStatus {
    /// The status of the node that founds a cluster with `initial_peers`.
    pub fn founder(initial_peers: &Peers, bootstrap_done: bool) -> (r: NodeStatus)
        ensures
            !r.should_exit,
            r.bootstrap_done == bootstrap_done,
            initial_peers@.is_empty() ==> r.peers_bootstrap_ready is None,
            !initial_peers@.is_empty() ==> (r.peers_bootstrap_ready matches Some(m) && m@ == Map::<
                u64,
                bool,
            >::empty().insert(1, true)),
    {
        NodeStatus {
            should_exit: false,
            bootstrap_done,
            peers_bootstrap_ready: initial_bootstrap_ready(initial_peers),
        }
    }

    /// The status of a node that joins a cluster: it keeps no ready marks.
    pub fn follower(bootstrap_done: bool) -> (r: NodeStatus)
        ensures
            !r.should_exit,
            r.bootstrap_done == bootstrap_done,
            r.peers_bootstrap_ready is None,
    {
        NodeStatus { should_exit: false, bootstrap_done, peers_bootstrap_ready: None }
    }

    /// What the event loop does next: it ends once the node should exit,
    /// and waits for the initial members until the cluster has started.
    pub fn loop_step(&self) -> (r: LoopStep)
        ensures
            self.should_exit ==> r == LoopStep::Quit,
            !self.should_exit && !self.bootstrap_done ==> r == LoopStep::WaitForPeers,
            !self.should_exit && self.bootstrap_done ==> r == LoopStep::Serve,
    {
        if self.should_exit {
            LoopStep::Quit
        } else if !self.bootstrap_done {
            LoopStep::WaitForPeers
        } else {
            LoopStep::Serve
        }
    }

    /// The node was told to quit.
    pub fn quit(&mut self)
        ensures
            final(self).should_exit,
            final(self).bootstrap_done == old(self).bootstrap_done,
            final(self).peers_bootstrap_ready == old(self).peers_bootstrap_ready,
    {
        self.should_exit = true;
    }

    /// A committed membership change was applied; `leaving` says whether
    /// it removed this node.
    pub fn membership_applied(&mut self, leaving: bool)
        ensures
            final(self).should_exit == (old(self).should_exit || leaving),
            final(self).bootstrap_done == old(self).bootstrap_done,
            final(self).peers_bootstrap_ready == old(self).peers_bootstrap_ready,
    {
        if leaving {
            self.should_exit = true;
        }
    }

    /// The leader tells this node that the cluster has started.
    pub fn cluster_bootstrap_ready(&mut self) -> (r: ResponseResult)
        ensures
            r is Success,
            final(self).bootstrap_done,
            final(self).should_exit == old(self).should_exit,
            final(self).peers_bootstrap_ready == old(self).peers_bootstrap_ready,
    {
        self.bootstrap_done = true;
        ResponseResult::Success
    }

    /// Node `node_id` tells the leader that it is ready.
    pub fn member_bootstrap_ready(&mut self, id: u64, leader_id: u64, node_id: u64) -> (r: ResponseResult)
        requires
            id == leader_id,
            old(self).peers_bootstrap_ready is Some,
        ensures
            r is Success,
            final(self).peers_bootstrap_ready matches Some(m) && m@ == old(
                self,
            ).peers_bootstrap_ready.unwrap()@.insert(node_id, true),
            final(self).should_exit == old(self).should_exit,
            final(self).bootstrap_done == old(self).bootstrap_done,
    {
        handle_member_bootstrap_ready(&mut self.peers_bootstrap_ready, id, leader_id, node_id)
    }

    /// What the node does while the cluster waits for its initial members.
    /// A follower does nothing; the leader waits until every member is
    /// ready, and then starts the cluster and notifies every member but
    /// itself (node 1).
    pub fn bootstrap_step(&self, id: u64, leader_id: u64, peers: &Peers) -> (r: BootstrapStep)
        requires
            id == leader_id ==> self.peers_bootstrap_ready is Some,
        ensures
            id != leader_id ==> r is NotLeader,
            id == leader_id ==> {
                let ready = self.peers_bootstrap_ready.unwrap()@;
                &&& !spec_all_ready(peers@.len(), ready) ==> r is Waiting
                &&& spec_all_ready(peers@.len(), ready) ==> (r matches BootstrapStep::Bootstrap {
                    notify,
                } && notify@.no_duplicates() && notify@.to_set() == ready.dom().remove(1))
            },
    {
        if !is_leader(id, leader_id) {
            return BootstrapStep::NotLeader;
        }
        match &self.peers_bootstrap_ready {
            Some(ready) => {
                if !all_ready(peers, ready) {
                    BootstrapStep::Waiting
                } else {
                    BootstrapStep::Bootstrap { notify: keys_except(ready, 1) }
                }
            },
            None => {
                assert(false);
                BootstrapStep::NotLeader
            },
        }
    }

    /// Whether messages may be sent to peers: only once the cluster has
    /// started.
    pub fn may_send_messages(&self) -> (r: bool)
        ensures
            r == self.bootstrap_done,
    {
        self.bootstrap_done
    }

    /// The leader has started the cluster.
    pub fn bootstrapped(&mut self)
        ensures
            final(self).bootstrap_done,
            final(self).should_exit == old(self).should_exit,
            final(self).peers_bootstrap_ready == old(self).peers_bootstrap_ready,
    {
        self.bootstrap_done = true;
    }
}

/// The change by which the founder `self_id` makes every other initial
/// member a voter: one `AddNode` per member, each member once, with the
/// automatic transition and no context.
pub fn bootstrap_conf_change(peers: &Peers, self_id: u64) -> (r: ConfChangeV2)
    ensures
        r.transition == ConfChangeTransition::Auto,
        r.context@.len() == 0,
        forall|i: int| 0 <= i < r.changes@.len() ==> (#[trigger] r.changes@[i]).change_type
            == ConfChangeType::AddNode,
        r.changes@.map_values(|c: ConfChangeSingle| c.node_id).no_duplicates(),
        r.changes@.map_values(|c: ConfChangeSingle| c.node_id).to_set() == peers@.dom().remove(self_id),
{
    let ids = keys_except(&peers.inner, self_id);
    assert(peers.inner@.dom() == peers@.dom());
    let mut changes: Vec<ConfChangeSingle> = Vec::new();
    let mut i: usize = 0;
    while i < ids.len()
        invariant
            i <= ids.len(),
            changes@.len() == i,
            forall|k: int| 0 <= k < i ==> (#[trigger] changes@[k]) == (ConfChangeSingle {
                change_type: ConfChangeType::AddNode,
                node_id: ids@[k],
            }),
        decreases ids.len() - i,
    {
        changes.push(ConfChangeSingle { change_type: ConfChangeType::AddNode, node_id: ids[i] });
        i = i + 1;
    }
    assert(changes@.map_values(|c: ConfChangeSingle| c.node_id) =~= ids@);
    ConfChangeV2 { transition: ConfChangeTransition::Auto, changes, context: Vec::new() }
}

/// The keys of `ready`, but for `skip`, each once.
fn keys_except<V>(ready: &HashMap<u64, V>, skip: u64) -> (r: Vec<u64>)
    ensures
        r@.no_duplicates(),
        r@.to_set() == ready@.dom().remove(skip),
{
    let mut out: Vec<u64> = Vec::new();
    let ghost mut seen: Set<u64> = Set::empty();
    for k in it: ready.keys()
        invariant
            it.seq().no_duplicates(),
            it.seq().unref().to_set() == ready@.dom(),
            forall|j: int| 0 <= j < it.index() ==> seen.contains(*#[trigger] it.seq()[j]),
            forall|x: u64| seen.contains(x) ==> exists|j: int| 0 <= j < it.index() && *it.seq()[j] == x,
            out@.no_duplicates(),
            forall|x: u64| out@.contains(x) <==> (seen.contains(x) && x != skip),
            forall|x: u64| seen.contains(x) ==> ready@.dom().contains(x),
    {
        let ghost i = it.index();
        let ghost old_out = out@;
        proof {
            assert(it.seq().unref()[i] == *k);
            assert(it.seq().unref().contains(*k));
            assert(it.seq().unref().to_set().contains(*k));
        }
        if *k != skip {
            proof {
                if seen.contains(*k) {
                    let j = choose|j: int| 0 <= j < i && *it.seq()[j] == *k;
                    assert(it.seq()[j] == it.seq()[i]);
                }
            }
            out.push(*k);
        }
        proof {
            let ghost old_seen = seen;
            seen = seen.insert(*k);
            assert forall|x: u64| out@.contains(x) <==> (seen.contains(x) && x != skip) by {
                assert(old_out.contains(x) <==> (old_seen.contains(x) && x != skip));
                if *k == skip {
                    assert(out@ == old_out);
                } else {
                    assert(out@ == old_out.push(*k));
                    if old_out.contains(x) {
                        let j = choose|j: int| 0 <= j < old_out.len() && old_out[j] == x;
                        assert(out@[j] == x);
                    }
                    if out@.contains(x) {
                        let j = choose|j: int| 0 <= j < out@.len() && out@[j] == x;
                        if j < old_out.len() {
                            assert(old_out[j] == x);
                        }
                    }
                    if x == *k {
                        assert(out@[old_out.len() as int] == x);
                    }
                }
            }
            assert forall|x: u64| seen.contains(x) implies exists|j: int| 0 <= j < i + 1 && *it.seq()[j] == x by {
                if x == *k {
                    assert(*it.seq()[i] == x);
                } else {
                    let j = choose|j: int| 0 <= j < i && *it.seq()[j] == x;
                    assert(*it.seq()[j] == x);
                }
            }
        }
    }
    proof {
        assert forall|x: u64| ready@.dom().contains(x) implies seen.contains(x) by {}
        assert forall|x: u64| #[trigger] out@.to_set().contains(x) <==> ready@.dom().remove(skip).contains(x) by {
            assert(out@.to_set().contains(x) <==> out@.contains(x));
            assert(out@.contains(x) <==> (seen.contains(x) && x != skip));
            assert(ready@.dom().contains(x) ==> seen.contains(x));
            assert(seen.contains(x) ==> ready@.dom().contains(x));
        }
        assert(out@.to_set() =~= ready@.dom().remove(skip));
    }
    out
}

/// The steps of handling what Raft has made ready, in the order taken.
#[derive(Clone, Copy, Debug, PartialEq, Eq, Structural)]
pub enum ReadyStep {
    /// Send the messages to the peers.
    SendMessages,
    /// Restore the state machine from the snapshot's data.
    RestoreStateMachine,
    /// Apply the snapshot to the storage.
    ApplySnapshot,
    /// Apply the committed entries.
    ApplyCommittedEntries,
    /// Append the new entries to the storage.
    AppendEntries,
    /// Persist the hard state.
    SetHardState,
    /// Send the messages that wait for the entries to be persisted.
    SendPersistedMessages,
    /// Persist the new commit index.
    SetCommit,
    /// Tell Raft that the committed entries are applied.
    AdvanceApply,
}

/// What a `Ready` holds, as far as its handling depends on it.
#[derive(Clone, Copy, Debug, PartialEq, Eq, Structural)]
pub struct ReadyContents {
    pub has_messages: bool,
    /// The snapshot is not the empty one.
    pub has_snapshot: bool,
    pub snapshot_has_data: bool,
    pub has_entries: bool,
    pub has_hard_state: bool,
    pub has_persisted_messages: bool,
}

/// What the `LightReady` that follows holds.
#[derive(Clone, Copy, Debug, PartialEq, Eq, Structural)]
pub struct LightReadyContents {
    pub has_commit_index: bool,
    pub has_messages: bool,
}

pub open spec fn step_if(b: bool, s: ReadyStep) -> Seq<ReadyStep> {
    if b {
        seq![s]
    } else {
        Seq::empty()
    }
}

/// Handling a `Ready`: send its messages; restore the state machine from a
/// snapshot with data and apply the snapshot; apply the committed entries;
/// persist the new entries and the hard state; send the messages that
/// waited for them.
pub open spec fn spec_ready_steps(c: ReadyContents) -> Seq<ReadyStep> {
    step_if(c.has_messages, ReadyStep::SendMessages) + step_if(
        c.has_snapshot && c.snapshot_has_data,
        ReadyStep::RestoreStateMachine,
    ) + step_if(c.has_snapshot, ReadyStep::ApplySnapshot) + seq![ReadyStep::ApplyCommittedEntries]
        + step_if(c.has_entries, ReadyStep::AppendEntries) + step_if(
        c.has_hard_state,
        ReadyStep::SetHardState,
    ) + step_if(c.has_persisted_messages, ReadyStep::SendPersistedMessages)
}

/// Handling the `LightReady`: persist the commit index, send its messages,
/// apply its committed entries, and report them applied.
pub open spec fn spec_light_ready_steps(c: LightReadyContents) -> Seq<ReadyStep> {
    step_if(c.has_commit_index, ReadyStep::SetCommit) + step_if(c.has_messages, ReadyStep::SendMessages)
        + seq![ReadyStep::ApplyCommittedEntries, ReadyStep::AdvanceApply]
}

fn push_if(steps: &mut Vec<ReadyStep>, b: bool, s: ReadyStep)
    ensures
        final(steps)@ == old(steps)@ + step_if(b, s),
{
    if b {
        steps.push(s);
    }
    assert(final(steps)@ =~= old(steps)@ + step_if(b, s));
}

/// The steps of handling a `Ready` with these contents.
pub fn ready_steps(c: ReadyContents) -> (r: Vec<ReadyStep>)
    ensures
        r@ == spec_ready_steps(c),
        r@.contains(ReadyStep::SendMessages) <==> c.has_messages,
        r@.contains(ReadyStep::RestoreStateMachine) <==> c.has_snapshot && c.snapshot_has_data,
        r@.contains(ReadyStep::ApplySnapshot) <==> c.has_snapshot,
        r@.contains(ReadyStep::ApplyCommittedEntries),
        r@.contains(ReadyStep::AppendEntries) <==> c.has_entries,
        r@.contains(ReadyStep::SetHardState) <==> c.has_hard_state,
        r@.contains(ReadyStep::SendPersistedMessages) <==> c.has_persisted_messages,
        !r@.contains(ReadyStep::SetCommit),
        !r@.contains(ReadyStep::AdvanceApply),
{
    proof {
        law_ready_steps_contents(c);
    }
    let mut steps: Vec<ReadyStep> = Vec::new();
    push_if(&mut steps, c.has_messages, ReadyStep::SendMessages);
    push_if(&mut steps, c.has_snapshot && c.snapshot_has_data, ReadyStep::RestoreStateMachine);
    push_if(&mut steps, c.has_snapshot, ReadyStep::ApplySnapshot);
    push_if(&mut steps, true, ReadyStep::ApplyCommittedEntries);
    push_if(&mut steps, c.has_entries, ReadyStep::AppendEntries);
    push_if(&mut steps, c.has_hard_state, ReadyStep::SetHardState);
    push_if(&mut steps, c.has_persisted_messages, ReadyStep::SendPersistedMessages);
    assert(steps@ =~= spec_ready_steps(c));
    steps
}

/// The steps of handling a `LightReady` with these contents.
pub fn light_ready_steps(c: LightReadyContents) -> (r: Vec<ReadyStep>)
    ensures
        r@ == spec_light_ready_steps(c),
        r@.contains(ReadyStep::SetCommit) <==> c.has_commit_index,
        r@.contains(ReadyStep::SendMessages) <==> c.has_messages,
        r@.contains(ReadyStep::ApplyCommittedEntries),
        r@.last() == ReadyStep::AdvanceApply,
        c.has_commit_index ==> r@[0] == ReadyStep::SetCommit,
{
    proof {
        law_light_ready_steps_contents(c);
    }
    let mut steps: Vec<ReadyStep> = Vec::new();
    push_if(&mut steps, c.has_commit_index, ReadyStep::SetCommit);
    push_if(&mut steps, c.has_messages, ReadyStep::SendMessages);
    steps.push(ReadyStep::ApplyCommittedEntries);
    steps.push(ReadyStep::AdvanceApply);
    assert(steps@ =~= spec_light_ready_steps(c));
    steps
}

proof fn lemma_add_contains(x: Seq<ReadyStep>, y: Seq<ReadyStep>, v: ReadyStep)
    ensures
        (x + y).contains(v) <==> x.contains(v) || y.contains(v),
{
    if (x + y).contains(v) {
        let i = choose|i: int| 0 <= i < (x + y).len() && (x + y)[i] == v;
        if i >= x.len() {
            assert(y[i - x.len()] == v);
        }
    }
    if x.contains(v) {
        let i = choose|i: int| 0 <= i < x.len() && x[i] == v;
        assert((x + y)[i] == v);
    }
    if y.contains(v) {
        let i = choose|i: int| 0 <= i < y.len() && y[i] == v;
        assert((x + y)[x.len() + i] == v);
    }
}

proof fn lemma_step_if_contains(b: bool, s: ReadyStep, v: ReadyStep)
    ensures
        step_if(b, s).contains(v) <==> (b && s == v),
{
    if b && s == v {
        assert(step_if(b, s)[0] == v);
    }
}

/// What handling a `Ready` does, step by step: it sends the messages
/// exactly when there are some; restores the state machine exactly when
/// there is a snapshot with data; applies a snapshot exactly when there is
/// one; always applies the committed entries; appends entries to the
/// storage exactly when there are new ones, whatever the hard state;
/// persists the hard state exactly when it changed; sends the messages that
/// wait for persistence exactly when there are some. It never persists a
/// commit index or reports entries applied: those belong to the
/// `LightReady`.
pub proof fn law_ready_steps_contents(c: ReadyContents)
    ensures
        spec_ready_steps(c).contains(ReadyStep::SendMessages) <==> c.has_messages,
        spec_ready_steps(c).contains(ReadyStep::RestoreStateMachine) <==> c.has_snapshot
            && c.snapshot_has_data,
        spec_ready_steps(c).contains(ReadyStep::ApplySnapshot) <==> c.has_snapshot,
        spec_ready_steps(c).contains(ReadyStep::ApplyCommittedEntries),
        spec_ready_steps(c).contains(ReadyStep::AppendEntries) <==> c.has_entries,
        spec_ready_steps(c).contains(ReadyStep::SetHardState) <==> c.has_hard_state,
        spec_ready_steps(c).contains(ReadyStep::SendPersistedMessages) <==> c.has_persisted_messages,
        !spec_ready_steps(c).contains(ReadyStep::SetCommit),
        !spec_ready_steps(c).contains(ReadyStep::AdvanceApply),
{
    lemma_ready_contains(c, ReadyStep::SendMessages);
    lemma_ready_contains(c, ReadyStep::RestoreStateMachine);
    lemma_ready_contains(c, ReadyStep::ApplySnapshot);
    lemma_ready_contains(c, ReadyStep::ApplyCommittedEntries);
    lemma_ready_contains(c, ReadyStep::AppendEntries);
    lemma_ready_contains(c, ReadyStep::SetHardState);
    lemma_ready_contains(c, ReadyStep::SendPersistedMessages);
    lemma_ready_contains(c, ReadyStep::SetCommit);
    lemma_ready_contains(c, ReadyStep::AdvanceApply);
}

proof fn lemma_ready_contains(c: ReadyContents, v: ReadyStep)
    ensures
        spec_ready_steps(c).contains(v) <==> {
            ||| v == ReadyStep::SendMessages && c.has_messages
            ||| v == ReadyStep::RestoreStateMachine && c.has_snapshot && c.snapshot_has_data
            ||| v == ReadyStep::ApplySnapshot && c.has_snapshot
            ||| v == ReadyStep::ApplyCommittedEntries
            ||| v == ReadyStep::AppendEntries && c.has_entries
            ||| v == ReadyStep::SetHardState && c.has_hard_state
            ||| v == ReadyStep::SendPersistedMessages && c.has_persisted_messages
        },
{
    let a = step_if(c.has_messages, ReadyStep::SendMessages);
    let b = step_if(c.has_snapshot && c.snapshot_has_data, ReadyStep::RestoreStateMachine);
    let d = step_if(c.has_snapshot, ReadyStep::ApplySnapshot);
    let e = seq![ReadyStep::ApplyCommittedEntries];
    let f = step_if(c.has_entries, ReadyStep::AppendEntries);
    let g = step_if(c.has_hard_state, ReadyStep::SetHardState);
    let h = step_if(c.has_persisted_messages, ReadyStep::SendPersistedMessages);
    assert(spec_ready_steps(c) == a + b + d + e + f + g + h);
    lemma_add_contains(a, b, v);
    lemma_add_contains(a + b, d, v);
    lemma_add_contains(a + b + d, e, v);
    lemma_add_contains(a + b + d + e, f, v);
    lemma_add_contains(a + b + d + e + f, g, v);
    lemma_add_contains(a + b + d + e + f + g, h, v);
    lemma_step_if_contains(c.has_messages, ReadyStep::SendMessages, v);
    lemma_step_if_contains(c.has_snapshot && c.snapshot_has_data, ReadyStep::RestoreStateMachine, v);
    lemma_step_if_contains(c.has_snapshot, ReadyStep::ApplySnapshot, v);
    lemma_step_if_contains(true, ReadyStep::ApplyCommittedEntries, v);
    assert(e == step_if(true, ReadyStep::ApplyCommittedEntries));
    lemma_step_if_contains(c.has_entries, ReadyStep::AppendEntries, v);
    lemma_step_if_contains(c.has_hard_state, ReadyStep::SetHardState, v);
    lemma_step_if_contains(c.has_persisted_messages, ReadyStep::SendPersistedMessages, v);
}

/// What handling the `LightReady` does: it persists the new commit index
/// exactly when there is one, whether or not there are messages; sends the
/// messages exactly when there are some; always applies the committed
/// entries and then, last, reports them applied.
pub proof fn law_light_ready_steps_contents(c: LightReadyContents)
    ensures
        spec_light_ready_steps(c).contains(ReadyStep::SetCommit) <==> c.has_commit_index,
        spec_light_ready_steps(c).contains(ReadyStep::SendMessages) <==> c.has_messages,
        spec_light_ready_steps(c).contains(ReadyStep::ApplyCommittedEntries),
        spec_light_ready_steps(c).last() == ReadyStep::AdvanceApply,
        c.has_commit_index ==> spec_light_ready_steps(c)[0] == ReadyStep::SetCommit,
        forall|v: ReadyStep|
            v != ReadyStep::SetCommit && v != ReadyStep::SendMessages && v
                != ReadyStep::ApplyCommittedEntries && v != ReadyStep::AdvanceApply
                ==> !spec_light_ready_steps(c).contains(v),
{
    lemma_light_contains(c, ReadyStep::SetCommit);
    lemma_light_contains(c, ReadyStep::SendMessages);
    lemma_light_contains(c, ReadyStep::ApplyCommittedEntries);
    assert forall|v: ReadyStep|
        v != ReadyStep::SetCommit && v != ReadyStep::SendMessages && v
            != ReadyStep::ApplyCommittedEntries && v != ReadyStep::AdvanceApply
            implies !spec_light_ready_steps(c).contains(v) by {
        lemma_light_contains(c, v);
    }
}

proof fn lemma_light_contains(c: LightReadyContents, v: ReadyStep)
    ensures
        spec_light_ready_steps(c).contains(v) <==> {
            ||| v == ReadyStep::SetCommit && c.has_commit_index
            ||| v == ReadyStep::SendMessages && c.has_messages
            ||| v == ReadyStep::ApplyCommittedEntries
            ||| v == ReadyStep::AdvanceApply
        },
{
    let a = step_if(c.has_commit_index, ReadyStep::SetCommit);
    let b = step_if(c.has_messages, ReadyStep::SendMessages);
    let e1 = step_if(true, ReadyStep::ApplyCommittedEntries);
    let e2 = step_if(true, ReadyStep::AdvanceApply);
    assert(spec_light_ready_steps(c) == a + b + e1 + e2);
    lemma_add_contains(a, b, v);
    lemma_add_contains(a + b, e1, v);
    lemma_add_contains(a + b + e1, e2, v);
    lemma_step_if_contains(c.has_commit_index, ReadyStep::SetCommit, v);
    lemma_step_if_contains(c.has_messages, ReadyStep::SendMessages, v);
    lemma_step_if_contains(true, ReadyStep::ApplyCommittedEntries, v);
    lemma_step_if_contains(true, ReadyStep::AdvanceApply, v);
}

/// The position of a step in the order in which a `Ready` is handled.
pub open spec fn ready_rank(s: ReadyStep) -> int {
    match s {
        ReadyStep::SendMessages => 0,
        ReadyStep::RestoreStateMachine => 1,
        ReadyStep::ApplySnapshot => 2,
        ReadyStep::ApplyCommittedEntries => 3,
        ReadyStep::AppendEntries => 4,
        ReadyStep::SetHardState => 5,
        ReadyStep::SendPersistedMessages => 6,
        ReadyStep::SetCommit => 7,
        ReadyStep::AdvanceApply => 8,
    }
}

/// A `Ready` is handled in one fixed order, each step at most once: the
/// state machine is restored before the snapshot is applied, the committed
/// entries are always applied, after any snapshot, and the messages that
/// wait for persistence are sent after the new entries and the hard state
/// are stored.
#[verifier::spinoff_prover]
#[verifier::rlimit(50)]
pub proof fn law_ready_order(c: ReadyContents)
    ensures
        forall|i: int, j: int|
            0 <= i < j < spec_ready_steps(c).len() ==> ready_rank(spec_ready_steps(c)[i])
                < ready_rank(spec_ready_steps(c)[j]),
        spec_ready_steps(c).contains(ReadyStep::ApplyCommittedEntries),
        spec_ready_steps(c).contains(ReadyStep::RestoreStateMachine) ==> spec_ready_steps(
            c,
        ).contains(ReadyStep::ApplySnapshot),
{
    let a = step_if(c.has_messages, ReadyStep::SendMessages);
    let b = step_if(c.has_snapshot && c.snapshot_has_data, ReadyStep::RestoreStateMachine);
    let d = step_if(c.has_snapshot, ReadyStep::ApplySnapshot);
    let e = seq![ReadyStep::ApplyCommittedEntries];
    let f = step_if(c.has_entries, ReadyStep::AppendEntries);
    let g = step_if(c.has_hard_state, ReadyStep::SetHardState);
    let h = step_if(c.has_persisted_messages, ReadyStep::SendPersistedMessages);
    let s = spec_ready_steps(c);
    assert(s == a + b + d + e + f + g + h);
    // Each part holds at most one step, of the rank of the part's place.
    assert forall|i: int, j: int| 0 <= i < j < s.len() implies ready_rank(s[i]) < ready_rank(s[j]) by {
        let la = a.len() as int;
        let lb = la + b.len();
        let ld = lb + d.len();
        let le = ld + 1;
        let lf = le + f.len();
        let lg = lf + g.len();
        assert(s.len() == lg + h.len());
        assert(forall|k: int| 0 <= k < la ==> s[k] == a[k]);
        assert(forall|k: int| la <= k < lb ==> s[k] == b[k - la]);
        assert(forall|k: int| lb <= k < ld ==> s[k] == d[k - lb]);
        assert(s[ld] == ReadyStep::ApplyCommittedEntries);
        assert(forall|k: int| le <= k < lf ==> s[k] == f[k - le]);
        assert(forall|k: int| lf <= k < lg ==> s[k] == g[k - lf]);
        assert(forall|k: int| lg <= k < s.len() ==> s[k] == h[k - lg]);
    }
    let ld = a.len() + b.len() + d.len();
    assert(s[ld as int] == ReadyStep::ApplyCommittedEntries);
    if s.contains(ReadyStep::RestoreStateMachine) {
        assert(c.has_snapshot);
        assert(s[(a.len() + b.len()) as int] == ReadyStep::ApplySnapshot);
    }
}

/// A request is registered under a number that no waiting request holds,
/// and registering keeps every waiting number below the next one, as long
/// as the counter has not reached `u64::MAX`.
pub proof fn law_sequence_numbers_are_fresh<T>(
    before: ResponseRegistry<T>,
    after: ResponseRegistry<T>,
    seq: u64,
    responder: T,
)
    requires
        before.wf(),
        before.next() < u64::MAX,
        seq == before.next(),
        after.next() == before.next() + 1,
        after.waiting() == before.waiting().insert(seq, responder),
    ensures
        !before.waiting().contains_key(seq),
        after.wf(),
{
}

/// The request whose proposal is committed is the one that made it: the
/// context of the proposed entry decodes to the number under which the
/// request was registered, and that number leads back to the request.
pub proof fn law_commit_answers_the_proposer<T>(
    before: ResponseRegistry<T>,
    after: ResponseRegistry<T>,
    context: Seq<u8>,
    responder: T,
)
    requires
        context == le_bytes(before.next()),
        after.waiting() == before.waiting().insert(before.next(), responder),
    ensures
        context.len() >= 8,
        le_value(context) == before.next(),
        after.waiting().contains_key(le_value(context)),
        after.waiting()[le_value(context)] == responder,
{
    crate::codec::law_u64_round_trip(before.next());
}

} // verus!

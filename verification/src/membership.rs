//! Membership changes: building them, applying committed ones to the known
//! peers, and the answer given to the node that asked for one.
use crate::error::Error;
use crate::messages::ConfChangeResponseResult;
use crate::peers::{PeerState, PeerView, Peers};
use crate::types::{
    ConfChange, ConfChangeSingle, ConfChangeTransition, ConfChangeType, ConfChangeV2, ConfChangeV2View,
    ConfChangeView, EntryType,
};
use jopemachine_raft::eraftpb;
use jopemachine_raft::eraftpb::{ConfChangeTransition as T, ConfChangeType as K};
use vstd::prelude::*;

verus! {

/// What protobuf decodes from `data` as a `ConfChange` message
/// (`protobuf::Message::parse_from_bytes`), or nothing where `data` is not
/// the encoding of one.
pub uninterp spec fn conf_change_of(data: Seq<u8>) -> Option<ConfChangeView>;

/// What protobuf decodes from `data` as a `ConfChangeV2` message
/// (`protobuf::Message::parse_from_bytes`), or nothing where `data` is not
/// the encoding of one.
pub uninterp spec fn conf_change_v2_of(data: Seq<u8>) -> Option<ConfChangeV2View>;

/// `protobuf::Message::parse_from_bytes` of a raft-rs `ConfChange`, its
/// fields converted one by one; on failure, the text of protobuf's error.
/// The contract ties success and the decoded change to the name
/// `conf_change_of`; the error's text is left unsaid.
#[verifier::external_body]
fn decode_conf_change(data: &[u8]) -> (r: Result<ConfChange, String>)
    ensures
        r is Ok <==> conf_change_of(data@) is Some,
        r matches Ok(c) ==> conf_change_of(data@) == Some(c@),
{
    match <eraftpb::ConfChange as protobuf::Message>::parse_from_bytes(data) {
        Ok(c) => Ok(ConfChange {
            change_type: match c.get_change_type() {
                K::AddNode => ConfChangeType::AddNode, K::RemoveNode => ConfChangeType::RemoveNode,
                K::AddLearnerNode => ConfChangeType::AddLearnerNode,
            },
            node_id: c.node_id, context: c.context.to_vec(), id: c.id,
        }),
        Err(e) => Err(e.to_string()),
    }
}

/// `protobuf::Message::parse_from_bytes` of a raft-rs `ConfChangeV2`, its
/// fields converted one by one; on failure, the text of protobuf's error.
/// The contract ties success and the decoded change to the name
/// `conf_change_v2_of`; the error's text is left unsaid.
#[verifier::external_body]
fn decode_conf_change_v2(data: &[u8]) -> (r: Result<ConfChangeV2, String>)
    ensures
        r is Ok <==> conf_change_v2_of(data@) is Some,
        r matches Ok(c) ==> conf_change_v2_of(data@) == Some(c@),
{
    match <eraftpb::ConfChangeV2 as protobuf::Message>::parse_from_bytes(data) {
        Ok(c) => Ok(ConfChangeV2 {
            transition: match c.get_transition() {
                T::Auto => ConfChangeTransition::Auto, T::Implicit => ConfChangeTransition::Implicit,
                T::Explicit => ConfChangeTransition::Explicit,
            },
            changes: c.get_changes().iter().map(|s| ConfChangeSingle { node_id: s.node_id, change_type: match s.get_change_type() {
                K::AddNode => ConfChangeType::AddNode, K::RemoveNode => ConfChangeType::RemoveNode,
                K::AddLearnerNode => ConfChangeType::AddLearnerNode,
            } }).collect(),
            context: c.context.to_vec(),
        }),
        Err(e) => Err(e.to_string()),
    }
}

/// A change of one node in the form that changes any number of nodes.
pub open spec fn v2_of(c: ConfChangeView) -> ConfChangeV2View {
    ConfChangeV2View {
        transition: ConfChangeTransition::Auto,
        changes: seq![ConfChangeSingle { change_type: c.change_type, node_id: c.node_id }],
        context: c.context,
    }
}

/// The membership change that a committed entry of type `entry_type`
/// carries in `data`: an `EntryConfChangeV2` holds it as is; an
/// `EntryConfChange` holds a change of one node, which is put in the form
/// that changes any number of nodes. Bytes that do not decode are an
/// `Other` error with protobuf's text.
pub fn decode_committed_conf_change(entry_type: EntryType, data: &[u8]) -> (r: Result<
    ConfChangeV2,
    Error,
>)
    requires
        entry_type != EntryType::EntryNormal,
    ensures
        entry_type == EntryType::EntryConfChangeV2 ==> {
            &&& (r is Ok <==> conf_change_v2_of(data@) is Some)
            &&& r matches Ok(c) ==> conf_change_v2_of(data@) == Some(c@)
        },
        entry_type == EntryType::EntryConfChange ==> {
            &&& (r is Ok <==> conf_change_of(data@) is Some)
            &&& r matches Ok(c) ==> c@ == v2_of(conf_change_of(data@).unwrap())
        },
        r matches Err(e) ==> e is Other,
{
    match entry_type {
        EntryType::EntryConfChangeV2 => match decode_conf_change_v2(data) {
            Ok(c) => Ok(c),
            Err(m) => Err(Error::Other(m)),
        },
        _ => match decode_conf_change(data) {
            Ok(c) => {
                let v2 = to_confchange_v2(c);
                proof {
                    assert(v2.changes@ =~= v2_of(conf_change_of(data@).unwrap()).changes);
                }
                Ok(v2)
            },
            Err(m) => Err(Error::Other(m)),
        },
    }
}

/// A membership change of one node in the form that changes any number of
/// nodes: one operation on the same node, the same context, the automatic
/// transition.
pub fn to_confchange_v2(conf_change: ConfChange) -> (r: ConfChangeV2)
    ensures
        r.transition == ConfChangeTransition::Auto,
        r.changes@ == seq![
            ConfChangeSingle { change_type: conf_change.change_type, node_id: conf_change.node_id },
        ],
        r.context@ == conf_change.context@,
{
    let cs = ConfChangeSingle { change_type: conf_change.change_type, node_id: conf_change.node_id };
    let mut changes: Vec<ConfChangeSingle> = Vec::new();
    changes.push(cs);
    ConfChangeV2 { transition: ConfChangeTransition::Auto, changes, context: conf_change.context }
}

/// The change by which node `node_id` leaves the cluster; `context` carries
/// its address.
pub fn leave_conf_change(node_id: u64, context: Vec<u8>) -> (r: ConfChangeV2)
    ensures
        r.transition == ConfChangeTransition::Auto,
        r.changes@ == seq![ConfChangeSingle { change_type: ConfChangeType::RemoveNode, node_id }],
        r.context@ == context@,
{
    to_confchange_v2(ConfChange { change_type: ConfChangeType::RemoveNode, node_id, context, id: 0 })
}

/// The change by which node `reserved_id` joins the cluster; `context`
/// carries its address.
pub fn join_conf_change(reserved_id: u64, context: Vec<u8>) -> (r: ConfChangeV2)
    ensures
        r.transition == ConfChangeTransition::Auto,
        r.changes@ == seq![
            ConfChangeSingle { change_type: ConfChangeType::AddNode, node_id: reserved_id },
        ],
        r.context@ == context@,
{
    let mut changes: Vec<ConfChangeSingle> = Vec::new();
    changes.push(ConfChangeSingle { change_type: ConfChangeType::AddNode, node_id: reserved_id });
    ConfChangeV2 { transition: ConfChangeTransition::Auto, changes, context }
}

pub open spec fn is_addition(c: ConfChangeSingle) -> bool {
    c.change_type == ConfChangeType::AddNode || c.change_type == ConfChangeType::AddLearnerNode
}

/// The known peers after one committed change, and whether this node has
/// been removed: an added node is recorded at `addr`, a removed node is
/// forgotten, and the removal of this node itself marks it as leaving.
pub open spec fn change_effect(
    peers: Map<u64, PeerView>,
    leaving: bool,
    self_id: u64,
    c: ConfChangeSingle,
    addr: Seq<char>,
) -> (Map<u64, PeerView>, bool) {
    if is_addition(c) {
        (peers.insert(c.node_id, PeerView { addr, state: PeerState::Preparing }), leaving)
    } else if c.node_id == self_id {
        (peers, true)
    } else {
        (peers.remove(c.node_id), leaving)
    }
}

/// The known peers after the changes, in order, and whether this node has
/// been removed; the `i`-th change is given the `i`-th address.
pub open spec fn membership_after(
    peers: Map<u64, PeerView>,
    self_id: u64,
    changes: Seq<ConfChangeSingle>,
    addrs: Seq<Seq<char>>,
) -> (Map<u64, PeerView>, bool)
    decreases changes.len(),
{
    if changes.len() == 0 {
        (peers, false)
    } else {
        let (p, leaving) = membership_after(peers, self_id, changes.drop_last(), addrs);
        change_effect(p, leaving, self_id, changes.last(), addrs[changes.len() - 1])
    }
}

pub open spec fn addrs_view(addrs: Seq<String>) -> Seq<Seq<char>> {
    addrs.map_values(|a: String| a@)
}

/// Every added node has an address.
pub open spec fn addresses_cover(changes: Seq<ConfChangeSingle>, addrs: Seq<String>) -> bool {
    forall|i: int| 0 <= i < changes.len() && is_addition(#[trigger] changes[i]) ==> i < addrs.len()
}

/// Applies committed membership changes to the known peers, in order; the
/// address of the `i`-th change is `addrs[i]`. Returns whether this node
/// (`self_id`) has been removed.
pub fn apply_membership_changes(
    peers: &mut Peers,
    self_id: u64,
    changes: &[ConfChangeSingle],
    addrs: &[String],
) -> (leaving: bool)
    requires
        addresses_cover(changes@, addrs@),
    ensures
        (final(peers)@, leaving) == membership_after(old(peers)@, self_id, changes@, addrs_view(addrs@)),
        leaving <==> exists|i: int|
            0 <= i < changes@.len() && (#[trigger] changes@[i]).change_type == ConfChangeType::RemoveNode
                && changes@[i].node_id == self_id,
        forall|i: int|
            0 <= i < changes@.len() && ((#[trigger] changes@[i]).change_type == ConfChangeType::AddNode
                || changes@[i].change_type == ConfChangeType::AddLearnerNode) && last_naming(changes@, i)
                ==> final(peers)@.contains_key(changes@[i].node_id) && final(peers)@[changes@[i].node_id]
                == (PeerView { addr: addrs@[i]@, state: PeerState::Preparing }),
        forall|i: int|
            0 <= i < changes@.len() && (#[trigger] changes@[i]).change_type == ConfChangeType::RemoveNode
                && changes@[i].node_id != self_id && last_naming(changes@, i)
                ==> !final(peers)@.contains_key(changes@[i].node_id),
{
    proof {
        law_membership_changes(old(peers)@, self_id, changes@, addrs_view(addrs@));
        assert forall|i: int| 0 <= i < changes@.len() && is_addition(#[trigger] changes@[i]) implies addrs_view(addrs@)[i] == addrs@[i]@ by {}
    }
    let mut leaving = false;
    let mut i: usize = 0;
    while i < changes.len()
        invariant
            i <= changes.len(),
            addresses_cover(changes@, addrs@),
            (peers@, leaving) == membership_after(
                old(peers)@,
                self_id,
                changes@.take(i as int),
                addrs_view(addrs@),
            ),
        decreases changes.len() - i,
    {
        let c = changes[i];
        proof {
            assert(changes@.take(i + 1).drop_last() =~= changes@.take(i as int));
            assert(changes@.take(i + 1).last() == c);
        }
        match c.change_type {
            ConfChangeType::AddNode | ConfChangeType::AddLearnerNode => {
                assert(is_addition(changes@[i as int]));
                let addr = addrs[i].clone();
                assert(addrs_view(addrs@)[i as int] == addr@);
                peers.add_peer(c.node_id, addr);
            },
            ConfChangeType::RemoveNode => {
                if c.node_id == self_id {
                    leaving = true;
                } else {
                    peers.remove(&c.node_id);
                }
            },
        }
        i = i + 1;
    }
    assert(changes@.take(changes.len() as int) =~= changes@);
    leaving
}

/// Whether every change adds a node.
pub fn all_additions(changes: &[ConfChangeSingle]) -> (r: bool)
    ensures
        r == forall|i: int| 0 <= i < changes@.len() ==> is_addition(#[trigger] changes@[i]),
{
    let mut i: usize = 0;
    while i < changes.len()
        invariant
            i <= changes.len(),
            forall|k: int| 0 <= k < i ==> is_addition(#[trigger] changes@[k]),
        decreases changes.len() - i,
    {
        let t = changes[i].change_type;
        if !(t == ConfChangeType::AddNode || t == ConfChangeType::AddLearnerNode) {
            return false;
        }
        i = i + 1;
    }
    true
}

/// Whether every change removes a node.
pub fn all_removals(changes: &[ConfChangeSingle]) -> (r: bool)
    ensures
        r == forall|i: int|
            0 <= i < changes@.len() ==> (#[trigger] changes@[i]).change_type
                == ConfChangeType::RemoveNode,
{
    let mut i: usize = 0;
    while i < changes.len()
        invariant
            i <= changes.len(),
            forall|k: int| 0 <= k < i ==> (#[trigger] changes@[k]).change_type == ConfChangeType::RemoveNode,
        decreases changes.len() - i,
    {
        if changes[i].change_type != ConfChangeType::RemoveNode {
            return false;
        }
        i = i + 1;
    }
    true
}

/// Whether every added node has an address.
pub fn covers_addresses(changes: &[ConfChangeSingle], addrs: &[String]) -> (r: bool)
    ensures
        r == addresses_cover(changes@, addrs@),
{
    let mut i: usize = 0;
    while i < changes.len()
        invariant
            i <= changes.len(),
            forall|k: int| 0 <= k < i && is_addition(#[trigger] changes@[k]) ==> k < addrs@.len(),
        decreases changes.len() - i,
    {
        let t = changes[i].change_type;
        if (t == ConfChangeType::AddNode || t == ConfChangeType::AddLearnerNode) && i >= addrs.len() {
            assert(is_addition(changes@[i as int]));
            return false;
        }
        i = i + 1;
    }
    true
}

/// The changes are answered: either one node joins, or all remove nodes.
pub open spec fn answerable(changes: Seq<ConfChangeSingle>) -> bool {
    ||| changes.len() == 1 && is_addition(changes[0])
    ||| (!(forall|i: int| 0 <= i < changes.len() ==> is_addition(#[trigger] changes[i])) && forall|
        i: int,
    | 0 <= i < changes.len() ==> (#[trigger] changes[i]).change_type == ConfChangeType::RemoveNode)
}

/// Whether the node that asked for the changes can be answered.
pub fn changes_answerable(changes: &[ConfChangeSingle]) -> (r: bool)
    ensures
        r == answerable(changes@),
{
    if changes.len() == 1 && (changes[0].change_type == ConfChangeType::AddNode
        || changes[0].change_type == ConfChangeType::AddLearnerNode) {
        return true;
    }
    let additions = all_additions(changes);
    let removals = all_removals(changes);
    proof {
        if additions && !(changes@.len() == 1 && is_addition(changes@[0])) {
            if changes@.len() >= 1 {
                assert(is_addition(changes@[0]));
            }
        }
    }
    !additions && removals
}

/// The answer to the node that asked for committed changes: the id
/// assigned and the peers when one node joined, or the removal.
pub fn conf_change_outcome(changes: &[ConfChangeSingle], peers: &Peers) -> (r: ConfChangeResponseResult)
    requires
        answerable(changes@),
    ensures
        changes@.len() == 1 && is_addition(changes@[0]) ==> (r matches ConfChangeResponseResult::JoinSuccess { assigned_id, peers: p } && assigned_id == changes@[0].node_id && p@ == peers@),
        !(changes@.len() == 1 && is_addition(changes@[0])) ==> r is RemoveSuccess,
{
    if all_additions(changes) {
        ConfChangeResponseResult::JoinSuccess { assigned_id: changes[0].node_id, peers: peers.duplicate() }
    } else {
        ConfChangeResponseResult::RemoveSuccess
    }
}


/// No change after the `i`-th names the node that it names.
pub open spec fn last_naming(changes: Seq<ConfChangeSingle>, i: int) -> bool {
    forall|j: int| i < j < changes.len() ==> (#[trigger] changes[j]).node_id != changes[i].node_id
}

/// What committed changes, in order, do to the known peers:
/// - a node that no change names keeps its entry, or stays unknown;
/// - a node whose last change adds it, as a voter (`AddNode`) or as a
///   learner (`AddLearnerNode`), is recorded at that change's address, not
///   joined yet;
/// - a node other than this one whose last change removes it is forgotten;
/// - this node leaves exactly when some change removes it.
pub proof fn law_membership_changes(
    peers: Map<u64, PeerView>,
    self_id: u64,
    changes: Seq<ConfChangeSingle>,
    addrs: Seq<Seq<char>>,
)
    ensures
        ({
            let (after, leaving) = membership_after(peers, self_id, changes, addrs);
            &&& leaving <==> exists|i: int|
                0 <= i < changes.len() && (#[trigger] changes[i]).change_type
                    == ConfChangeType::RemoveNode && changes[i].node_id == self_id
            &&& forall|n: u64|
                #![trigger after.contains_key(n)]
                #![trigger peers.contains_key(n)]
                (forall|i: int| 0 <= i < changes.len() ==> (#[trigger] changes[i]).node_id != n)
                    ==> (after.contains_key(n) == peers.contains_key(n) && (peers.contains_key(n)
                    ==> after[n] == peers[n]))
            &&& forall|i: int|
                0 <= i < changes.len() && ((#[trigger] changes[i]).change_type == ConfChangeType::AddNode
                    || changes[i].change_type == ConfChangeType::AddLearnerNode) && last_naming(changes, i)
                    ==> after.contains_key(changes[i].node_id) && after[changes[i].node_id] == (PeerView {
                    addr: addrs[i],
                    state: PeerState::Preparing,
                })
            &&& forall|i: int|
                0 <= i < changes.len() && (#[trigger] changes[i]).change_type == ConfChangeType::RemoveNode
                    && changes[i].node_id != self_id && last_naming(changes, i)
                    ==> !after.contains_key(changes[i].node_id)
        }),
{
    lemma_leaving(peers, self_id, changes, addrs);
    lemma_unnamed(peers, self_id, changes, addrs);
    lemma_last_addition(peers, self_id, changes, addrs);
    lemma_last_removal(peers, self_id, changes, addrs);
}

proof fn lemma_leaving(
    peers: Map<u64, PeerView>,
    self_id: u64,
    changes: Seq<ConfChangeSingle>,
    addrs: Seq<Seq<char>>,
)
    ensures
        membership_after(peers, self_id, changes, addrs).1 <==> exists|i: int|
            0 <= i < changes.len() && (#[trigger] changes[i]).change_type == ConfChangeType::RemoveNode
                && changes[i].node_id == self_id,
    decreases changes.len(),
{
    if changes.len() > 0 {
        let init = changes.drop_last();
        let k = changes.len() - 1;
        lemma_leaving(peers, self_id, init, addrs);
        let (p, l) = membership_after(peers, self_id, init, addrs);
        let leaving = membership_after(peers, self_id, changes, addrs).1;
        assert(leaving == change_effect(p, l, self_id, changes[k], addrs[k]).1);
        if leaving && l {
            let i = choose|i: int| 0 <= i < init.len() && (#[trigger] init[i]).change_type
                == ConfChangeType::RemoveNode && init[i].node_id == self_id;
            assert(changes[i] == init[i]);
        }
        if exists|i: int| 0 <= i < changes.len() && (#[trigger] changes[i]).change_type
            == ConfChangeType::RemoveNode && changes[i].node_id == self_id {
            let i = choose|i: int| 0 <= i < changes.len() && (#[trigger] changes[i]).change_type
                == ConfChangeType::RemoveNode && changes[i].node_id == self_id;
            if i < k {
                assert(init[i] == changes[i]);
            }
        }
    }
}

proof fn lemma_unnamed(
    peers: Map<u64, PeerView>,
    self_id: u64,
    changes: Seq<ConfChangeSingle>,
    addrs: Seq<Seq<char>>,
)
    ensures
        forall|n: u64|
            #![trigger membership_after(peers, self_id, changes, addrs).0.contains_key(n)]
            #![trigger peers.contains_key(n)]
            (forall|i: int| 0 <= i < changes.len() ==> (#[trigger] changes[i]).node_id != n) ==> (
            membership_after(peers, self_id, changes, addrs).0.contains_key(n) == peers.contains_key(n)
                && (peers.contains_key(n) ==> membership_after(peers, self_id, changes, addrs).0[n]
                == peers[n])),
    decreases changes.len(),
{
    if changes.len() > 0 {
        let init = changes.drop_last();
        let k = changes.len() - 1;
        lemma_unnamed(peers, self_id, init, addrs);
        let (p, l) = membership_after(peers, self_id, init, addrs);
        let after = membership_after(peers, self_id, changes, addrs).0;
        assert(after == change_effect(p, l, self_id, changes[k], addrs[k]).0);
        assert forall|n: u64|
            #![trigger after.contains_key(n)]
            #![trigger peers.contains_key(n)]
            (forall|i: int| 0 <= i < changes.len() ==> (#[trigger] changes[i]).node_id != n) implies (
            after.contains_key(n) == peers.contains_key(n) && (peers.contains_key(n) ==> after[n]
                == peers[n])) by {
            assert(changes[k].node_id != n);
            assert forall|i: int| 0 <= i < init.len() implies (#[trigger] init[i]).node_id != n by {
                assert(changes[i].node_id != n);
            }
        }
    }
}

proof fn lemma_last_addition(
    peers: Map<u64, PeerView>,
    self_id: u64,
    changes: Seq<ConfChangeSingle>,
    addrs: Seq<Seq<char>>,
)
    ensures
        forall|i: int|
            0 <= i < changes.len() && ((#[trigger] changes[i]).change_type == ConfChangeType::AddNode
                || changes[i].change_type == ConfChangeType::AddLearnerNode) && last_naming(changes, i)
                ==> ({
                let after = membership_after(peers, self_id, changes, addrs).0;
                after.contains_key(changes[i].node_id) && after[changes[i].node_id] == (PeerView {
                    addr: addrs[i],
                    state: PeerState::Preparing,
                })
            }),
    decreases changes.len(),
{
    if changes.len() > 0 {
        let init = changes.drop_last();
        let k = changes.len() - 1;
        lemma_last_addition(peers, self_id, init, addrs);
        let (p, l) = membership_after(peers, self_id, init, addrs);
        let after = membership_after(peers, self_id, changes, addrs).0;
        assert(after == change_effect(p, l, self_id, changes[k], addrs[k]).0);
        assert forall|i: int|
            0 <= i < changes.len() && ((#[trigger] changes[i]).change_type == ConfChangeType::AddNode
                || changes[i].change_type == ConfChangeType::AddLearnerNode) && last_naming(changes, i)
            implies after.contains_key(changes[i].node_id) && after[changes[i].node_id] == (PeerView {
            addr: addrs[i],
            state: PeerState::Preparing,
        }) by {
            if i < k {
                assert(changes[k].node_id != changes[i].node_id);
                assert(init[i] == changes[i]);
                assert forall|j: int| i < j < init.len() implies (#[trigger] init[j]).node_id
                    != init[i].node_id by {
                    assert(changes[j].node_id != changes[i].node_id);
                }
                assert(last_naming(init, i));
            }
        }
    }
}

proof fn lemma_last_removal(
    peers: Map<u64, PeerView>,
    self_id: u64,
    changes: Seq<ConfChangeSingle>,
    addrs: Seq<Seq<char>>,
)
    ensures
        forall|i: int|
            0 <= i < changes.len() && (#[trigger] changes[i]).change_type == ConfChangeType::RemoveNode
                && changes[i].node_id != self_id && last_naming(changes, i)
                ==> !membership_after(peers, self_id, changes, addrs).0.contains_key(changes[i].node_id),
    decreases changes.len(),
{
    if changes.len() > 0 {
        let init = changes.drop_last();
        let k = changes.len() - 1;
        lemma_last_removal(peers, self_id, init, addrs);
        let (p, l) = membership_after(peers, self_id, init, addrs);
        let after = membership_after(peers, self_id, changes, addrs).0;
        assert(after == change_effect(p, l, self_id, changes[k], addrs[k]).0);
        assert forall|i: int|
            0 <= i < changes.len() && (#[trigger] changes[i]).change_type == ConfChangeType::RemoveNode
                && changes[i].node_id != self_id && last_naming(changes, i)
            implies !after.contains_key(changes[i].node_id) by {
            if i < k {
                assert(changes[k].node_id != changes[i].node_id);
                assert(init[i] == changes[i]);
                assert forall|j: int| i < j < init.len() implies (#[trigger] init[j]).node_id
                    != init[i].node_id by {
                    assert(changes[j].node_id != changes[i].node_id);
                }
                assert(last_naming(init, i));
            }
        }
    }
}

/// A committed join records the new member at its address, does not make
/// this node leave, and is answered with the new member's id.
pub proof fn law_join_records_member(
    peers: Map<u64, PeerView>,
    self_id: u64,
    node_id: u64,
    addr: Seq<char>,
)
    ensures
        ({
            let c = ConfChangeSingle { change_type: ConfChangeType::AddNode, node_id };
            let (after, leaving) = membership_after(peers, self_id, seq![c], seq![addr]);
            &&& after == peers.insert(node_id, PeerView { addr, state: PeerState::Preparing })
            &&& after.contains_key(node_id)
            &&& !leaving
            &&& answerable(seq![c])
        }),
{
    let c = ConfChangeSingle { change_type: ConfChangeType::AddNode, node_id };
    assert(seq![c].drop_last() =~= Seq::<ConfChangeSingle>::empty());
    assert(membership_after(peers, self_id, Seq::<ConfChangeSingle>::empty(), seq![addr]) == (peers, false));
    assert(membership_after(peers, self_id, seq![c], seq![addr]) == change_effect(peers, false, self_id, c, addr));
    assert(is_addition(seq![c][0]));
}

/// A committed removal of this node makes it leave and keeps its peers; a
/// removal of another node forgets that node. Either is answered as a
/// removal.
pub proof fn law_removal(peers: Map<u64, PeerView>, self_id: u64, node_id: u64)
    ensures
        ({
            let c = ConfChangeSingle { change_type: ConfChangeType::RemoveNode, node_id };
            let (after, leaving) = membership_after(peers, self_id, seq![c], seq![Seq::<char>::empty()]);
            &&& node_id == self_id ==> leaving && after == peers
            &&& node_id != self_id ==> !leaving && after == peers.remove(node_id)
            &&& answerable(seq![c])
            &&& !(seq![c].len() == 1 && is_addition(seq![c][0]))
        }),
{
    let c = ConfChangeSingle { change_type: ConfChangeType::RemoveNode, node_id };
    let a = seq![Seq::<char>::empty()];
    assert(seq![c].drop_last() =~= Seq::<ConfChangeSingle>::empty());
    assert(membership_after(peers, self_id, Seq::<ConfChangeSingle>::empty(), a) == (peers, false));
    assert(membership_after(peers, self_id, seq![c], a) == change_effect(peers, false, self_id, c, a[0]));
    assert(!is_addition(seq![c][0]));
    assert(seq![c][0] == c);
}

} // verus!

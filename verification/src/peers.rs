//! The members of a Raft cluster that a node knows: their ids and addresses.
use std::collections::HashMap;
use vstd::prelude::*;
use vstd::std_specs::hash::group_hash_axioms;

verus! {

broadcast use group_hash_axioms;

/// Whether a peer has joined the cluster yet.
#[derive(Clone, Copy, Debug, PartialEq, Eq, Structural)]
pub enum PeerState {
    Preparing,
    Connected,
}

/// A member of the cluster: its address (`ip:port`) and its state.
#[derive(Clone, Debug)]
pub struct Peer {
    pub addr: String,
    pub state: PeerState,
}

/// The value of a [`Peer`]: the text of its address and its state.
pub struct PeerView {
    pub addr: Seq<char>,
    pub state: PeerState,
}

impl View for Peer {
    type V = PeerView;

    open spec fn view(&self) -> PeerView {
        PeerView { addr: self.addr@, state: self.state }
    }
}

impl Peer {
    /// A peer at `addr` that has not joined yet.
    pub fn new(addr: String) -> (r: Peer)
        ensures
            r@ == (PeerView { addr: addr@, state: PeerState::Preparing }),
    {
        Peer { addr, state: PeerState::Preparing }
    }
}

/// The known members of the cluster, by node id.
#[derive(Debug)]
pub struct Peers {
    pub inner: HashMap<u64, Peer>,
}

impl View for Peers {
    type V = Map<u64, PeerView>;

    open spec fn view(&self) -> Map<u64, PeerView> {
        self.inner@.map_values(|p: Peer| p@)
    }
}

/// The largest key of a finite set of ids.
pub open spec fn is_max_id(ids: Set<u64>, m: u64) -> bool {
    ids.contains(m) && forall|k: u64| ids.contains(k) ==> k <= m
}

/// The id that `reserve_peer` hands out: one more than the largest known
/// id (counting 1 as the largest when no peer is known), and at least
/// `self_id`.
pub open spec fn reserved_id(ids: Set<u64>, self_id: u64) -> int {
    let largest: int = if ids.len() == 0 {
        1
    } else {
        (choose|m: u64| is_max_id(ids, m)) as int
    };
    if largest + 1 >= self_id {
        largest + 1
    } else {
        self_id as int
    }
}

impl Peers {
    /// No known member.
    pub fn new() -> (r: Peers)
        ensures
            r@ == Map::<u64, PeerView>::empty(),
    {
        Peers { inner: HashMap::new() }
    }

    pub fn is_empty(&self) -> (r: bool)
        ensures
            r == self@.is_empty(),
    {
        self.inner.is_empty()
    }

    pub fn len(&self) -> (r: usize)
        ensures
            r == self@.len(),
    {
        assert(self@.dom() =~= self.inner@.dom());
        self.inner.len()
    }

    pub fn get(&self, id: &u64) -> (r: Option<&Peer>)
        ensures
            match r {
                Some(p) => self@.contains_key(*id) && p@ == self@[*id],
                None => !self@.contains_key(*id),
            },
    {
        self.inner.get(id)
    }

    pub fn remove(&mut self, id: &u64) -> (r: Option<Peer>)
        ensures
            final(self)@ == old(self)@.remove(*id),
            match r {
                Some(p) => old(self)@.contains_key(*id) && p@ == old(self)@[*id],
                None => !old(self)@.contains_key(*id),
            },
    {
        let r = self.inner.remove(id);
        assert(self@ =~= old(self)@.remove(*id));
        r
    }

    /// Records a member at `addr` (already resolved to `ip:port`) that has
    /// not joined yet, in place of any member known under `id`.
    pub fn add_peer(&mut self, id: u64, addr: String)
        ensures
            final(self)@ == old(self)@.insert(id, PeerView { addr: addr@, state: PeerState::Preparing }),
    {
        let peer = Peer::new(addr);
        self.inner.insert(id, peer);
        assert(self@ =~= old(self)@.insert(id, PeerView { addr: addr@, state: PeerState::Preparing }));
    }

    /// A copy of the known members.
    pub fn duplicate(&self) -> (r: Peers)
        ensures
            r@ == self@,
    {
        let r = Peers { inner: self.inner.clone() };
        assert(r@ =~= self@);
        r
    }

    /// The largest known id, if any.
    pub fn max_id(&self) -> (r: Option<u64>)
        ensures
            match r {
                Some(m) => is_max_id(self@.dom(), m),
                None => self@.dom().len() == 0,
            },
    {
        let mut best: Option<u64> = None;
        let ghost mut seen: Set<u64> = Set::empty();
        for k in it: self.inner.keys()
            invariant
                it.seq().unref().to_set() == self.inner@.dom(),
                it.seq().len() == self.inner@.dom().len(),
                seen == it.seq().take(it.index()).unref().to_set(),
                it.index() == it.seq().len() ==> seen =~= self.inner@.dom(),
                match best {
                    Some(m) => is_max_id(seen, m),
                    None => seen == Set::<u64>::empty(),
                },
        {
            proof {
                assert(it.seq().take(it.index() + 1).unref().to_set() =~= seen.insert(*k)) by {
                    assert(it.seq().take(it.index() + 1).unref() =~= it.seq().take(it.index()).unref().push(*k));
                    it.seq().take(it.index()).unref().lemma_push_to_set_commute(*k);
                }
                seen = seen.insert(*k);
                assert(it.index() + 1 == it.seq().len() ==> it.seq().take(it.index() + 1) =~= it.seq());
            }
            match best {
                Some(m) => {
                    if *k > m {
                        best = Some(*k);
                    }
                },
                None => {
                    best = Some(*k);
                },
            }
        }
        proof {
            assert(self@.dom() =~= self.inner@.dom());
            assert(seen =~= self.inner@.dom());
            if best is None {
                assert(self.inner@.dom() =~= Set::<u64>::empty());
            }
        }
        best
    }

    /// Hands out an id for a node that asks to join: one more than the
    /// largest known id (1 when none is known), and at least `self_id`.
    pub fn reserve_peer(&self, self_id: u64) -> (r: u64)
        requires
            forall|k: u64| self@.contains_key(k) ==> k < u64::MAX,
        ensures
            r == reserved_id(self@.dom(), self_id),
    {
        assert(self@.dom() =~= self.inner@.dom());
        let next_id = match self.max_id() {
            Some(m) => m,
            None => 1,
        };
        proof {
            if self@.dom().len() != 0 {
                let c = choose|m: u64| is_max_id(self@.dom(), m);
                assert(is_max_id(self@.dom(), next_id));
                assert(c == next_id);
            }
        }
        let next_id = next_id + 1;
        if next_id >= self_id {
            next_id
        } else {
            self_id
        }
    }

    /// The id of the member at `addr`, if any.
    pub fn get_node_id_by_addr(&self, addr: &String) -> (r: Option<u64>)
        ensures
            match r {
                Some(id) => self@.contains_key(id) && self@[id].addr == addr@,
                None => forall|id: u64| self@.contains_key(id) ==> self@[id].addr != addr@,
            },
    {
        let ghost mut seen: Set<u64> = Set::empty();
        for kv in it: self.inner.iter()
            invariant
                forall|j: int| 0 <= j < it.seq().len() ==> {
                    &&& self.inner@.contains_key(*it.seq()[j].0)
                    &&& self.inner@[*it.seq()[j].0] == *it.seq()[j].1
                },
                forall|k: u64| self.inner@.contains_key(k) ==> it.seq().contains((&k, &self.inner@[k])),
                forall|k: u64| seen.contains(k) ==> self.inner@.contains_key(k) && self.inner@[k].addr@ != addr@,
                forall|j: int| 0 <= j < it.index() ==> seen.contains(*it.seq()[j].0),
        {
            let (id, peer) = kv;
            if peer.addr == *addr {
                return Some(*id);
            }
            proof {
                seen = seen.insert(*id);
            }
        }
        proof {
            assert forall|k: u64| self@.contains_key(k) implies self@[k].addr != addr@ by {
                assert(seen.contains(k));
            }
        }
        None
    }
}


/// The id handed to a joining node is held by no known member.
pub proof fn law_reserved_id_is_fresh(ids: Set<u64>, self_id: u64)
    requires
        ids.finite(),
        forall|k: u64| ids.contains(k) ==> k < u64::MAX,
    ensures
        forall|k: u64| ids.contains(k) ==> k < reserved_id(ids, self_id),
        reserved_id(ids, self_id) <= u64::MAX,
{
    if ids.len() != 0 {
        let k0 = ids.choose();
        assert(ids.contains(k0)) by {
            if !ids.contains(k0) {
                assert(ids =~= Set::<u64>::empty());
            }
        }
        let leq = |a: u64, b: u64| a <= b;
        assert(vstd::relations::total_ordering(leq)) by {
            assert(vstd::relations::reflexive(leq));
            assert(vstd::relations::antisymmetric(leq));
            assert(vstd::relations::transitive(leq));
            assert(vstd::relations::strongly_connected(leq));
        }
        ids.find_unique_maximal_ensures(leq);
        let m = ids.find_unique_maximal(leq);
        assert(vstd::relations::is_maximal(leq, m, ids));
        assert forall|k: u64| ids.contains(k) implies k <= m by {
            if !(k <= m) {
                assert(leq(m, k));
                assert(leq(k, m));
            }
        }
        assert(is_max_id(ids, m));
        let c = choose|m: u64| is_max_id(ids, m);
        assert(is_max_id(ids, c));
    } else {
        assert forall|k: u64| ids.contains(k) implies k < reserved_id(ids, self_id) by {
            ids.lemma_len0_is_empty();
        }
    }
}

} // verus!

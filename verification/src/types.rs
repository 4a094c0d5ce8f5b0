//! The Raft protocol messages that the library reads and writes, held as
//! plain values: entries, hard state, configuration state, snapshots and
//! configuration changes.
use vstd::prelude::*;

verus! {

/// The kind of a log entry.
#[derive(Clone, Copy, Debug, PartialEq, Eq, Structural)]
pub enum EntryType {
    EntryNormal,
    EntryConfChange,
    EntryConfChangeV2,
}

/// A Raft log entry.
#[derive(Debug)]
pub struct Entry {
    pub entry_type: EntryType,
    pub term: u64,
    pub index: u64,
    pub data: Vec<u8>,
    pub context: Vec<u8>,
    pub sync_log: bool,
}

/// The mathematical value of an [`Entry`].
pub struct EntryView {
    pub entry_type: EntryType,
    pub term: u64,
    pub index: u64,
    pub data: Seq<u8>,
    pub context: Seq<u8>,
    pub sync_log: bool,
}

impl View for Entry {
    type V = EntryView;

    open spec fn view(&self) -> EntryView {
        EntryView {
            entry_type: self.entry_type,
            term: self.term,
            index: self.index,
            data: self.data@,
            context: self.context@,
            sync_log: self.sync_log,
        }
    }
}

/// The view of every entry of a slice, in order.
pub open spec fn entries_view(ents: Seq<Entry>) -> Seq<EntryView> {
    ents.map_values(|e: Entry| e@)
}

/// Copies a byte vector.
pub fn copy_bytes(v: &Vec<u8>) -> (r: Vec<u8>)
    ensures
        r@ == v@,
{
    let mut r: Vec<u8> = Vec::new();
    let mut i: usize = 0;
    while i < v.len()
        invariant
            i <= v.len(),
            r@ == v@.take(i as int),
        decreases v.len() - i,
    {
        r.push(v[i]);
        i = i + 1;
        assert(r@ =~= v@.take(i as int));
    }
    assert(v@.take(v.len() as int) =~= v@);
    r
}

/// Copies a vector of node ids.
pub fn copy_ids(v: &Vec<u64>) -> (r: Vec<u64>)
    ensures
        r@ == v@,
{
    let mut r: Vec<u64> = Vec::new();
    let mut i: usize = 0;
    while i < v.len()
        invariant
            i <= v.len(),
            r@ == v@.take(i as int),
        decreases v.len() - i,
    {
        r.push(v[i]);
        i = i + 1;
        assert(r@ =~= v@.take(i as int));
    }
    assert(v@.take(v.len() as int) =~= v@);
    r
}

impl Entry {
    /// An entry whose every field holds its default value.
    pub fn default_entry() -> (r: Entry)
        ensures
            r@ == Entry::default_view(),
    {
        Entry {
            entry_type: EntryType::EntryNormal,
            term: 0,
            index: 0,
            data: Vec::new(),
            context: Vec::new(),
            sync_log: false,
        }
    }

    pub open spec fn default_view() -> EntryView {
        EntryView {
            entry_type: EntryType::EntryNormal,
            term: 0,
            index: 0,
            data: Seq::empty(),
            context: Seq::empty(),
            sync_log: false,
        }
    }

    /// A normal entry with no payload at the given index and term.
    pub fn new_entry(index: u64, term: u64) -> (r: Entry)
        ensures
            r@ == (EntryView { index, term, ..Entry::default_view() }),
    {
        Entry {
            entry_type: EntryType::EntryNormal,
            term,
            index,
            data: Vec::new(),
            context: Vec::new(),
            sync_log: false,
        }
    }

    /// A copy of this entry.
    pub fn duplicate(&self) -> (r: Entry)
        ensures
            r@ == self@,
    {
        Entry {
            entry_type: self.entry_type,
            term: self.term,
            index: self.index,
            data: copy_bytes(&self.data),
            context: copy_bytes(&self.context),
            sync_log: self.sync_log,
        }
    }
}

/// Copies a slice of entries.
pub fn copy_entries(ents: &[Entry]) -> (r: Vec<Entry>)
    ensures
        entries_view(r@) == entries_view(ents@),
{
    let mut r: Vec<Entry> = Vec::new();
    let mut i: usize = 0;
    while i < ents.len()
        invariant
            i <= ents.len(),
            r@.len() == i,
            forall|k: int| 0 <= k < i ==> (#[trigger] r@[k])@ == ents@[k]@,
        decreases ents.len() - i,
    {
        r.push(ents[i].duplicate());
        i = i + 1;
    }
    assert(entries_view(r@) =~= entries_view(ents@));
    r
}

/// The persistent Raft state of a node: current term, vote and commit index.
#[derive(Clone, Copy, Debug, PartialEq, Eq, Structural)]
pub struct HardState {
    pub term: u64,
    pub vote: u64,
    pub commit: u64,
}

impl HardState {
    pub fn default_state() -> (r: HardState)
        ensures
            r == (HardState { term: 0, vote: 0, commit: 0 }),
    {
        HardState { term: 0, vote: 0, commit: 0 }
    }
}

/// The membership of a Raft group.
#[derive(Debug)]
pub struct ConfState {
    pub voters: Vec<u64>,
    pub learners: Vec<u64>,
    pub voters_outgoing: Vec<u64>,
    pub learners_next: Vec<u64>,
    pub auto_leave: bool,
}

/// The mathematical value of a [`ConfState`].
pub struct ConfStateView {
    pub voters: Seq<u64>,
    pub learners: Seq<u64>,
    pub voters_outgoing: Seq<u64>,
    pub learners_next: Seq<u64>,
    pub auto_leave: bool,
}

impl View for ConfState {
    type V = ConfStateView;

    open spec fn view(&self) -> ConfStateView {
        ConfStateView {
            voters: self.voters@,
            learners: self.learners@,
            voters_outgoing: self.voters_outgoing@,
            learners_next: self.learners_next@,
            auto_leave: self.auto_leave,
        }
    }
}

impl ConfState {
    pub open spec fn default_view() -> ConfStateView {
        ConfStateView {
            voters: Seq::empty(),
            learners: Seq::empty(),
            voters_outgoing: Seq::empty(),
            learners_next: Seq::empty(),
            auto_leave: false,
        }
    }

    /// The empty membership.
    pub fn default_state() -> (r: ConfState)
        ensures
            r@ == ConfState::default_view(),
    {
        ConfState {
            voters: Vec::new(),
            learners: Vec::new(),
            voters_outgoing: Vec::new(),
            learners_next: Vec::new(),
            auto_leave: false,
        }
    }

    /// A copy of this membership.
    pub fn duplicate(&self) -> (r: ConfState)
        ensures
            r@ == self@,
    {
        ConfState {
            voters: copy_ids(&self.voters),
            learners: copy_ids(&self.learners),
            voters_outgoing: copy_ids(&self.voters_outgoing),
            learners_next: copy_ids(&self.learners_next),
            auto_leave: self.auto_leave,
        }
    }
}

/// What a snapshot covers: the membership, and the index and term of the last
/// entry it includes.
#[derive(Debug)]
pub struct SnapshotMetadata {
    pub conf_state: ConfState,
    pub index: u64,
    pub term: u64,
}

pub struct SnapshotMetadataView {
    pub conf_state: ConfStateView,
    pub index: u64,
    pub term: u64,
}

impl View for SnapshotMetadata {
    type V = SnapshotMetadataView;

    open spec fn view(&self) -> SnapshotMetadataView {
        SnapshotMetadataView { conf_state: self.conf_state@, index: self.index, term: self.term }
    }
}

impl SnapshotMetadata {
    pub open spec fn default_view() -> SnapshotMetadataView {
        SnapshotMetadataView { conf_state: ConfState::default_view(), index: 0, term: 0 }
    }

    pub fn duplicate(&self) -> (r: SnapshotMetadata)
        ensures
            r@ == self@,
    {
        SnapshotMetadata { conf_state: self.conf_state.duplicate(), index: self.index, term: self.term }
    }
}

/// A snapshot of the state machine together with its metadata.
#[derive(Debug)]
pub struct Snapshot {
    pub data: Vec<u8>,
    pub metadata: SnapshotMetadata,
}

pub struct SnapshotView {
    pub data: Seq<u8>,
    pub metadata: SnapshotMetadataView,
}

impl View for Snapshot {
    type V = SnapshotView;

    open spec fn view(&self) -> SnapshotView {
        SnapshotView { data: self.data@, metadata: self.metadata@ }
    }
}

impl Snapshot {
    pub open spec fn default_view() -> SnapshotView {
        SnapshotView { data: Seq::empty(), metadata: SnapshotMetadata::default_view() }
    }

    /// The empty snapshot.
    pub fn default_snapshot() -> (r: Snapshot)
        ensures
            r@ == Snapshot::default_view(),
    {
        Snapshot {
            data: Vec::new(),
            metadata: SnapshotMetadata { conf_state: ConfState::default_state(), index: 0, term: 0 },
        }
    }

    pub fn duplicate(&self) -> (r: Snapshot)
        ensures
            r@ == self@,
    {
        Snapshot { data: copy_bytes(&self.data), metadata: self.metadata.duplicate() }
    }
}

/// The kind of a single membership change.
#[derive(Clone, Copy, Debug, PartialEq, Eq, Structural)]
pub enum ConfChangeType {
    AddNode,
    RemoveNode,
    AddLearnerNode,
}

/// How a joint-consensus membership change is entered and left.
#[derive(Clone, Copy, Debug, PartialEq, Eq, Structural)]
pub enum ConfChangeTransition {
    Auto,
    Implicit,
    Explicit,
}

/// A membership change of one node (the first version of the message).
#[derive(Debug)]
pub struct ConfChange {
    pub change_type: ConfChangeType,
    pub node_id: u64,
    pub context: Vec<u8>,
    pub id: u64,
}

/// The value of a [`ConfChange`].
pub struct ConfChangeView {
    pub change_type: ConfChangeType,
    pub node_id: u64,
    pub context: Seq<u8>,
    pub id: u64,
}

impl View for ConfChange {
    type V = ConfChangeView;

    open spec fn view(&self) -> ConfChangeView {
        ConfChangeView {
            change_type: self.change_type,
            node_id: self.node_id,
            context: self.context@,
            id: self.id,
        }
    }
}

/// One operation of a [`ConfChangeV2`].
#[derive(Clone, Copy, Debug, PartialEq, Eq, Structural)]
pub struct ConfChangeSingle {
    pub change_type: ConfChangeType,
    pub node_id: u64,
}

/// A membership change of any number of nodes.
#[derive(Debug)]
pub struct ConfChangeV2 {
    pub transition: ConfChangeTransition,
    pub changes: Vec<ConfChangeSingle>,
    pub context: Vec<u8>,
}

pub struct ConfChangeV2View {
    pub transition: ConfChangeTransition,
    pub changes: Seq<ConfChangeSingle>,
    pub context: Seq<u8>,
}

impl View for ConfChangeV2 {
    type V = ConfChangeV2View;

    open spec fn view(&self) -> ConfChangeV2View {
        ConfChangeV2View { transition: self.transition, changes: self.changes@, context: self.context@ }
    }
}

/// The errors that a Raft log storage reports.
#[derive(Clone, Copy, Debug, PartialEq, Eq, Structural)]
pub enum StorageError {
    /// The requested log entries have been compacted away.
    Compacted,
    /// The requested log entries are not available.
    Unavailable,
    /// The log is temporarily unavailable.
    LogTemporarilyUnavailable,
    /// The snapshot is older than the log it would replace.
    SnapshotOutOfDate,
    /// The snapshot is being built.
    SnapshotTemporarilyUnavailable,
    /// Any other error of the underlying store.
    Other,
}

} // verus!

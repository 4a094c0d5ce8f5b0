//! The in-memory log storage of raft-rs (`jopemachine_raft::storage::MemStorage`)
//! and its entry-size limit (`jopemachine_raft::util::limit_size`), given
//! contracts that follow the crate's source. Every item marked
//! `external_body` here is trusted: its contract is what the raft-rs source
//! shows, and is not proved.
use crate::types::{
    entries_view, ConfState, ConfStateView, Entry, EntryType, EntryView, HardState, Snapshot,
    SnapshotMetadata, SnapshotMetadataView, SnapshotView, StorageError,
};
use jopemachine_raft::eraftpb;
use jopemachine_raft::storage::MemStorage as RaftMemStorage;
use jopemachine_raft::GetEntriesContext;
use jopemachine_raft::Storage;
use vstd::prelude::*;

verus! {

#[verifier::external_type_specification]
#[verifier::external_body]
pub struct ExRaftMemStorage(RaftMemStorage);

#[verifier::external_type_specification]
#[verifier::external_body]
pub struct ExGetEntriesContext(jopemachine_raft::GetEntriesContext);

/// What a raft-rs `MemStorageCore` holds: the hard and configuration state,
/// the log entries, the metadata of the last snapshot applied, and the two
/// switches by which its tests make it report unavailability.
pub struct MemCoreView {
    pub hard_state: HardState,
    pub conf_state: ConfStateView,
    pub entries: Seq<EntryView>,
    pub snapshot_metadata: SnapshotMetadataView,
    pub snap_unavailable: bool,
    pub log_unavailable: bool,
}

/// The contents of a raft-rs `MemStorage`.
pub uninterp spec fn mem_core(s: RaftMemStorage) -> MemCoreView;

/// The number of bytes of the protobuf encoding of an entry
/// (`protobuf::Message::compute_size`).
pub uninterp spec fn encoded_size(e: EntryView) -> u32;

pub open spec fn default_core() -> MemCoreView {
    MemCoreView {
        hard_state: HardState { term: 0, vote: 0, commit: 0 },
        conf_state: ConfState::default_view(),
        entries: Seq::empty(),
        snapshot_metadata: SnapshotMetadata::default_view(),
        snap_unavailable: false,
        log_unavailable: false,
    }
}

/// Every index that the storage holds is below `u64::MAX`, so that
/// `MemStorageCore` can add one to its first and last index in `u64`.
pub open spec fn core_bounded(c: MemCoreView) -> bool {
    &&& c.snapshot_metadata.index < u64::MAX
    &&& forall|j: int| 0 <= j < c.entries.len() ==> (#[trigger] c.entries[j]).index < u64::MAX
}

/// `MemStorageCore::first_index`.
pub open spec fn core_first_index(c: MemCoreView) -> int {
    if c.entries.len() > 0 {
        c.entries[0].index as int
    } else {
        c.snapshot_metadata.index + 1
    }
}

/// `MemStorageCore::last_index`.
pub open spec fn core_last_index(c: MemCoreView) -> int {
    if c.entries.len() > 0 {
        c.entries.last().index as int
    } else {
        c.snapshot_metadata.index as int
    }
}

/// The inputs on which `MemStorageCore::append` neither panics nor does
/// nothing: the first new entry neither overwrites compacted entries nor
/// leaves a gap, and the entries it replaces are held.
pub open spec fn core_append_ok(c: MemCoreView, ents: Seq<EntryView>) -> bool {
    ents.len() > 0 ==> {
        &&& core_first_index(c) <= ents[0].index
        &&& ents[0].index <= core_last_index(c) + 1
        &&& ents[0].index - core_first_index(c) <= c.entries.len()
    }
}

/// `MemStorageCore::append`: the held entries from the first new index on
/// are replaced by the new ones.
pub open spec fn core_append(c: MemCoreView, ents: Seq<EntryView>) -> MemCoreView {
    if ents.len() == 0 {
        c
    } else {
        MemCoreView {
            entries: c.entries.take(ents[0].index - core_first_index(c)) + ents,
            ..c
        }
    }
}

/// The inputs on which `MemStorageCore::compact` does not panic.
pub open spec fn core_compact_ok(c: MemCoreView, compact_index: u64) -> bool {
    compact_index > core_first_index(c) ==> {
        &&& compact_index <= core_last_index(c) + 1
        &&& c.entries.len() > 0 ==> compact_index - c.entries[0].index <= c.entries.len()
    }
}

/// `MemStorageCore::compact`: the entries before `compact_index` are dropped.
pub open spec fn core_compact(c: MemCoreView, compact_index: u64) -> MemCoreView {
    if compact_index <= core_first_index(c) || c.entries.len() == 0 {
        c
    } else {
        MemCoreView { entries: c.entries.skip(compact_index - c.entries[0].index), ..c }
    }
}

/// `MemStorageCore::apply_snapshot` when the snapshot is not older than the
/// log: the log is emptied, the metadata and membership are taken from the
/// snapshot, the commit index becomes the snapshot's index and the term is
/// raised to the snapshot's term.
pub open spec fn core_apply_snapshot(c: MemCoreView, meta: SnapshotMetadataView) -> MemCoreView {
    MemCoreView {
        hard_state: HardState {
            term: if c.hard_state.term >= meta.term {
                c.hard_state.term
            } else {
                meta.term
            },
            commit: meta.index,
            ..c.hard_state
        },
        conf_state: meta.conf_state,
        entries: Seq::empty(),
        snapshot_metadata: meta,
        ..c
    }
}

/// The inputs on which `MemStorageCore::snapshot` does not panic: the commit
/// index is the snapshot's index or the index of a held entry.
pub open spec fn core_snapshot_ok(c: MemCoreView) -> bool {
    let commit = c.hard_state.commit;
    &&& commit >= c.snapshot_metadata.index
    &&& commit > c.snapshot_metadata.index ==> {
        &&& c.entries.len() > 0
        &&& c.entries[0].index <= commit
        &&& commit - c.entries[0].index < c.entries.len()
    }
}

/// `Storage::snapshot` of a `MemStorage`: no data, the membership of the
/// storage, and the commit index with its term, raised to `request_index`.
pub open spec fn core_snapshot(c: MemCoreView, request_index: u64) -> SnapshotView {
    let commit = c.hard_state.commit;
    let term = if commit == c.snapshot_metadata.index {
        c.snapshot_metadata.term
    } else {
        c.entries[commit - c.entries[0].index].term
    };
    SnapshotView {
        data: Seq::empty(),
        metadata: SnapshotMetadataView {
            conf_state: c.conf_state,
            index: if commit < request_index {
                request_index
            } else {
                commit
            },
            term,
        },
    }
}

/// The number of entries that `limit_size` keeps: all of them when there is
/// no limit or at most one entry; otherwise the longest prefix whose total
/// size stays within `max`, counting an entry as kept while the running
/// total before it is zero.
pub open spec fn limit_count(sizes: Seq<u32>, max: Option<u64>) -> nat {
    if sizes.len() <= 1 {
        sizes.len()
    } else {
        match max {
            None => sizes.len(),
            Some(m) => if m == u64::MAX {
                sizes.len()
            } else {
                kept_while(sizes, m as int, 0, 0)
            },
        }
    }
}

/// The `take_while` of `limit_size`, from entry `i` on with running total `size`.
pub open spec fn kept_while(sizes: Seq<u32>, max: int, i: int, size: int) -> nat
    decreases sizes.len() - i,
{
    if i >= sizes.len() || i < 0 {
        if i < 0 {
            0
        } else {
            sizes.len()
        }
    } else {
        let total = size + sizes[i];
        if size == 0 || total <= max {
            kept_while(sizes, max, i + 1, total)
        } else {
            i as nat
        }
    }
}

/// `ents` cut down to the first `count` entries.
pub open spec fn limited(ents: Seq<EntryView>, count: nat) -> Seq<EntryView> {
    ents.take(count as int)
}

/// The inputs on which `Storage::entries` of a `MemStorage` does not panic.
pub open spec fn core_entries_ok(c: MemCoreView, low: u64, high: u64) -> bool {
    low >= core_first_index(c) ==> {
        &&& high <= core_last_index(c) + 1
        &&& c.entries.len() > 0
        &&& c.entries[0].index <= low <= high
        &&& high - c.entries[0].index <= c.entries.len()
    }
}

/// The inputs on which `Storage::term` of a `MemStorage` does not panic.
pub open spec fn core_term_ok(c: MemCoreView, idx: u64) -> bool {
    (idx != c.snapshot_metadata.index && core_first_index(c) <= idx <= core_last_index(c)) ==> idx
        - core_first_index(c) < c.entries.len()
}

/// `Storage::term` of a `MemStorage`.
pub open spec fn core_term(c: MemCoreView, idx: u64) -> Result<u64, StorageError> {
    if idx == c.snapshot_metadata.index {
        Ok(c.snapshot_metadata.term)
    } else if idx < core_first_index(c) {
        Err(StorageError::Compacted)
    } else if idx > core_last_index(c) {
        Err(StorageError::Unavailable)
    } else {
        Ok(c.entries[idx - core_first_index(c)].term)
    }
}

/// `MemStorage::default()`: an empty storage.
#[verifier::external_body]
pub(crate) fn raft_mem_new() -> (r: RaftMemStorage)
    ensures
        mem_core(r) == default_core(),
{
    RaftMemStorage::default()
}

/// `MemStorageCore::append` on the storage's core, the entries converted
/// field by field; it returns `Ok` on every input where it does not panic.
#[verifier::external_body]
pub(crate) fn raft_append(core: &mut RaftMemStorage, ents: &[Entry])
    requires
        core_bounded(mem_core(*old(core))),
        core_append_ok(mem_core(*old(core)), entries_view(ents@)),
    ensures
        mem_core(*final(core)) == core_append(mem_core(*old(core)), entries_view(ents@)),
{
    let v: Vec<eraftpb::Entry> = ents.iter().map(|e| {
        let mut r = eraftpb::Entry::default();
        r.set_entry_type(match e.entry_type {
            EntryType::EntryNormal => eraftpb::EntryType::EntryNormal,
            EntryType::EntryConfChange => eraftpb::EntryType::EntryConfChange,
            EntryType::EntryConfChangeV2 => eraftpb::EntryType::EntryConfChangeV2,
        });
        (r.term, r.index, r.sync_log) = (e.term, e.index, e.sync_log);
        (r.data, r.context) = (e.data.clone().into(), e.context.clone().into());
        r
    }).collect();
    let _ = core.wl().append(&v);
}

/// `MemStorageCore::hard_state`, copied.
#[verifier::external_body]
pub(crate) fn raft_hard_state(core: &RaftMemStorage) -> (r: HardState)
    ensures
        r == mem_core(*core).hard_state,
{
    let h = core.rl().hard_state().clone();
    HardState { term: h.term, vote: h.vote, commit: h.commit }
}

/// `MemStorageCore::set_hardstate`.
#[verifier::external_body]
pub(crate) fn raft_set_hardstate(core: &mut RaftMemStorage, hs: HardState)
    ensures
        mem_core(*final(core)) == (MemCoreView { hard_state: hs, ..mem_core(*old(core)) }),
{
    let mut h = eraftpb::HardState::default();
    (h.term, h.vote, h.commit) = (hs.term, hs.vote, hs.commit);
    core.wl().set_hardstate(h);
}

/// `MemStorageCore::set_conf_state`, the membership converted field by field.
#[verifier::external_body]
pub(crate) fn raft_set_conf_state(core: &mut RaftMemStorage, cs: &ConfState)
    ensures
        mem_core(*final(core)) == (MemCoreView { conf_state: cs@, ..mem_core(*old(core)) }),
{
    let mut c = eraftpb::ConfState::default();
    (c.voters, c.learners) = (cs.voters.clone(), cs.learners.clone());
    (c.voters_outgoing, c.learners_next) = (cs.voters_outgoing.clone(), cs.learners_next.clone());
    c.auto_leave = cs.auto_leave;
    core.wl().set_conf_state(c);
}

/// `MemStorage::initial_state`: the hard state and the membership.
#[verifier::external_body]
pub(crate) fn raft_initial_state(core: &RaftMemStorage) -> (r: (HardState, ConfState))
    ensures
        r.0 == mem_core(*core).hard_state,
        r.1@ == mem_core(*core).conf_state,
{
    let s = core.initial_state().unwrap();
    let (h, c) = (s.hard_state, s.conf_state);
    (HardState { term: h.term, vote: h.vote, commit: h.commit }, ConfState {
        voters: c.voters, learners: c.learners, voters_outgoing: c.voters_outgoing,
        learners_next: c.learners_next, auto_leave: c.auto_leave,
    })
}

/// `MemStorage::snapshot`: the snapshot that the storage's commit index
/// describes (no data). The switch that makes it fail is never set here.
#[verifier::external_body]
pub(crate) fn raft_snapshot(core: &RaftMemStorage, request_index: u64, to: u64) -> (r: Snapshot)
    requires
        !mem_core(*core).snap_unavailable,
        core_snapshot_ok(mem_core(*core)),
    ensures
        r@ == core_snapshot(mem_core(*core), request_index),
{
    let s = core.snapshot(request_index, to).unwrap();
    let (m, c) = (s.get_metadata(), s.get_metadata().get_conf_state());
    let conf_state = ConfState {
        voters: c.voters.clone(), learners: c.learners.clone(),
        voters_outgoing: c.voters_outgoing.clone(), learners_next: c.learners_next.clone(),
        auto_leave: c.auto_leave,
    };
    Snapshot { data: s.data.to_vec(), metadata: SnapshotMetadata { conf_state, index: m.index, term: m.term } }
}

/// `MemStorageCore::apply_snapshot` with the snapshot's metadata converted
/// field by field: `SnapshotOutOfDate` when the snapshot is older than the
/// first held entry, and otherwise the storage takes the snapshot.
#[verifier::external_body]
pub(crate) fn raft_apply_snapshot(core: &mut RaftMemStorage, meta: &SnapshotMetadata) -> (r: Result<(), StorageError>)
    requires
        core_bounded(mem_core(*old(core))),
    ensures
        (r is Ok) == (core_first_index(mem_core(*old(core))) <= meta.index),
        r matches Err(e) ==> e == StorageError::SnapshotOutOfDate,
        mem_core(*final(core)) == if r is Ok {
            core_apply_snapshot(mem_core(*old(core)), meta@)
        } else {
            mem_core(*old(core))
        },
{
    let mut s = eraftpb::Snapshot::default();
    let (m, cs) = (s.mut_metadata(), &meta.conf_state);
    (m.index, m.term) = (meta.index, meta.term);
    let c = m.mut_conf_state();
    (c.voters, c.learners) = (cs.voters.clone(), cs.learners.clone());
    (c.voters_outgoing, c.learners_next) = (cs.voters_outgoing.clone(), cs.learners_next.clone());
    c.auto_leave = cs.auto_leave;
    match core.wl().apply_snapshot(s) { Ok(()) => Ok(()), Err(_) => Err(StorageError::SnapshotOutOfDate) }
}

/// `MemStorageCore::compact`: drops the entries before `compact_index`.
#[verifier::external_body]
pub(crate) fn raft_compact(core: &mut RaftMemStorage, compact_index: u64)
    requires
        core_bounded(mem_core(*old(core))),
        core_compact_ok(mem_core(*old(core)), compact_index),
    ensures
        mem_core(*final(core)) == core_compact(mem_core(*old(core)), compact_index),
{
    let _ = core.wl().compact(compact_index);
}

/// `MemStorage::entries`: `Compacted` below the first index, and otherwise
/// the entries of `[low, high)`, cut down by `limit_size`. The switch that
/// makes it report unavailability is never set here.
#[verifier::external_body]
pub(crate) fn raft_entries(core: &RaftMemStorage, low: u64, high: u64, max_size: Option<u64>, context: GetEntriesContext) -> (r: Result<Vec<Entry>, StorageError>)
    requires
        core_bounded(mem_core(*core)),
        !mem_core(*core).log_unavailable,
        core_entries_ok(mem_core(*core), low, high),
    ensures
        ({
            let c = mem_core(*core);
            match r {
                Err(e) => low < core_first_index(c) && e == StorageError::Compacted,
                Ok(v) => {
                    let range = c.entries.subrange(low - c.entries[0].index, high - c.entries[0].index);
                    &&& low >= core_first_index(c)
                    &&& entries_view(v@) == limited(range, limit_count(
                        range.map_values(|e: EntryView| encoded_size(e)), max_size))
                },
            }
        }),
{
    match core.entries(low, high, max_size, context) {
        Ok(v) => Ok(v.into_iter().map(|e| Entry {
            entry_type: match e.get_entry_type() {
                eraftpb::EntryType::EntryNormal => EntryType::EntryNormal,
                eraftpb::EntryType::EntryConfChange => EntryType::EntryConfChange,
                eraftpb::EntryType::EntryConfChangeV2 => EntryType::EntryConfChangeV2,
            },
            term: e.term, index: e.index, data: e.data.to_vec(), context: e.context.to_vec(), sync_log: e.sync_log,
        }).collect()),
        Err(_) => Err(StorageError::Compacted),
    }
}

/// `MemStorage::term`: the term of the entry at `idx`, `Compacted` before
/// the first index and `Unavailable` after the last.
#[verifier::external_body]
pub(crate) fn raft_term(core: &RaftMemStorage, idx: u64) -> (r: Result<u64, StorageError>)
    requires
        core_bounded(mem_core(*core)),
        core_term_ok(mem_core(*core), idx),
    ensures
        r == core_term(mem_core(*core), idx),
{
    match core.term(idx) {
        Ok(t) => Ok(t),
        Err(jopemachine_raft::Error::Store(jopemachine_raft::StorageError::Compacted)) => Err(StorageError::Compacted),
        Err(_) => Err(StorageError::Unavailable),
    }
}

/// `MemStorage::first_index`.
#[verifier::external_body]
pub(crate) fn raft_first_index(core: &RaftMemStorage) -> (r: u64)
    requires
        core_bounded(mem_core(*core)),
    ensures
        r == core_first_index(mem_core(*core)),
{
    core.first_index().unwrap()
}

/// `MemStorage::last_index`.
#[verifier::external_body]
pub(crate) fn raft_last_index(core: &RaftMemStorage) -> (r: u64)
    ensures
        r == core_last_index(mem_core(*core)),
{
    core.last_index().unwrap()
}

/// `jopemachine_raft::util::limit_size` on the entries converted field by
/// field: the number of entries that it keeps.
#[verifier::external_body]
pub(crate) fn raft_limit_size(ents: &[Entry], max_size: Option<u64>) -> (r: usize)
    ensures
        r == limit_count(entries_view(ents@).map_values(|e: EntryView| encoded_size(e)), max_size),
{
    let mut v: Vec<eraftpb::Entry> = ents.iter().map(|e| {
        let mut r = eraftpb::Entry::default();
        r.set_entry_type(match e.entry_type {
            EntryType::EntryNormal => eraftpb::EntryType::EntryNormal,
            EntryType::EntryConfChange => eraftpb::EntryType::EntryConfChange,
            EntryType::EntryConfChangeV2 => eraftpb::EntryType::EntryConfChangeV2,
        });
        (r.term, r.index, r.sync_log) = (e.term, e.index, e.sync_log);
        (r.data, r.context) = (e.data.clone().into(), e.context.clone().into());
        r
    }).collect();
    jopemachine_raft::util::limit_size(&mut v, max_size);
    v.len()
}

} // verus!

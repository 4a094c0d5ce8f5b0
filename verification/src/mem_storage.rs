//! A Raft log storage kept in memory, on top of raft-rs's `MemStorage`.
use crate::error::Error;
use crate::raft_store::{
    core_append, core_append_ok, core_apply_snapshot, core_bounded, core_compact, core_compact_ok,
    core_entries_ok, core_first_index, core_last_index, core_snapshot, core_snapshot_ok, core_term,
    core_term_ok, default_core, encoded_size, limit_count, limited, mem_core, raft_append,
    raft_apply_snapshot, raft_compact, raft_entries, raft_first_index, raft_hard_state,
    raft_initial_state, raft_last_index, raft_mem_new, raft_set_conf_state, raft_set_hardstate,
    raft_snapshot, raft_term, MemCoreView,
};
use crate::types::{
    entries_view, ConfState, ConfStateView, Entry, EntryView, HardState, Snapshot, SnapshotMetadata,
    SnapshotMetadataView, SnapshotView, StorageError,
};
use jopemachine_raft::storage::MemStorage as RaftMemStorage;
use jopemachine_raft::GetEntriesContext;
use vstd::prelude::*;

verus! {

/// The index that no entry has.
pub const INVALID_INDEX: u64 = 0;

/// The hard state and the membership with which a Raft node starts.
#[derive(Debug)]
pub struct RaftState {
    pub hard_state: HardState,
    pub conf_state: ConfState,
}

/// A Raft log storage in memory. The log, the hard state and the membership
/// are held by raft-rs's `MemStorage`; the last snapshot created is held
/// beside it.
pub struct MemStorage {
    core: RaftMemStorage,
    snapshot: Snapshot,
}

impl MemStorage {
    /// The log, hard state and membership.
    pub closed spec fn core_view(&self) -> MemCoreView {
        mem_core(self.core)
    }

    /// The last snapshot created.
    pub closed spec fn snapshot_view(&self) -> SnapshotView {
        self.snapshot@
    }

    /// The storage never reports itself unavailable, and holds entries with
    /// consecutive indexes, all below `u64::MAX` (raft-rs's `MemStorageCore`
    /// relies on both: it finds an entry by its offset from the first one,
    /// and adds one to its first and last index).
    pub open spec fn wf(&self) -> bool {
        &&& !self.core_view().snap_unavailable
        &&& !self.core_view().log_unavailable
        &&& core_bounded(self.core_view())
        &&& contiguous(self.core_view().entries)
        &&& self.core_view().entries.len() > 0 ==> self.core_view().entries[0].index
            > self.core_view().snapshot_metadata.index
    }

    /// An empty storage.
    pub fn create() -> (r: MemStorage)
        ensures
            r.core_view() == default_core(),
            r.snapshot_view() == Snapshot::default_view(),
            r.wf(),
    {
        MemStorage { core: raft_mem_new(), snapshot: Snapshot::default_snapshot() }
    }

    /// Appends entries to the log: the held entries from the index of the
    /// first new entry on are replaced by the new entries.
    pub fn append(&mut self, entries: &[Entry]) -> (r: Result<(), Error>)
        requires
            old(self).wf(),
            append_fits(old(self).core_view(), entries_view(entries@)),
        ensures
            r is Ok,
            final(self).core_view() == core_append(old(self).core_view(), entries_view(entries@)),
            final(self).snapshot_view() == old(self).snapshot_view(),
            final(self).wf(),
    {
        let ghost c = self.core_view();
        let ghost ents = entries_view(entries@);
        proof {
            lemma_log_span(c);
            if ents.len() > 0 {
                law_append_keeps_contiguous(c, ents);
                let after = core_append(c, ents).entries;
                let k = ents[0].index - core_first_index(c);
                assert forall|j: int| 0 <= j < after.len() implies (#[trigger] after[j]).index
                    < u64::MAX by {
                    if j < k {
                        assert(after[j] == c.entries[j]);
                    } else {
                        assert(after[j] == ents[j - k]);
                    }
                }
            }
        }
        raft_append(&mut self.core, entries);
        Ok(())
    }

    pub fn hard_state(&self) -> (r: Result<HardState, Error>)
        ensures
            r matches Ok(hs) && hs == self.core_view().hard_state,
    {
        Ok(raft_hard_state(&self.core))
    }

    pub fn set_hard_state(&mut self, hard_state: &HardState) -> (r: Result<(), Error>)
        ensures
            r is Ok,
            final(self).core_view() == (MemCoreView { hard_state: *hard_state, ..old(self).core_view() }),
            final(self).snapshot_view() == old(self).snapshot_view(),
    {
        raft_set_hardstate(&mut self.core, *hard_state);
        Ok(())
    }

    /// Records a new commit index, keeping the term and the vote.
    pub fn set_hard_state_commit(&mut self, commit: u64) -> (r: Result<(), Error>)
        ensures
            r is Ok,
            final(self).core_view() == (MemCoreView {
                hard_state: HardState { commit, ..old(self).core_view().hard_state },
                ..old(self).core_view()
            }),
            final(self).snapshot_view() == old(self).snapshot_view(),
    {
        let mut hard_state = raft_hard_state(&self.core);
        hard_state.commit = commit;
        raft_set_hardstate(&mut self.core, hard_state);
        Ok(())
    }

    pub fn set_conf_state(&mut self, conf_state: &ConfState) -> (r: Result<(), Error>)
        ensures
            r is Ok,
            final(self).core_view() == (MemCoreView { conf_state: conf_state@, ..old(self).core_view() }),
            final(self).snapshot_view() == old(self).snapshot_view(),
    {
        raft_set_conf_state(&mut self.core, conf_state);
        Ok(())
    }

    /// Records a snapshot of the state machine: the snapshot that the
    /// storage's commit index describes, with the given data, index and term.
    pub fn create_snapshot(&mut self, data: Vec<u8>, index: u64, term: u64) -> (r: Result<(), Error>)
        requires
            old(self).wf(),
            core_snapshot_ok(old(self).core_view()),
        ensures
            r is Ok,
            final(self).core_view() == old(self).core_view(),
            final(self).snapshot_view() == (SnapshotView {
                data: data@,
                metadata: SnapshotMetadataView {
                    index,
                    term,
                    ..core_snapshot(old(self).core_view(), 0).metadata
                },
            }),
    {
        let mut snapshot = raft_snapshot(&self.core, 0, 0);
        snapshot.data = data;
        snapshot.metadata.index = index;
        snapshot.metadata.term = term;
        self.snapshot = snapshot;
        Ok(())
    }

    /// Whether a snapshot can be created now: the commit index is the index
    /// of the last snapshot applied or of a held entry.
    pub fn can_create_snapshot(&self) -> (r: bool)
        requires
            self.wf(),
        ensures
            r == core_snapshot_ok(self.core_view()),
    {
        let commit = raft_hard_state(&self.core).commit;
        let first = raft_first_index(&self.core);
        let last = raft_last_index(&self.core);
        proof {
            lemma_log_span(self.core_view());
        }
        if commit < first {
            proof {
                let c = self.core_view();
                if c.entries.len() > 0 {
                    assert(c.entries[0].index == core_first_index(c));
                }
            }
            raft_term(&self.core, commit).is_ok()
        } else {
            proof {
                let c = self.core_view();
                if c.entries.len() > 0 {
                    assert(c.entries[0].index == core_first_index(c));
                }
            }
            commit <= last
        }
    }

    /// Replaces the log by a snapshot. A snapshot whose index is the invalid
    /// index only updates the membership. Otherwise a snapshot older than
    /// the first entry is refused with `SnapshotOutOfDate`.
    pub fn apply_snapshot(&mut self, snapshot: Snapshot) -> (r: Result<(), Error>)
        requires
            old(self).wf(),
            snapshot.metadata.index < u64::MAX,
        ensures
            final(self).wf(),
            final(self).snapshot_view() == old(self).snapshot_view(),
            snapshot.metadata.index == INVALID_INDEX ==> r is Ok && final(self).core_view() == (
            MemCoreView { conf_state: snapshot.metadata.conf_state@, ..old(self).core_view() }),
            snapshot.metadata.index != INVALID_INDEX ==> {
                &&& (r is Ok) == (core_first_index(old(self).core_view()) <= snapshot.metadata.index)
                &&& r matches Err(e) ==> e == Error::Storage(StorageError::SnapshotOutOfDate)
                &&& final(self).core_view() == if r is Ok {
                    core_apply_snapshot(old(self).core_view(), snapshot.metadata@)
                } else {
                    old(self).core_view()
                }
            },
    {
        if snapshot.metadata.index == INVALID_INDEX {
            raft_set_conf_state(&mut self.core, &snapshot.metadata.conf_state);
            return Ok(());
        }
        match raft_apply_snapshot(&mut self.core, &snapshot.metadata) {
            Ok(()) => Ok(()),
            Err(e) => Err(Error::Storage(e)),
        }
    }

    /// Discards the entries before `index`.
    pub fn compact(&mut self, index: u64) -> (r: Result<(), Error>)
        requires
            old(self).wf(),
            compact_fits(old(self).core_view(), index),
        ensures
            r is Ok,
            final(self).core_view() == core_compact(old(self).core_view(), index),
            final(self).snapshot_view() == old(self).snapshot_view(),
            final(self).wf(),
    {
        let ghost c = self.core_view();
        proof {
            lemma_log_span(c);
            if index <= core_first_index(c) {
                law_compact_before_first_index(c, index);
            } else if index <= core_last_index(c) {
                law_compact_then_first_index(c, index);
            } else {
                let after = core_compact(c, index).entries;
                assert(after.len() == 0);
            }
            let after = core_compact(c, index).entries;
            if index > core_first_index(c) {
                let off = index - c.entries[0].index;
                assert forall|j: int| 0 <= j < after.len() implies (#[trigger] after[j]).index
                    < u64::MAX by {
                    assert(after[j] == c.entries[off + j]);
                }
            }
        }
        raft_compact(&mut self.core, index);
        Ok(())
    }

    pub fn initial_state(&self) -> (r: Result<RaftState, StorageError>)
        ensures
            r matches Ok(s) && s.hard_state == self.core_view().hard_state && s.conf_state@
                == self.core_view().conf_state,
    {
        let (hard_state, conf_state) = raft_initial_state(&self.core);
        Ok(RaftState { hard_state, conf_state })
    }

    /// The entries of `[low, high)`, cut down to `max_size` bytes (but at
    /// least one entry); `Compacted` when `low` is before the first index.
    pub fn entries(&self, low: u64, high: u64, max_size: Option<u64>, context: GetEntriesContext) -> (r: Result<Vec<Entry>, StorageError>)
        requires
            self.wf(),
            entries_fit(self.core_view(), low, high),
        ensures
            ({
                let c = self.core_view();
                match r {
                    Err(e) => low < core_first_index(c) && e == StorageError::Compacted,
                    Ok(v) => {
                        let range = c.entries.subrange(low - c.entries[0].index, high - c.entries[0].index);
                        &&& low >= core_first_index(c)
                        &&& entries_view(v@) == limited(range, limit_count(
                            range.map_values(|e: EntryView| encoded_size(e)), max_size))
                    },
                }
            }),
    {
        raft_entries(&self.core, low, high, max_size, context)
    }

    pub fn term(&self, idx: u64) -> (r: Result<u64, StorageError>)
        requires
            self.wf(),
        ensures
            r == core_term(self.core_view(), idx),
    {
        proof {
            let c = self.core_view();
            lemma_log_span(c);
            if idx != c.snapshot_metadata.index && core_first_index(c) <= idx <= core_last_index(c) {
                law_term_of_held_entry(c, idx);
            }
        }
        raft_term(&self.core, idx)
    }

    pub fn first_index(&self) -> (r: Result<u64, StorageError>)
        requires
            self.wf(),
        ensures
            r matches Ok(i) && i == core_first_index(self.core_view()),
    {
        Ok(raft_first_index(&self.core))
    }

    pub fn last_index(&self) -> (r: Result<u64, StorageError>)
        ensures
            r matches Ok(i) && i == core_last_index(self.core_view()),
    {
        Ok(raft_last_index(&self.core))
    }

    /// The last snapshot created.
    pub fn snapshot(&self, request_index: u64, to: u64) -> (r: Result<Snapshot, StorageError>)
        ensures
            r matches Ok(s) && s@ == self.snapshot_view(),
    {
        Ok(self.snapshot.duplicate())
    }
}


/// The entries carry consecutive indexes.
pub open spec fn contiguous(entries: Seq<EntryView>) -> bool {
    forall|j: int| 0 <= j < entries.len() ==> (#[trigger] entries[j]).index == entries[0].index + j
}

/// Entries may be appended: they carry consecutive indexes below
/// `u64::MAX`, and the first of them neither overwrites compacted entries
/// nor leaves a gap after the last held entry.
pub open spec fn append_fits(c: MemCoreView, ents: Seq<EntryView>) -> bool {
    &&& contiguous(ents)
    &&& forall|j: int| 0 <= j < ents.len() ==> (#[trigger] ents[j]).index < u64::MAX
    &&& ents.len() > 0 ==> core_first_index(c) <= ents[0].index <= core_last_index(c) + 1
}

/// The log may be compacted up to `index`: not past the entry that follows
/// the last held one.
pub open spec fn compact_fits(c: MemCoreView, index: u64) -> bool {
    index > core_first_index(c) ==> index <= core_last_index(c) + 1
}

/// Entries of `[low, high)` may be read: below the first index the storage
/// answers `Compacted`; from it on, the range lies within the held entries.
pub open spec fn entries_fit(c: MemCoreView, low: u64, high: u64) -> bool {
    low >= core_first_index(c) ==> low <= high <= core_last_index(c) + 1 && core_first_index(c)
        <= core_last_index(c)
}

/// Whether entries carry consecutive indexes, all below `u64::MAX`: what
/// `append` asks of the entries beyond where the first of them falls.
pub fn consecutive_below_max(entries: &[Entry]) -> (r: bool)
    ensures
        r == (contiguous(entries_view(entries@)) && forall|j: int|
            0 <= j < entries@.len() ==> (#[trigger] entries_view(entries@)[j]).index < u64::MAX),
{
    let ghost ents = entries_view(entries@);
    let mut i: usize = 0;
    while i < entries.len()
        invariant
            i <= entries.len(),
            ents == entries_view(entries@),
            forall|j: int| 0 <= j < i ==> (#[trigger] ents[j]).index < u64::MAX,
            forall|j: int| 0 <= j < i ==> (#[trigger] ents[j]).index == ents[0].index + j,
        decreases entries.len() - i,
    {
        let idx = entries[i].index;
        assert(ents[i as int].index == idx);
        if idx == u64::MAX {
            return false;
        }
        if i > 0 {
            let first = entries[0].index;
            assert(ents[0].index == first);
            if idx < first || idx - first != i as u64 {
                assert(!contiguous(ents));
                return false;
            }
        }
        i = i + 1;
    }
    true
}

/// A log of consecutive entries below `u64::MAX` holds exactly the indexes
/// from its first to its last, and both fit in a `u64` with one added.
proof fn lemma_log_span(c: MemCoreView)
    requires
        core_bounded(c),
        contiguous(c.entries),
    ensures
        c.entries.len() == core_last_index(c) - core_first_index(c) + 1,
        core_first_index(c) <= u64::MAX,
        core_last_index(c) < u64::MAX,
        c.entries.len() > 0 ==> c.entries[0].index == core_first_index(c),
        core_append_ok(c, Seq::<EntryView>::empty()),
{
    let n = c.entries.len();
    if n > 0 {
        assert(c.entries[n - 1].index == c.entries[0].index + (n - 1));
        assert(c.entries[n - 1].index < u64::MAX);
    }
}

/// After entries are appended, the last index is the index of the last new
/// entry, the new entries are held from the first new index on, and the
/// held entries before it are kept.
pub proof fn law_append_then_read(c: MemCoreView, ents: Seq<EntryView>)
    requires
        core_append_ok(c, ents),
        ents.len() > 0,
    ensures
        ({
            let after = core_append(c, ents);
            let k = ents[0].index - core_first_index(c);
            &&& core_last_index(after) == ents.last().index
            &&& after.entries.len() == k + ents.len()
            &&& forall|j: int| 0 <= j < ents.len() ==> after.entries[k + j] == ents[j]
            &&& forall|j: int| 0 <= j < k ==> after.entries[j] == c.entries[j]
        }),
{
    let after = core_append(c, ents);
    let k = ents[0].index - core_first_index(c);
    assert(after.entries.last() == ents.last());
}

/// Appending consecutive entries to a log of consecutive entries keeps its
/// indexes consecutive.
pub proof fn law_append_keeps_contiguous(c: MemCoreView, ents: Seq<EntryView>)
    requires
        core_append_ok(c, ents),
        contiguous(c.entries),
        contiguous(ents),
    ensures
        contiguous(core_append(c, ents).entries),
{
    if ents.len() > 0 {
        let after = core_append(c, ents).entries;
        let k = ents[0].index - core_first_index(c);
        assert forall|j: int| 0 <= j < after.len() implies (#[trigger] after[j]).index == after[0].index + j by {
            if k == 0 {
                assert(after[j] == ents[j]);
            } else {
                assert(after[0] == c.entries[0]);
                if j < k {
                    assert(after[j] == c.entries[j]);
                } else {
                    assert(after[j] == ents[j - k]);
                }
            }
        }
    }
}

/// Compacting a log of consecutive entries up to an index inside it makes
/// that index the first one, and keeps the last index.
pub proof fn law_compact_then_first_index(c: MemCoreView, compact_index: u64)
    requires
        contiguous(c.entries),
        core_first_index(c) < compact_index <= core_last_index(c),
    ensures
        core_compact_ok(c, compact_index),
        core_first_index(core_compact(c, compact_index)) == compact_index,
        core_last_index(core_compact(c, compact_index)) == core_last_index(c),
        contiguous(core_compact(c, compact_index).entries),
{
    let n = c.entries.len();
    assert(c.entries[n - 1].index == c.entries[0].index + (n - 1));
    let after = core_compact(c, compact_index).entries;
    let off = compact_index - c.entries[0].index;
    assert(after[0] == c.entries[off]);
    assert(after.last() == c.entries.last());
    assert forall|j: int| 0 <= j < after.len() implies (#[trigger] after[j]).index == after[0].index + j by {
        assert(after[j] == c.entries[off + j]);
    }
}

/// Compacting at or before the first index changes nothing.
pub proof fn law_compact_before_first_index(c: MemCoreView, compact_index: u64)
    requires
        compact_index <= core_first_index(c),
    ensures
        core_compact_ok(c, compact_index),
        core_compact(c, compact_index) == c,
{
}

/// In a log of consecutive entries, the term of a held index that is not
/// the snapshot's is the term of the entry that carries that index.
pub proof fn law_term_of_held_entry(c: MemCoreView, idx: u64)
    requires
        contiguous(c.entries),
        core_first_index(c) <= idx <= core_last_index(c),
        idx != c.snapshot_metadata.index,
    ensures
        core_term_ok(c, idx),
        ({
            let e = c.entries[idx - core_first_index(c)];
            &&& e.index == idx
            &&& core_term(c, idx) == Ok::<u64, StorageError>(e.term)
        }),
{
    let n = c.entries.len();
    assert(c.entries[n - 1].index == c.entries[0].index + (n - 1));
}

/// Applying a snapshot leaves an empty log that starts after the snapshot,
/// commits the snapshot's index, takes its membership, and never lowers the
/// term.
pub proof fn law_apply_snapshot_resets_log(c: MemCoreView, meta: SnapshotMetadataView)
    ensures
        ({
            let after = core_apply_snapshot(c, meta);
            &&& after.entries.len() == 0
            &&& core_first_index(after) == meta.index + 1
            &&& core_last_index(after) == meta.index
            &&& after.hard_state.commit == meta.index
            &&& after.hard_state.term >= c.hard_state.term
            &&& after.hard_state.term >= meta.term
            &&& after.hard_state.vote == c.hard_state.vote
            &&& after.conf_state == meta.conf_state
            &&& core_term(after, meta.index) == Ok::<u64, StorageError>(meta.term)
        }),
{
}

/// What is written is read back: the hard state and the membership set are
/// the ones the storage then holds, a new commit index keeps the term and
/// the vote, and a created snapshot is the one then returned.
pub proof fn law_read_after_write(
    c: MemCoreView,
    hs: HardState,
    commit: u64,
    cs: ConfStateView,
    data: Seq<u8>,
    index: u64,
    term: u64,
)
    ensures
        (MemCoreView { hard_state: hs, ..c }).hard_state == hs,
        (MemCoreView { hard_state: HardState { commit, ..c.hard_state }, ..c }).hard_state
            == (HardState { term: c.hard_state.term, vote: c.hard_state.vote, commit }),
        (MemCoreView { conf_state: cs, ..c }).conf_state == cs,
        ({
            let snap = SnapshotView {
                data,
                metadata: SnapshotMetadataView { index, term, ..core_snapshot(c, 0).metadata },
            };
            &&& snap.data == data
            &&& snap.metadata.index == index
            &&& snap.metadata.term == term
            &&& snap.metadata.conf_state == c.conf_state
        }),
{
}

} // verus!

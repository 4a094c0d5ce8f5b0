//! The rules by which a persistent Raft log storage answers and changes: the
//! first index, the term of an index, the checks on appended entries, the
//! new last index, the state after a snapshot is applied, and the size limit
//! on returned entries. The store that keeps the values on disk calls these
//! with what it has read, and writes what they return.
use crate::keys::{entry_key, entry_key_string, parse_u64, parsed_u64, parses_as_u64};
use crate::raft_store::{encoded_size, limit_count, raft_limit_size};
use crate::types::{
    copy_bytes, entries_view, ConfState, Entry, EntryView, HardState, Snapshot, SnapshotMetadata,
    SnapshotView, StorageError,
};
use vstd::prelude::*;

verus! {

/// The first index of the log: the index of the first stored entry (read
/// from its key), or the one after the snapshot when no entry is stored.
pub open spec fn spec_first_index(first_key: Option<Seq<char>>, snapshot_index: u64) -> int {
    match first_key {
        Some(k) => parsed_u64(k) as int,
        None => snapshot_index + 1,
    }
}

/// The first index of the log, from the key of the first stored entry, if
/// any, and the index of the stored snapshot.
pub fn first_index_of(first_key: Option<&str>, snapshot_index: u64) -> (r: u64)
    requires
        first_key matches Some(k) ==> parses_as_u64(k@),
        first_key is None ==> snapshot_index < u64::MAX,
    ensures
        r == spec_first_index(
            match first_key {
                Some(k) => Some(k@),
                None => None,
            },
            snapshot_index,
        ),
{
    match first_key {
        Some(k) => match parse_u64(k) {
            Some(i) => i,
            None => {
                assert(false);
                0
            },
        },
        None => snapshot_index + 1,
    }
}

/// The term of the entry at `idx`: the snapshot's term at the snapshot's
/// index, the stored entry's term, `Compacted` for a missing entry before
/// the first index and `Unavailable` for a missing entry after it.
pub open spec fn spec_term(
    idx: u64,
    first_index: u64,
    snapshot_index: u64,
    snapshot_term: u64,
    entry_term: Option<u64>,
) -> Result<u64, StorageError> {
    if snapshot_index == idx {
        Ok(snapshot_term)
    } else {
        match entry_term {
            Some(t) => Ok(t),
            None => if idx < first_index {
                Err(StorageError::Compacted)
            } else {
                Err(StorageError::Unavailable)
            },
        }
    }
}

/// Answers a request for the term of the entry at `idx`, from the first
/// index, the stored snapshot's index and term, and the term of the entry
/// stored under `idx`, if any.
pub fn term_of(
    idx: u64,
    first_index: u64,
    snapshot_index: u64,
    snapshot_term: u64,
    entry_term: Option<u64>,
) -> (r: Result<u64, StorageError>)
    ensures
        r == spec_term(idx, first_index, snapshot_index, snapshot_term, entry_term),
        idx == snapshot_index ==> r == Ok::<u64, StorageError>(snapshot_term),
        idx != snapshot_index && entry_term is Some ==> r == Ok::<u64, StorageError>(
            entry_term.unwrap(),
        ),
        idx != snapshot_index && entry_term is None && idx < first_index ==> r == Err::<
            u64,
            StorageError,
        >(StorageError::Compacted),
        idx != snapshot_index && entry_term is None && idx >= first_index ==> r == Err::<
            u64,
            StorageError,
        >(StorageError::Unavailable),
{
    proof {
        law_term_answers(idx, first_index, snapshot_index, snapshot_term, entry_term);
    }
    if snapshot_index == idx {
        return Ok(snapshot_term);
    }
    match entry_term {
        Some(t) => Ok(t),
        None => {
            if idx < first_index {
                Err(StorageError::Compacted)
            } else {
                Err(StorageError::Unavailable)
            }
        },
    }
}

/// The term of an index is the snapshot's term only at the snapshot's own
/// index; elsewhere it is the stored entry's term, and an index with no
/// stored entry is `Compacted` before the first index and `Unavailable`
/// from it on, whatever the snapshot's index and term. In particular the
/// answer for any index other than the snapshot's does not depend on the
/// snapshot's term.
pub proof fn law_term_answers(
    idx: u64,
    first_index: u64,
    snapshot_index: u64,
    snapshot_term: u64,
    entry_term: Option<u64>,
)
    ensures
        idx == snapshot_index ==> spec_term(idx, first_index, snapshot_index, snapshot_term, entry_term)
            == Ok::<u64, StorageError>(snapshot_term),
        idx != snapshot_index && entry_term is Some ==> spec_term(
            idx,
            first_index,
            snapshot_index,
            snapshot_term,
            entry_term,
        ) == Ok::<u64, StorageError>(entry_term.unwrap()),
        idx != snapshot_index && entry_term is None && idx < first_index ==> spec_term(
            idx,
            first_index,
            snapshot_index,
            snapshot_term,
            entry_term,
        ) == Err::<u64, StorageError>(StorageError::Compacted),
        idx != snapshot_index && entry_term is None && idx >= first_index ==> spec_term(
            idx,
            first_index,
            snapshot_index,
            snapshot_term,
            entry_term,
        ) == Err::<u64, StorageError>(StorageError::Unavailable),
        forall|other_term: u64|
            idx != snapshot_index ==> spec_term(idx, first_index, snapshot_index, other_term, entry_term)
                == spec_term(idx, first_index, snapshot_index, snapshot_term, entry_term),
{
}

/// Refuses a request for entries from `low` on when `low` is before the
/// first index.
pub fn check_entries_low(low: u64, first_index: u64) -> (r: Result<(), StorageError>)
    ensures
        r is Ok <==> low >= first_index,
        r matches Err(e) ==> e == StorageError::Compacted,
{
    if low < first_index {
        Err(StorageError::Compacted)
    } else {
        Ok(())
    }
}

/// The keys that bound the stored entries of `[low, high)`.
pub fn entries_key_range(low: u64, high: u64) -> (r: (String, String))
    ensures
        r.0@ == entry_key(low as nat),
        r.1@ == entry_key(high as nat),
{
    (entry_key_string(low), entry_key_string(high))
}

/// Why entries cannot be appended to a log.
#[derive(Debug, PartialEq, Eq, Structural)]
pub enum AppendRefusal {
    /// The first new entry is before the first index of the log.
    OverwriteCompacted { first_index: u64, append: u64 },
    /// The first new entry is after the entry that follows the last one.
    NotContinuous { last_index: u64, append: u64 },
}

/// The largest of `last_index` and the indexes of `ents`.
pub open spec fn max_index(last_index: u64, ents: Seq<EntryView>) -> u64
    decreases ents.len(),
{
    if ents.len() == 0 {
        last_index
    } else {
        let m = max_index(last_index, ents.drop_last());
        if ents.last().index > m {
            ents.last().index
        } else {
            m
        }
    }
}

/// The largest of `last_index` and the indexes of the entries: the last
/// index once they are stored.
pub fn last_index_after(last_index: u64, entries: &[Entry]) -> (r: u64)
    ensures
        r == max_index(last_index, entries_view(entries@)),
{
    let mut m = last_index;
    let mut i: usize = 0;
    while i < entries.len()
        invariant
            i <= entries.len(),
            m == max_index(last_index, entries_view(entries@).take(i as int)),
        decreases entries.len() - i,
    {
        let idx = entries[i].index;
        assert(entries_view(entries@).take(i + 1).drop_last() =~= entries_view(entries@).take(
            i as int,
        ));
        if idx > m {
            m = idx;
        }
        i = i + 1;
    }
    assert(entries_view(entries@).take(entries.len() as int) =~= entries_view(entries@));
    m
}

/// Decides whether entries may be appended to a log with the given first
/// and last index, and if so what the last index becomes. An empty batch
/// changes nothing.
pub fn plan_append(first_index: u64, last_index: u64, entries: &[Entry]) -> (r: Result<
    u64,
    AppendRefusal,
>)
    ensures
        entries.len() == 0 ==> r == Ok::<u64, AppendRefusal>(last_index),
        entries.len() > 0 ==> {
            let first = entries@[0].index;
            &&& first_index > first ==> r == Err::<u64, AppendRefusal>(
                AppendRefusal::OverwriteCompacted { first_index, append: first },
            )
            &&& first_index <= first && last_index + 1 < first ==> r == Err::<u64, AppendRefusal>(
                AppendRefusal::NotContinuous { last_index, append: first },
            )
            &&& first_index <= first && first <= last_index + 1 ==> r == Ok::<u64, AppendRefusal>(
                max_index(last_index, entries_view(entries@)),
            )
        },
{
    if entries.len() == 0 {
        return Ok(last_index);
    }
    let first = entries[0].index;
    if first_index > first {
        return Err(AppendRefusal::OverwriteCompacted { first_index, append: first });
    }
    if last_index < first && first - last_index > 1 {
        return Err(AppendRefusal::NotContinuous { last_index, append: first });
    }
    Ok(last_index_after(last_index, entries))
}

/// The hard state once a snapshot is applied: its commit index becomes the
/// snapshot's index, and its term the larger of its own and the snapshot's.
pub fn snapshot_hard_state(hard_state: HardState, snapshot_index: u64, snapshot_term: u64) -> (r:
    HardState)
    ensures
        r == (HardState {
            term: if hard_state.term >= snapshot_term {
                hard_state.term
            } else {
                snapshot_term
            },
            commit: snapshot_index,
            vote: hard_state.vote,
        }),
{
    let term = if hard_state.term >= snapshot_term {
        hard_state.term
    } else {
        snapshot_term
    };
    HardState { term, vote: hard_state.vote, commit: snapshot_index }
}

/// The snapshot recorded for the state machine's data at `index` and
/// `term`, with the current membership.
pub fn new_snapshot(data: Vec<u8>, conf_state: ConfState, index: u64, term: u64) -> (r: Snapshot)
    ensures
        r@ == (SnapshotView {
            data: data@,
            metadata: crate::types::SnapshotMetadataView { conf_state: conf_state@, index, term },
        }),
{
    Snapshot { data, metadata: SnapshotMetadata { conf_state, index, term } }
}

/// `entries` cut down to `max_size` bytes of encoded entries, keeping at
/// least one: the size limit of raft-rs (`limit_size`).
pub fn limit_entries(entries: Vec<Entry>, max_size: Option<u64>) -> (r: Vec<Entry>)
    ensures
        entries_view(r@) == entries_view(entries@).take(
            limit_count(entries_view(entries@).map_values(|e: EntryView| encoded_size(e)), max_size)
                as int,
        ),
{
    let count = raft_limit_size(entries.as_slice(), max_size);
    let ghost n = count as int;
    assert(n <= entries.len()) by {
        law_limit_size_bounds(
            entries_view(entries@).map_values(|e: EntryView| encoded_size(e)),
            max_size,
        );
    }
    let mut r: Vec<Entry> = Vec::new();
    let mut i: usize = 0;
    let mut entries = entries;
    let ghost all = entries@;
    while i < count
        invariant
            count <= entries.len(),
            entries@ == all,
            i <= count,
            r@.len() == i,
            forall|k: int| 0 <= k < i ==> (#[trigger] r@[k])@ == all[k]@,
        decreases count - i,
    {
        r.push(entries[i].duplicate());
        i = i + 1;
    }
    assert(entries_view(r@) =~= entries_view(all).take(n));
    r
}

/// The size limit keeps at least one entry of a non-empty list, never
/// more entries than it is given, and all of them when there is no limit.
pub proof fn law_limit_size_bounds(sizes: Seq<u32>, max: Option<u64>)
    ensures
        limit_count(sizes, max) <= sizes.len(),
        sizes.len() >= 1 ==> limit_count(sizes, max) >= 1,
        max is None ==> limit_count(sizes, max) == sizes.len(),
{
    if sizes.len() > 1 {
        if let Some(m) = max {
            if m != u64::MAX {
                lemma_kept_while_bounds(sizes, m as int, 1, sizes[0] as int);
            }
        }
    }
}

/// The total size of the first `k` entries.
pub open spec fn prefix_size(sizes: Seq<u32>, k: int) -> int
    decreases k,
{
    if k <= 0 || k > sizes.len() {
        0
    } else {
        prefix_size(sizes, k - 1) + sizes[k - 1]
    }
}

/// With a limit, the size limit keeps the longest prefix within it: every
/// kept entry brings the total to at most the limit, unless all entries
/// before it have size zero (so the first entry is always kept), and the
/// first entry left out would bring a non-zero total past the limit.
pub proof fn law_limit_size_longest_prefix(sizes: Seq<u32>, m: u64)
    requires
        sizes.len() > 1,
        m != u64::MAX,
    ensures
        ({
            let n = limit_count(sizes, Some(m)) as int;
            &&& 1 <= n <= sizes.len()
            &&& forall|k: int| 1 <= k <= n ==> #[trigger] prefix_size(sizes, k) <= m || prefix_size(sizes, k - 1) == 0
            &&& n < sizes.len() ==> prefix_size(sizes, n + 1) > m && prefix_size(sizes, n) > 0
        }),
{
    lemma_kept_while_prefix(sizes, m as int, 0, 0);
    law_limit_size_bounds(sizes, Some(m));
}

proof fn lemma_prefix_size_nonneg(sizes: Seq<u32>, k: int)
    ensures
        prefix_size(sizes, k) >= 0,
    decreases k,
{
    if k > 0 && k <= sizes.len() {
        lemma_prefix_size_nonneg(sizes, k - 1);
    }
}

proof fn lemma_kept_while_prefix(sizes: Seq<u32>, max: int, i: int, size: int)
    requires
        0 <= i <= sizes.len(),
        size == prefix_size(sizes, i),
        forall|k: int| 1 <= k <= i ==> #[trigger] prefix_size(sizes, k) <= max || prefix_size(sizes, k - 1) == 0,
    ensures
        ({
            let n = crate::raft_store::kept_while(sizes, max, i, size) as int;
            &&& i <= n <= sizes.len()
            &&& forall|k: int| 1 <= k <= n ==> #[trigger] prefix_size(sizes, k) <= max || prefix_size(sizes, k - 1) == 0
            &&& n < sizes.len() ==> prefix_size(sizes, n + 1) > max && prefix_size(sizes, n) > 0
        }),
    decreases sizes.len() - i,
{
    if i < sizes.len() {
        let total = size + sizes[i];
        assert(prefix_size(sizes, i + 1) == total);
        if size == 0 || total <= max {
            assert forall|k: int| 1 <= k <= i + 1 implies #[trigger] prefix_size(sizes, k) <= max || prefix_size(sizes, k - 1) == 0 by {}
            lemma_kept_while_prefix(sizes, max, i + 1, total);
            assert(crate::raft_store::kept_while(sizes, max, i, size) == crate::raft_store::kept_while(
                sizes,
                max,
                i + 1,
                total,
            ));
        } else {
            lemma_prefix_size_nonneg(sizes, i);
            assert(crate::raft_store::kept_while(sizes, max, i, size) == i);
        }
    } else {
        assert(crate::raft_store::kept_while(sizes, max, i, size) == sizes.len());
    }
}

proof fn lemma_kept_while_bounds(sizes: Seq<u32>, max: int, i: int, size: int)
    requires
        0 <= i <= sizes.len(),
    ensures
        i <= crate::raft_store::kept_while(sizes, max, i, size) <= sizes.len(),
    decreases sizes.len() - i,
{
    if i < sizes.len() {
        let total = size + sizes[i];
        if size == 0 || total <= max {
            lemma_kept_while_bounds(sizes, max, i + 1, total);
        }
    }
}

/// The name of an entry type by its protobuf number.
pub fn entry_type_to_str(entry_type: i32) -> (r: &'static str)
    requires
        0 <= entry_type <= 2,
    ensures
        entry_type == 0 ==> r@ == "EntryNormal"@,
        entry_type == 1 ==> r@ == "EntryConfChange"@,
        entry_type == 2 ==> r@ == "EntryConfChangeV2"@,
{
    if entry_type == 0 {
        "EntryNormal"
    } else if entry_type == 1 {
        "EntryConfChange"
    } else {
        "EntryConfChangeV2"
    }
}


/// Once entries are stored, the last index is at least the former one and
/// at least the index of every stored entry, and is one of these.
pub proof fn law_last_index_after_append(last_index: u64, ents: Seq<EntryView>)
    ensures
        max_index(last_index, ents) >= last_index,
        forall|j: int| 0 <= j < ents.len() ==> max_index(last_index, ents) >= (#[trigger] ents[j]).index,
        max_index(last_index, ents) == last_index || exists|j: int|
            0 <= j < ents.len() && max_index(last_index, ents) == (#[trigger] ents[j]).index,
    decreases ents.len(),
{
    if ents.len() > 0 {
        let init = ents.drop_last();
        law_last_index_after_append(last_index, init);
        assert forall|j: int| 0 <= j < ents.len() implies max_index(last_index, ents) >= (#[trigger] ents[j]).index by {
            if j < ents.len() - 1 {
                assert(ents[j] == init[j]);
            }
        }
        if max_index(last_index, ents) != last_index {
            if max_index(last_index, ents) == ents.last().index {
                assert(ents[ents.len() - 1] == ents.last());
            } else {
                let j = choose|j: int| 0 <= j < init.len() && max_index(last_index, init) == (#[trigger] init[j]).index;
                assert(ents[j] == init[j]);
            }
        }
    }
}

} // verus!

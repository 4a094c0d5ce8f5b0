//! How a persistent log storage writes its metadata as bytes and reads it
//! back: the hard state, the membership and the snapshot as their protobuf
//! messages, the last index as bincode's eight bytes. A value that was never
//! written reads as its default (the last index as 0).
use crate::codec::{decode_u64, encode_u64, le_bytes, le_value};
use crate::error::Error;
use crate::types::{
    ConfState, ConfStateView, HardState, Snapshot, SnapshotMetadata, SnapshotView,
};
use jopemachine_raft::eraftpb;
use vstd::prelude::*;

verus! {

/// What protobuf decodes from `b` as a raft-rs `HardState`
/// (`protobuf::Message::parse_from_bytes`), or nothing.
pub uninterp spec fn hard_state_of(b: Seq<u8>) -> Option<HardState>;

/// What protobuf decodes from `b` as a raft-rs `ConfState`, or nothing.
pub uninterp spec fn conf_state_of(b: Seq<u8>) -> Option<ConfStateView>;

/// What protobuf decodes from `b` as a raft-rs `Snapshot`, or nothing.
pub uninterp spec fn snapshot_of(b: Seq<u8>) -> Option<SnapshotView>;

/// The protobuf encoding of a hard state (`protobuf::Message::write_to_bytes`).
pub uninterp spec fn hard_state_bytes(h: HardState) -> Seq<u8>;

/// The protobuf encoding of a membership.
pub uninterp spec fn conf_state_bytes(c: ConfStateView) -> Seq<u8>;

/// The protobuf encoding of a snapshot.
pub uninterp spec fn snapshot_bytes(s: SnapshotView) -> Seq<u8>;

/// A membership whose encoding stays far below the 4 GiB that protobuf's
/// `u32` sizes count.
pub open spec fn conf_state_encodable(c: ConfStateView) -> bool {
    &&& c.voters.len() < 0x100_0000
    &&& c.learners.len() < 0x100_0000
    &&& c.voters_outgoing.len() < 0x100_0000
    &&& c.learners_next.len() < 0x100_0000
}

/// A snapshot whose encoding stays far below the 4 GiB that protobuf's
/// `u32` sizes count.
pub open spec fn snapshot_encodable(s: SnapshotView) -> bool {
    s.data.len() < 0x8000_0000 && conf_state_encodable(s.metadata.conf_state)
}

/// `parse_from_bytes` of a raft-rs `HardState`, its fields copied; on
/// failure, the text of protobuf's error, which the contract leaves unsaid.
#[verifier::external_body]
fn decode_hard_state(b: &[u8]) -> (r: Result<HardState, String>)
    ensures
        r is Ok <==> hard_state_of(b@) is Some,
        r matches Ok(h) ==> hard_state_of(b@) == Some(h),
{
    match <eraftpb::HardState as protobuf::Message>::parse_from_bytes(b) {
        Ok(h) => Ok(HardState { term: h.term, vote: h.vote, commit: h.commit }),
        Err(e) => Err(e.to_string()),
    }
}

/// `parse_from_bytes` of a raft-rs `ConfState`, its fields copied; on
/// failure, the text of protobuf's error, which the contract leaves unsaid.
#[verifier::external_body]
fn decode_conf_state(b: &[u8]) -> (r: Result<ConfState, String>)
    ensures
        r is Ok <==> conf_state_of(b@) is Some,
        r matches Ok(c) ==> conf_state_of(b@) == Some(c@),
{
    match <eraftpb::ConfState as protobuf::Message>::parse_from_bytes(b) {
        Ok(c) => Ok(ConfState {
            voters: c.voters, learners: c.learners, voters_outgoing: c.voters_outgoing,
            learners_next: c.learners_next, auto_leave: c.auto_leave,
        }),
        Err(e) => Err(e.to_string()),
    }
}

/// `parse_from_bytes` of a raft-rs `Snapshot`, its fields copied; on
/// failure, the text of protobuf's error, which the contract leaves unsaid.
#[verifier::external_body]
fn decode_snapshot(b: &[u8]) -> (r: Result<Snapshot, String>)
    ensures
        r is Ok <==> snapshot_of(b@) is Some,
        r matches Ok(s) ==> snapshot_of(b@) == Some(s@),
{
    match <eraftpb::Snapshot as protobuf::Message>::parse_from_bytes(b) {
        Ok(s) => {
            let (m, c) = (s.get_metadata(), s.get_metadata().get_conf_state());
            let conf_state = ConfState {
                voters: c.voters.clone(), learners: c.learners.clone(),
                voters_outgoing: c.voters_outgoing.clone(), learners_next: c.learners_next.clone(),
                auto_leave: c.auto_leave,
            };
            Ok(Snapshot { data: s.data.to_vec(), metadata: SnapshotMetadata { conf_state, index: m.index, term: m.term } })
        },
        Err(e) => Err(e.to_string()),
    }
}

/// `write_to_bytes` of a raft-rs `HardState` with these fields. A proto3
/// message is always initialized, so the write cannot fail; decoding the
/// bytes gives the hard state back.
#[verifier::external_body]
fn encode_hard_state(h: HardState) -> (r: Vec<u8>)
    ensures
        r@ == hard_state_bytes(h),
        hard_state_of(r@) == Some(h),
{
    let mut m = eraftpb::HardState::default();
    (m.term, m.vote, m.commit) = (h.term, h.vote, h.commit);
    protobuf::Message::write_to_bytes(&m).unwrap()
}

/// `write_to_bytes` of a raft-rs `ConfState` with these fields; it cannot
/// fail, and decoding the bytes gives the membership back.
#[verifier::external_body]
fn encode_conf_state(c: &ConfState) -> (r: Vec<u8>)
    requires
        conf_state_encodable(c@),
    ensures
        r@ == conf_state_bytes(c@),
        conf_state_of(r@) == Some(c@),
{
    let mut m = eraftpb::ConfState::default();
    (m.voters, m.learners) = (c.voters.clone(), c.learners.clone());
    (m.voters_outgoing, m.learners_next) = (c.voters_outgoing.clone(), c.learners_next.clone());
    m.auto_leave = c.auto_leave;
    protobuf::Message::write_to_bytes(&m).unwrap()
}

/// `write_to_bytes` of a raft-rs `Snapshot` with these fields; it cannot
/// fail, and decoding the bytes gives the snapshot back.
#[verifier::external_body]
fn encode_snapshot(s: &Snapshot) -> (r: Vec<u8>)
    requires
        snapshot_encodable(s@),
    ensures
        r@ == snapshot_bytes(s@),
        snapshot_of(r@) == Some(s@),
{
    let (mut m, c) = (eraftpb::Snapshot::default(), &s.metadata.conf_state);
    m.data = s.data.clone().into();
    let meta = m.mut_metadata();
    (meta.index, meta.term) = (s.metadata.index, s.metadata.term);
    let mc = meta.mut_conf_state();
    (mc.voters, mc.learners) = (c.voters.clone(), c.learners.clone());
    (mc.voters_outgoing, mc.learners_next) = (c.voters_outgoing.clone(), c.learners_next.clone());
    mc.auto_leave = c.auto_leave;
    protobuf::Message::write_to_bytes(&m).unwrap()
}

/// The hard state read from the bytes stored for it: the default when none
/// are stored, and an `Other` error when they do not decode.
pub fn stored_hard_state(stored: Option<&[u8]>) -> (r: Result<HardState, Error>)
    ensures
        stored is None ==> r == Ok::<HardState, Error>(HardState { term: 0, vote: 0, commit: 0 }),
        stored matches Some(b) ==> {
            &&& (r is Ok <==> hard_state_of(b@) is Some)
            &&& r matches Ok(h) ==> hard_state_of(b@) == Some(h)
            &&& r matches Err(e) ==> e is Other
        },
{
    match stored {
        None => Ok(HardState::default_state()),
        Some(b) => match decode_hard_state(b) {
            Ok(h) => Ok(h),
            Err(m) => Err(Error::Other(m)),
        },
    }
}

/// The membership read from the bytes stored for it: the empty membership
/// when none are stored, and an `Other` error when they do not decode.
pub fn stored_conf_state(stored: Option<&[u8]>) -> (r: Result<ConfState, Error>)
    ensures
        stored is None ==> (r matches Ok(c) && c@ == ConfState::default_view()),
        stored matches Some(b) ==> {
            &&& (r is Ok <==> conf_state_of(b@) is Some)
            &&& r matches Ok(c) ==> conf_state_of(b@) == Some(c@)
            &&& r matches Err(e) ==> e is Other
        },
{
    match stored {
        None => Ok(ConfState::default_state()),
        Some(b) => match decode_conf_state(b) {
            Ok(c) => Ok(c),
            Err(m) => Err(Error::Other(m)),
        },
    }
}

/// The snapshot read from the bytes stored for it: the empty snapshot when
/// none are stored, and an `Other` error when they do not decode.
pub fn stored_snapshot(stored: Option<&[u8]>) -> (r: Result<Snapshot, Error>)
    ensures
        stored is None ==> (r matches Ok(s) && s@ == Snapshot::default_view()),
        stored matches Some(b) ==> {
            &&& (r is Ok <==> snapshot_of(b@) is Some)
            &&& r matches Ok(s) ==> snapshot_of(b@) == Some(s@)
            &&& r matches Err(e) ==> e is Other
        },
{
    match stored {
        None => Ok(Snapshot::default_snapshot()),
        Some(b) => match decode_snapshot(b) {
            Ok(s) => Ok(s),
            Err(m) => Err(Error::Other(m)),
        },
    }
}

/// The last index read from the bytes stored for it: 0 when none are
/// stored; otherwise the number that the first eight bytes encode, least
/// significant first, and an `Other` error when there are fewer.
pub fn stored_last_index(stored: Option<&[u8]>) -> (r: Result<u64, Error>)
    ensures
        stored is None ==> r == Ok::<u64, Error>(0),
        stored matches Some(b) ==> {
            &&& (r is Ok <==> b@.len() >= 8)
            &&& r matches Ok(v) ==> v == le_value(b@)
            &&& r matches Err(e) ==> e is Other
        },
{
    match stored {
        None => Ok(0),
        Some(b) => match decode_u64(b) {
            Ok(v) => Ok(v),
            Err(m) => Err(Error::Other(m)),
        },
    }
}

/// The bytes stored for a hard state; read back, they give it again.
pub fn hard_state_record(h: HardState) -> (r: Vec<u8>)
    ensures
        r@ == hard_state_bytes(h),
        hard_state_of(r@) == Some(h),
{
    encode_hard_state(h)
}

/// The bytes stored for a membership; read back, they give it again.
pub fn conf_state_record(c: &ConfState) -> (r: Vec<u8>)
    requires
        conf_state_encodable(c@),
    ensures
        r@ == conf_state_bytes(c@),
        conf_state_of(r@) == Some(c@),
{
    encode_conf_state(c)
}

/// The bytes stored for a snapshot; read back, they give it again.
pub fn snapshot_record(s: &Snapshot) -> (r: Vec<u8>)
    requires
        snapshot_encodable(s@),
    ensures
        r@ == snapshot_bytes(s@),
        snapshot_of(r@) == Some(s@),
{
    encode_snapshot(s)
}

/// The bytes stored for the last index: its eight bytes, least significant
/// first; read back, they give it again.
pub fn last_index_record(index: u64) -> (r: Vec<u8>)
    ensures
        r@ == le_bytes(index),
        r@.len() == 8,
        le_value(r@) == index,
{
    proof {
        crate::codec::law_u64_round_trip(index);
    }
    encode_u64(index)
}

} // verus!

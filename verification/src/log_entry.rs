//! The entries that an application proposes to its Raft cluster.
use crate::error::Error;
use vstd::prelude::*;

verus! {

/// An application's log entry, and how it is written to and read from the
/// bytes of a Raft entry. Applications implement it.
pub trait AbstractLogEntry: Sized {
    fn encode(&self) -> Result<Vec<u8>, Error>;

    fn decode(bytes: &[u8]) -> Result<Self, Error>;
}

} // verus!

//! The errors of the library.
use crate::types::StorageError;
use vstd::prelude::*;

verus! {

/// What can go wrong in a Raft node or its storage. Errors of outside
/// libraries that carry more than a kind are held as their message.
#[derive(Debug)]
pub enum Error {
    /// The Raft log storage refused a request.
    Storage(StorageError),
    /// Any other error of the Raft library.
    RaftError(String),
    JoinError,
    Rejected(String),
    Timeout,
    Grpc(String),
    RemoteCall(String),
    Io(String),
    Database(String),
    Other(String),
    Unknown,
}

impl Error {
    /// The error on the heap.
    pub fn boxed(self) -> (r: Box<Self>)
        ensures
            *r == self,
    {
        Box::new(self)
    }
}

/// Why a message could not be sent to a peer.
#[derive(Debug)]
pub enum SendMessageError {
    ConnectionError(String),
    PeerNotFound(String),
    TransmissionError(String),
}

} // verus!

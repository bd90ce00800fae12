//! The errors of the consensus.

use vstd::prelude::*;
use crate::ring_buffer;
use crate::transaction_checker::PermissionError;
use crate::types::{BlockHash, BlockNumber, LeaderTerm, PeerId};

verus! {

/// The phase of the round (block) that a follower is in.
#[derive(Debug, Clone, Copy, PartialEq, Eq, Structural)]
pub enum Phase {
    /// No message of the round has been accepted yet.
    Waiting,
    /// The `Prepare` message was accepted: the block hash is known.
    Prepare,
    /// The `Append` message was accepted: the block body is known.
    Append,
}

/// An error of the consensus.
#[derive(Debug, Clone, Copy, PartialEq, Eq, Structural)]
pub enum Error {
    /// A response was received that was not expected.
    UnexpectedResponse,
    /// Sending data over the network failed.
    Network,
    /// The block could not be written to the block storage.
    BlockStorage(crate::block_storage::Error),
    /// The client does not have the correct permissions.
    Permission(PermissionError),
    /// The message does not contain enough signatures.
    NotEnoughSignatures,
    /// A peer signed more than once.
    DuplicateSignatures,
    /// A signature could not be verified.
    InvalidSignature,
    /// The follower's leader term is not the received leader term.
    WrongLeaderTerm,
    /// The sender is not the current leader.
    WrongLeader(PeerId),
    /// This peer is not allowed to take part in the consensus.
    InvalidPeer(PeerId),
    /// The leader proposed an empty block.
    EmptyBlock,
    /// The ack message does not match the request.
    AckDoesNotMatch,
    /// The block hash changed between phases.
    ChangedBlockHash,
    /// The sent block hash does not match the hash of the block.
    BlockNotMatchingHash,
    /// The block names another previous block (received, expected).
    PrevBlockHashDoesNotMatch(BlockHash, BlockHash),
    /// The block number is not the expected one.
    WrongBlockNumber {
        /// The received block number.
        received: BlockNumber,
        /// The expected block number.
        expected: BlockNumber,
    },
    /// The requested leader term lies before the current one.
    LeaderTermTooSmall(LeaderTerm),
    /// The requested leader term lies too far in the future.
    LeaderTermTooBig(LeaderTerm),
    /// The round was in another phase than the message expects.
    WrongPhase {
        /// The current phase.
        current: Phase,
        /// The phase the message expects.
        expected: Phase,
    },
    /// No supermajority answered.
    CouldNotGetSupermajority,
    /// A transaction marked as invalid points behind the valid transactions.
    BadInvalidTransactionIndex(usize),
    /// A transaction marked as invalid by the leader is valid (the position
    /// of the entry in the list of invalid transactions).
    CensorshipDetected(usize),
}

impl Phase {
    /// The error for a message that expected the phase `expected`.
    pub fn error(self, expected: Self) -> (err: Error)
        ensures
            err == (Error::WrongPhase { current: self, expected }),
    {
        Error::WrongPhase { current: self, expected }
    }

    /// Check that the phase is `expected`.
    pub fn verify(self, expected: Self) -> (res: Result<(), Error>)
        ensures
            self == expected ==> res == Ok::<(), Error>(()),
            self != expected ==> res == Err::<(), Error>(Error::WrongPhase { current: self, expected }),
    {
        if self == expected {
            Ok(())
        } else {
            Err(self.error(expected))
        }
    }
}

impl LeaderTerm {
    /// Check that the received leader term is `expected`.
    pub fn verify(self, expected: Self) -> (res: Result<(), Error>)
        ensures
            self == expected ==> res == Ok::<(), Error>(()),
            self != expected ==> res == Err::<(), Error>(Error::WrongLeaderTerm),
    {
        if self == expected {
            Ok(())
        } else {
            Err(Error::WrongLeaderTerm)
        }
    }
}

impl BlockNumber {
    /// Check that the received block number is `expected`.
    pub fn verify(self, expected: Self) -> (res: Result<(), Error>)
        ensures
            self == expected ==> res == Ok::<(), Error>(()),
            self != expected ==> res == Err::<(), Error>(Error::WrongBlockNumber { received: self, expected }),
    {
        if self == expected {
            Ok(())
        } else {
            Err(Error::WrongBlockNumber { received: self, expected })
        }
    }
}

impl From<ring_buffer::Error> for Error {
    fn from(v: ring_buffer::Error) -> (err: Error) {
        match v {
            ring_buffer::Error::RingbufferUnderflow(term) => Error::LeaderTermTooSmall(LeaderTerm(term)),
            ring_buffer::Error::RingbufferOverflow(term) => Error::LeaderTermTooBig(LeaderTerm(term)),
        }
    }
}

impl vstd::std_specs::convert::FromSpecImpl<ring_buffer::Error> for Error {
    open spec fn obeys_from_spec() -> bool {
        true
    }

    open spec fn from_spec(v: ring_buffer::Error) -> Error {
        match v {
            ring_buffer::Error::RingbufferUnderflow(term) => Error::LeaderTermTooSmall(LeaderTerm(term)),
            ring_buffer::Error::RingbufferOverflow(term) => Error::LeaderTermTooBig(LeaderTerm(term)),
        }
    }
}

impl From<PermissionError> for Error {
    fn from(v: PermissionError) -> (err: Error) {
        Error::Permission(v)
    }
}

impl vstd::std_specs::convert::FromSpecImpl<PermissionError> for Error {
    open spec fn obeys_from_spec() -> bool {
        true
    }

    open spec fn from_spec(v: PermissionError) -> Error {
        Error::Permission(v)
    }
}

} // verus!

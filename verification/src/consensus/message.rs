//! The messages of the consensus and their responses.

use vstd::prelude::*;
use crate::account::SignedTransaction;
use crate::block::Block;
use crate::signature_list::SignatureList;
use crate::types::{BlockHash, BlockNumber, LeaderTerm};
use super::error::Error;

verus! {

/// Metadata about a block specific message.
#[derive(Debug, Clone, Copy, PartialEq, Eq, Structural)]
pub struct Metadata {
    /// The current number of the view (selected leader).
    pub leader_term: LeaderTerm,
    /// The current block number (block height) of this round.
    pub block_number: BlockNumber,
    /// The hash of this round's block.
    pub block_hash: BlockHash,
}

impl Metadata {
    /// Check that an acknowledgement carries the same metadata as the request.
    pub fn verify(&self, other: &Self) -> (res: Result<(), Error>)
        ensures
            *self == *other ==> res == Ok::<(), Error>(()),
            *self != *other ==> res == Err::<(), Error>(Error::AckDoesNotMatch),
    {
        if *self == *other {
            Ok(())
        } else {
            Err(Error::AckDoesNotMatch)
        }
    }
}

/// A transaction that the leader found invalid, with the position at which
/// it would have been applied among the valid transactions.
pub type InvalidTransaction = (usize, SignedTransaction);

/// The first message of a round: the leader proposes a block hash.
#[derive(Debug)]
pub struct Prepare {
    /// The message metadata.
    pub metadata: Metadata,
}

/// The leader sends the transactions of the block.
#[derive(Debug)]
pub struct Append {
    /// The message metadata.
    pub metadata: Metadata,
    /// The `AckPrepare` signatures of a supermajority.
    pub ackprepare_signatures: SignatureList,
    /// The transactions of the block; they hash to the block hash.
    pub valid_transactions: Vec<SignedTransaction>,
    /// Transactions to drop from the followers' queues.
    pub invalid_transactions: Vec<InvalidTransaction>,
    /// When the leader created the block (nanoseconds since the epoch).
    pub timestamp: i64,
}

/// The leader tells the followers to store the block.
#[derive(Debug)]
pub struct Commit {
    /// The message metadata.
    pub metadata: Metadata,
    /// The `AckAppend` signatures of a supermajority.
    pub ackappend_signatures: SignatureList,
}

/// A peer proposes a change of the leader because of faulty behaviour.
#[derive(Debug, Clone, Copy, PartialEq, Eq, Structural)]
pub struct ViewChange {
    /// The leader term to change to.
    pub new_leader_term: LeaderTerm,
}

/// The new leader accepts its term.
#[derive(Debug)]
pub struct NewView {
    /// The leader term changed to.
    pub leader_term: LeaderTerm,
    /// The `ViewChange` signatures of a supermajority.
    pub view_change_signatures: SignatureList,
    /// The current block number of the leader.
    pub current_block_number: BlockNumber,
}

/// A request of a peer that fell behind.
#[derive(Debug, Clone, Copy, PartialEq, Eq, Structural)]
pub struct SynchronizationRequest {
    /// The current leader term of the sender.
    pub leader_term: LeaderTerm,
    /// The current block number of the sender.
    pub block_number: BlockNumber,
    /// The hash of the topmost block of the sender.
    pub block_hash: BlockHash,
}

/// Messages used for finding a consensus.
#[derive(Debug)]
pub enum ConsensusMessage {
    /// See `Prepare`.
    Prepare(Prepare),
    /// See `Append`.
    Append(Append),
    /// See `Commit`.
    Commit(Commit),
    /// See `ViewChange`.
    ViewChange(ViewChange),
    /// See `NewView`.
    NewView(NewView),
    /// See `SynchronizationRequest`.
    SynchronizationRequest(SynchronizationRequest),
}

/// The answer to a `SynchronizationRequest`.
#[derive(Debug)]
pub struct SynchronizationResponse {
    /// The `NewView` the sender is missing: the leader term and its signatures.
    pub new_view: Option<(LeaderTerm, SignatureList)>,
    /// The blocks the sender is missing.
    pub blocks: Vec<Block>,
}

/// Responses used for finding a consensus.
#[derive(Debug)]
pub enum ConsensusResponse {
    /// Answers `Prepare`.
    AckPrepare {
        /// The message metadata.
        metadata: Metadata,
    },
    /// Answers `Append`.
    AckAppend {
        /// The message metadata.
        metadata: Metadata,
    },
    /// Answers `SynchronizationRequest`.
    SynchronizationResponse(SynchronizationResponse),
    /// An empty response (acknowledges `Commit`, `ViewChange` and `NewView`).
    Empty,
}

} // verus!

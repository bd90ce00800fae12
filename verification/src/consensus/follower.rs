//! The follower: the state of the current round and the handling of the
//! leader's messages.

use vstd::prelude::*;
use crate::account::{SignedTransaction, transactions_view};
use crate::block::{Block, Body};
use crate::signature_list::{SignatureList, signers_unique};
use crate::quorum::quorum_sizes_fit;
use crate::types::{BlockHash, BlockNumber, LeaderTerm, PeerId};
use crate::queue::{Queue, remove_all_spec};
use crate::world_state::{
    Peer, WorldState, WorldStateReferences, applied_transactions, rolled_back, transactions_applicable,
};
use super::consensus_core::{leader, leader_of, majority_signatures_check, verify_rpu_majority_signatures};
use super::error::{Error, Phase};
use super::message::{Append, Commit, Metadata, NewView, Prepare};
use super::view_change;
use super::stateful_validation::{invalid_view, stateful_validate, stateful_validation};

verus! {

/// The state of a follower in the current round.
#[derive(Debug)]
pub struct State {
    /// The current leader term.
    pub leader_term: LeaderTerm,
    /// The signatures from the `NewView` message.
    pub new_view_signatures: SignatureList,
    /// The number of the current block.
    pub block_number: BlockNumber,
    /// The hash of the last block.
    pub last_block_hash: BlockHash,
    /// The hash of the current block (set in the prepare phase).
    pub block_hash: Option<BlockHash>,
    /// The body of the current block (set in the append phase).
    pub block_body: Option<Body>,
    /// Whether a rollback is currently allowed (only once after a leader change).
    pub rollback_possible: bool,
    /// An out-of-order commit message (set during the prepare phase).
    pub buffered_commit_message: Option<Commit>,
}

/// The phase that the hash and the body of the current block stand for.
pub open spec fn phase_of(state: State) -> Phase {
    match (state.block_hash, state.block_body) {
        (None, _) => Phase::Waiting,
        (Some(_), None) => Phase::Prepare,
        (Some(_), Some(_)) => Phase::Append,
    }
}

impl State {
    /// A body is only known together with its hash; it belongs to the current
    /// block number; a commit is only buffered before the append phase.
    pub open spec fn wf(&self) -> bool {
        &&& self.block_body.is_some() ==> self.block_hash.is_some()
        &&& self.block_body.is_some() ==> self.block_body.unwrap().height == self.block_number
        &&& self.block_body.is_some() ==> self.buffered_commit_message.is_none()
    }

    /// The state of a follower that starts on `world_state`.
    pub fn new(world_state: &WorldState) -> (state: Self)
        ensures
            state.wf(),
            state.leader_term.0 == 0,
            state.new_view_signatures@.len() == 0,
            state.block_number == world_state.block_number,
            state.last_block_hash == world_state.last_block_hash,
            state.block_hash.is_none(),
            state.block_body.is_none(),
            state.rollback_possible == (world_state.block_number.0 > 0),
            state.buffered_commit_message.is_none(),
    {
        State {
            leader_term: LeaderTerm::default(),
            new_view_signatures: SignatureList::default(),
            block_number: world_state.block_number,
            last_block_hash: world_state.last_block_hash,
            block_hash: None,
            block_body: None,
            rollback_possible: world_state.block_number.0 > 0,
            buffered_commit_message: None,
        }
    }

    /// Get the current phase.
    pub fn phase(&self) -> (phase: Phase)
        requires
            self.wf(),
        ensures
            phase == phase_of(*self),
    {
        match (&self.block_hash, &self.block_body) {
            (None, _) => Phase::Waiting,
            (Some(_), None) => Phase::Prepare,
            (Some(_), Some(_)) => Phase::Append,
        }
    }

    /// Verify whether the given `peer_id` is the current leader.
    pub fn verify_leader(&self, world_state: &WorldState, peer_id: PeerId) -> (res: Result<(), Error>)
        requires
            world_state.peers_view().len() > 0,
        ensures
            leader_of(world_state.peers_view(), self.leader_term) == peer_id ==> res == Ok::<(), Error>(()),
            leader_of(world_state.peers_view(), self.leader_term) != peer_id ==> res == Err::<(), Error>(
                Error::WrongLeader(peer_id),
            ),
    {
        if leader(world_state, self.leader_term) == peer_id {
            Ok(())
        } else {
            Err(Error::WrongLeader(peer_id))
        }
    }

    /// Create a body of the current block with the given `transactions`.
    pub fn body_with(&self, transactions: Vec<SignedTransaction>) -> (body: Body)
        ensures
            body.leader_term == self.leader_term,
            body.height == self.block_number,
            body.prev_block_hash == self.last_block_hash,
            body.transactions == transactions,
    {
        Body {
            leader_term: self.leader_term,
            height: self.block_number,
            prev_block_hash: self.last_block_hash,
            transactions,
        }
    }

    /// Move to the prepare phase.
    pub fn prepare(&mut self, block_hash: BlockHash)
        requires
            old(self).wf(),
            phase_of(*old(self)) == Phase::Waiting,
        ensures
            final(self).wf(),
            *final(self) == (State { block_hash: Some(block_hash), ..*old(self) }),
    {
        self.block_hash = Some(block_hash);
    }

    /// Move to the append phase.
    pub fn append(&mut self, body: Body)
        requires
            old(self).wf(),
            phase_of(*old(self)) == Phase::Prepare,
            body.height == old(self).block_number,
            old(self).buffered_commit_message.is_none(),
        ensures
            final(self).wf(),
            *final(self) == (State { block_body: Some(body), ..*old(self) }),
    {
        self.block_body = Some(body);
    }

    /// Advance to the next round after `block` (whose hash is `block_hash`)
    /// was stored.
    ///
    /// The block must be the current one.
    pub fn apply_block(&mut self, block_hash: BlockHash, block: &Block)
        requires
            old(self).wf(),
            block.body.height == old(self).block_number,
            old(self).block_number.0 < u64::MAX,
        ensures
            final(self).wf(),
            final(self).block_number.0 == old(self).block_number.0 + 1,
            final(self).last_block_hash == block_hash,
            final(self).block_body.is_none(),
            final(self).block_hash == old(self).block_hash,
            final(self).rollback_possible == false,
            final(self).buffered_commit_message.is_none(),
            final(self).leader_term == old(self).leader_term,
            final(self).new_view_signatures == old(self).new_view_signatures,
    {
        self.block_number = self.block_number.add(1);
        self.last_block_hash = block_hash;
        self.block_body = None;
        self.rollback_possible = false;
        self.buffered_commit_message = None;
    }

    /// Commit the current block with the `AckAppend` signatures: hands back
    /// the hash and the block to store, and advances to the next round.
    pub fn commit(&mut self, ackappend_signatures: SignatureList) -> (committed: (BlockHash, Block))
        requires
            old(self).wf(),
            phase_of(*old(self)) == Phase::Append,
            old(self).block_number.0 < u64::MAX,
        ensures
            final(self).wf(),
            committed.0 == old(self).block_hash.unwrap(),
            committed.1.body == old(self).block_body.unwrap(),
            committed.1.signatures == ackappend_signatures,
            final(self).block_number.0 == old(self).block_number.0 + 1,
            final(self).last_block_hash == committed.0,
            final(self).block_hash.is_none(),
            final(self).block_body.is_none(),
            final(self).rollback_possible == false,
            final(self).buffered_commit_message.is_none(),
            final(self).leader_term == old(self).leader_term,
            final(self).new_view_signatures == old(self).new_view_signatures,
    {
        let body = self.block_body.take().unwrap();
        let block_hash = self.block_hash.take().unwrap();
        let block = Block { body, signatures: ackappend_signatures };
        self.apply_block(block_hash, &block);
        (block_hash, block)
    }

    /// Set a new `leader_term`: the messages of the old leader are dropped.
    pub fn new_leader_term(&mut self, leader_term: LeaderTerm, new_view_signatures: SignatureList)
        ensures
            final(self).wf(),
            phase_of(*final(self)) == Phase::Waiting,
            *final(self) == (State {
                leader_term,
                new_view_signatures,
                block_hash: None,
                block_body: None,
                rollback_possible: true,
                buffered_commit_message: None,
                ..*old(self)
            }),
    {
        self.leader_term = leader_term;
        self.new_view_signatures = new_view_signatures;
        self.block_hash = None;
        self.block_body = None;
        self.rollback_possible = true;
        self.buffered_commit_message = None;
    }

    /// Roll back the last committed block, whose number is `removed`, to the
    /// world state `previous` from before that block.
    ///
    /// The numbers must fit: the removed block is the last one, and the world
    /// state goes back to the block before it.
    pub fn rollback(&mut self, removed: BlockNumber, previous: &WorldState)
        requires
            removed.0 + 1 == old(self).block_number.0,
            previous.block_number.0 == removed.0,
        ensures
            final(self).wf(),
            *final(self) == (State {
                block_number: removed,
                last_block_hash: previous.last_block_hash,
                block_hash: None,
                block_body: None,
                rollback_possible: false,
                buffered_commit_message: None,
                ..*old(self)
            }),
    {
        self.block_number = self.block_number.sub(1);
        self.last_block_hash = previous.last_block_hash;
        self.block_hash = None;
        self.block_body = None;
        self.rollback_possible = false;
        self.buffered_commit_message = None;
    }
}

/// The checks that every block message of the leader passes: it belongs to
/// the current leader term, comes from its leader and to the current block.
pub open spec fn meta_check(state: State, peers: Seq<Peer>, peer_id: PeerId, metadata: Metadata) -> Result<(), Error> {
    if metadata.leader_term != state.leader_term {
        Err(Error::WrongLeaderTerm)
    } else if leader_of(peers, state.leader_term) != peer_id {
        Err(Error::WrongLeader(peer_id))
    } else if metadata.block_number != state.block_number {
        Err(Error::WrongBlockNumber { received: metadata.block_number, expected: state.block_number })
    } else {
        Ok(())
    }
}

/// A leader message passes the checks only where it belongs to the
/// follower's leader term and block number and comes from the term's leader;
/// one of the right term and leader but for another block number is refused
/// with `WrongBlockNumber`, naming both numbers.
pub proof fn law_meta_check_needs_current_block(state: State, peers: Seq<Peer>, peer_id: PeerId, metadata: Metadata)
    ensures
        meta_check(state, peers, peer_id, metadata) is Ok <==> (metadata.leader_term == state.leader_term
            && leader_of(peers, state.leader_term) == peer_id && metadata.block_number == state.block_number),
        metadata.leader_term == state.leader_term && leader_of(peers, state.leader_term) == peer_id
            && metadata.block_number != state.block_number ==> meta_check(state, peers, peer_id, metadata) == Err::<
            (),
            Error,
        >(Error::WrongBlockNumber { received: metadata.block_number, expected: state.block_number }),
{
}

/// Check the leader term, the leader and the block number of a message.
pub fn verify_message_meta(state: &State, world_state: &WorldState, peer_id: PeerId, metadata: &Metadata) -> (res: Result<(), Error>)
    requires
        world_state.peers_view().len() > 0,
    ensures
        res == meta_check(*state, world_state.peers_view(), peer_id, *metadata),
        res is Ok ==> metadata.leader_term == state.leader_term && leader_of(world_state.peers_view(), state.leader_term)
            == peer_id && metadata.block_number == state.block_number,
        metadata.leader_term == state.leader_term && leader_of(world_state.peers_view(), state.leader_term) == peer_id
            && metadata.block_number != state.block_number ==> res == Err::<(), Error>(
            Error::WrongBlockNumber { received: metadata.block_number, expected: state.block_number },
        ),
{
    metadata.leader_term.verify(state.leader_term)?;
    state.verify_leader(world_state, peer_id)?;
    metadata.block_number.verify(state.block_number)?;
    Ok(())
}

/// Handle a `Prepare` message of `peer_id`: accept the block hash and
/// answer with the `AckPrepare` metadata.
pub fn handle_prepare_message(state: &mut State, world_state: &WorldState, peer_id: PeerId, message: &Prepare) -> (res: Result<Metadata, Error>)
    requires
        old(state).wf(),
        world_state.peers_view().len() > 0,
    ensures
        final(state).wf(),
        res is Ok ==> message.metadata.block_number == old(state).block_number && message.metadata.leader_term
            == old(state).leader_term,
        phase_of(*old(state)) != Phase::Waiting ==> res == Err::<Metadata, Error>(
            Error::WrongPhase { current: phase_of(*old(state)), expected: Phase::Waiting },
        ) && *final(state) == *old(state),
        phase_of(*old(state)) == Phase::Waiting ==> match meta_check(*old(state), world_state.peers_view(), peer_id, message.metadata) {
            Err(e) => res == Err::<Metadata, Error>(e) && *final(state) == *old(state),
            Ok(_) => res == Ok::<Metadata, Error>(message.metadata) && *final(state) == (State {
                block_hash: Some(message.metadata.block_hash),
                ..*old(state)
            }),
        },
{
    // Messages of a round are only accepted once.
    state.phase().verify(Phase::Waiting)?;
    verify_message_meta(state, world_state, peer_id, &message.metadata)?;
    state.prepare(message.metadata.block_hash);
    Ok(message.metadata)
}

/// What a follower does with an `Append` message.
pub struct AppendOutcome {
    /// The answer to the leader: the metadata of the `AckAppend`, or the error.
    pub response: Result<Metadata, Error>,
    /// Whether the leader misbehaved so that a view change is to be requested.
    pub request_view_change: bool,
    /// A `Commit` for this block that arrived before the `Append`; it is to
    /// be handled now.
    pub buffered_commit: Option<Commit>,
}

/// The checks of the block hash of an `Append` or `Commit` message: the
/// hash of the received body (`body_hash`, for an `Append`) and the hash
/// that the `Prepare` message announced, if one was accepted.
pub open spec fn append_hash_check(state: State, block_hash: BlockHash, body_hash: BlockHash) -> Result<(), Error> {
    if body_hash != block_hash {
        Err(Error::BlockNotMatchingHash)
    } else if state.block_hash.is_some() && state.block_hash.unwrap() != block_hash {
        Err(Error::ChangedBlockHash)
    } else {
        Ok(())
    }
}

/// The checks of the content of an `Append` message: the `AckPrepare`
/// signatures, a block that is not empty, and the stateful validation of
/// its transactions.
pub open spec fn append_content_check(
    world_state: WorldState,
    message: Append,
    ackprepare_signatures_valid: Seq<bool>,
    transaction_signatures_valid: bool,
    now: i64,
) -> Result<(), Error> {
    match majority_signatures_check(
        world_state.accounts_view(),
        world_state.peers_view().len() as int,
        message.ackprepare_signatures@,
        ackprepare_signatures_valid,
        now,
    ) {
        Err(e) => Err(e),
        Ok(_) => if message.valid_transactions@.len() == 0 {
            Err(Error::EmptyBlock)
        } else {
            stateful_validation(
                world_state.accounts_view(),
                transactions_view(message.valid_transactions@),
                invalid_view(message.invalid_transactions@),
                transaction_signatures_valid,
                now,
            )
        },
    }
}

/// Handle an `Append` message of `peer_id`: check and accept the body of the
/// current block.
///
/// `body_hash` is the hash of the body built from the message
/// (`body_with` of its transactions), `ackprepare_signatures_valid[i]` the
/// outcome of verifying the `i`-th `AckPrepare` signature over the message's
/// metadata, and `transaction_signatures_valid` that of verifying the
/// signatures of all its transactions. The failures after the message was
/// found to come from the current leader for the current block request a
/// view change; an accepted hash stays even when a later check fails.
pub fn handle_append_message(
    state: &mut State,
    world_state: &WorldState,
    peer_id: PeerId,
    message: Append,
    body_hash: BlockHash,
    ackprepare_signatures_valid: &Vec<bool>,
    transaction_signatures_valid: bool,
    now: i64,
) -> (out: AppendOutcome)
    requires
        old(state).wf(),
        phase_of(*old(state)) != Phase::Append ==> world_state.peers_view().len() > 0,
        phase_of(*old(state)) != Phase::Append && meta_check(*old(state), world_state.peers_view(), peer_id, message.metadata) is Ok
            && append_hash_check(*old(state), message.metadata.block_hash, body_hash) is Ok
            && signers_unique(message.ackprepare_signatures@) ==> quorum_sizes_fit(world_state.peers_view().len() as int),
        ackprepare_signatures_valid@.len() == message.ackprepare_signatures@.len(),
    ensures
        final(state).wf(),
        out.response is Ok ==> message.metadata.block_number == old(state).block_number
            && message.metadata.leader_term == old(state).leader_term,
        phase_of(*old(state)) == Phase::Append ==> {
            &&& out.response == Err::<Metadata, Error>(Error::WrongPhase { current: Phase::Append, expected: Phase::Prepare })
            &&& !out.request_view_change
            &&& out.buffered_commit.is_none()
            &&& *final(state) == *old(state)
        },
        phase_of(*old(state)) != Phase::Append ==> match meta_check(*old(state), world_state.peers_view(), peer_id, message.metadata) {
            Err(e) => {
                &&& out.response == Err::<Metadata, Error>(e)
                &&& !out.request_view_change
                &&& out.buffered_commit.is_none()
                &&& *final(state) == *old(state)
            },
            Ok(_) => match append_hash_check(*old(state), message.metadata.block_hash, body_hash) {
                Err(e) => {
                    &&& out.response == Err::<Metadata, Error>(e)
                    &&& out.request_view_change
                    &&& out.buffered_commit.is_none()
                    &&& *final(state) == *old(state)
                },
                Ok(_) => match append_content_check(*world_state, message, ackprepare_signatures_valid@, transaction_signatures_valid, now) {
                    Err(e) => {
                        &&& out.response == Err::<Metadata, Error>(e)
                        &&& out.request_view_change
                        &&& out.buffered_commit.is_none()
                        &&& *final(state) == (State { block_hash: Some(message.metadata.block_hash), ..*old(state) })
                    },
                    Ok(_) => {
                        &&& out.response == Ok::<Metadata, Error>(message.metadata)
                        &&& !out.request_view_change
                        &&& out.buffered_commit == old(state).buffered_commit_message
                        &&& *final(state) == (State {
                            block_hash: Some(message.metadata.block_hash),
                            block_body: Some(Body {
                                leader_term: old(state).leader_term,
                                height: old(state).block_number,
                                prev_block_hash: old(state).last_block_hash,
                                transactions: message.valid_transactions,
                            }),
                            buffered_commit_message: None,
                            ..*old(state)
                        })
                    },
                },
            },
        },
{
    let phase = state.phase();
    if phase == Phase::Append {
        return AppendOutcome { response: Err(phase.error(Phase::Prepare)), request_view_change: false, buffered_commit: None };
    }
    if let Err(e) = verify_message_meta(state, world_state, peer_id, &message.metadata) {
        return AppendOutcome { response: Err(e), request_view_change: false, buffered_commit: None };
    }
    let metadata = message.metadata;
    let block_hash = metadata.block_hash;
    // From here on a failure means that the leader misbehaves.
    if body_hash != block_hash {
        return AppendOutcome { response: Err(Error::BlockNotMatchingHash), request_view_change: true, buffered_commit: None };
    }
    match state.block_hash {
        Some(expected_block_hash) => {
            if block_hash != expected_block_hash {
                return AppendOutcome { response: Err(Error::ChangedBlockHash), request_view_change: true, buffered_commit: None };
            }
        },
        None => {
            state.block_hash = Some(block_hash);
        },
    }
    if let Err(e) = verify_rpu_majority_signatures(world_state, &message.ackprepare_signatures, ackprepare_signatures_valid, now) {
        return AppendOutcome { response: Err(e), request_view_change: true, buffered_commit: None };
    }
    if message.valid_transactions.len() == 0 {
        // Empty blocks are not allowed.
        return AppendOutcome { response: Err(Error::EmptyBlock), request_view_change: true, buffered_commit: None };
    }
    if let Err(e) = stateful_validate(
        world_state,
        &message.valid_transactions,
        &message.invalid_transactions,
        transaction_signatures_valid,
        now,
    ) {
        return AppendOutcome { response: Err(e), request_view_change: true, buffered_commit: None };
    }
    // A commit for this block may have arrived first: it is handed back.
    let buffered_commit = state.buffered_commit_message.take();
    let body = state.body_with(message.valid_transactions);
    state.append(body);
    AppendOutcome { response: Ok(metadata), request_view_change: false, buffered_commit }
}

/// What a follower does with a `Commit` message.
pub struct CommitOutcome {
    /// The answer to the leader: empty, or the error.
    pub response: Result<(), Error>,
    /// Whether the leader misbehaved so that a view change is to be requested.
    pub request_view_change: bool,
    /// The committed block and its hash, to be written to the block storage
    /// and applied to the world state (its transactions leave the queue).
    pub committed: Option<(BlockHash, Block)>,
}

/// The state after committing the current block: the next round begins.
pub open spec fn committed_state(state: State) -> State {
    State {
        block_number: BlockNumber((state.block_number.0 + 1) as u64),
        last_block_hash: state.block_hash.unwrap(),
        block_hash: None,
        block_body: None,
        rollback_possible: false,
        buffered_commit_message: None,
        ..state
    }
}

/// Handle a `Commit` message of `peer_id`: commit the current block.
///
/// `ackappend_signatures_valid[i]` is the outcome of verifying the `i`-th
/// `AckAppend` signature over the message's metadata. A commit that arrives
/// before the `Append` message is buffered (once); a failure of the
/// signatures requests a view change.
pub fn handle_commit_message(
    state: &mut State,
    world_state: &WorldState,
    peer_id: PeerId,
    message: Commit,
    ackappend_signatures_valid: &Vec<bool>,
    now: i64,
) -> (out: CommitOutcome)
    requires
        old(state).wf(),
        old(state).block_number.0 < u64::MAX,
        world_state.peers_view().len() > 0,
        meta_check(*old(state), world_state.peers_view(), peer_id, message.metadata) is Ok
            && !(old(state).block_hash.is_some() && old(state).block_hash.unwrap() != message.metadata.block_hash)
            && phase_of(*old(state)) == Phase::Append
            && signers_unique(message.ackappend_signatures@) ==> quorum_sizes_fit(world_state.peers_view().len() as int),
        ackappend_signatures_valid@.len() == message.ackappend_signatures@.len(),
    ensures
        final(state).wf(),
        out.response is Ok ==> message.metadata.block_number == old(state).block_number
            && message.metadata.leader_term == old(state).leader_term,
        match meta_check(*old(state), world_state.peers_view(), peer_id, message.metadata) {
            Err(e) => {
                &&& out.response == Err::<(), Error>(e)
                &&& !out.request_view_change
                &&& out.committed.is_none()
                &&& *final(state) == *old(state)
            },
            Ok(_) => if old(state).block_hash.is_some() && old(state).block_hash.unwrap() != message.metadata.block_hash {
                &&& out.response == Err::<(), Error>(Error::ChangedBlockHash)
                &&& !out.request_view_change
                &&& out.committed.is_none()
                &&& *final(state) == *old(state)
            } else if phase_of(*old(state)) != Phase::Append && old(state).buffered_commit_message.is_none() {
                &&& out.response == Ok::<(), Error>(())
                &&& !out.request_view_change
                &&& out.committed.is_none()
                &&& *final(state) == (State {
                    block_hash: Some(message.metadata.block_hash),
                    buffered_commit_message: Some(message),
                    ..*old(state)
                })
            } else if phase_of(*old(state)) != Phase::Append {
                &&& out.response == Err::<(), Error>(Error::WrongPhase { current: phase_of(*old(state)), expected: Phase::Append })
                &&& !out.request_view_change
                &&& out.committed.is_none()
                &&& *final(state) == *old(state)
            } else {
                match majority_signatures_check(
                    world_state.accounts_view(),
                    world_state.peers_view().len() as int,
                    message.ackappend_signatures@,
                    ackappend_signatures_valid@,
                    now,
                ) {
                    Err(e) => {
                        &&& out.response == Err::<(), Error>(e)
                        &&& out.request_view_change
                        &&& out.committed.is_none()
                        &&& *final(state) == *old(state)
                    },
                    Ok(_) => {
                        &&& out.response == Ok::<(), Error>(())
                        &&& !out.request_view_change
                        &&& out.committed == Some((
                            old(state).block_hash.unwrap(),
                            Block { body: old(state).block_body.unwrap(), signatures: message.ackappend_signatures },
                        ))
                        &&& *final(state) == committed_state(*old(state))
                    },
                }
            },
        },
{
    if let Err(e) = verify_message_meta(state, world_state, peer_id, &message.metadata) {
        return CommitOutcome { response: Err(e), request_view_change: false, committed: None };
    }
    let block_hash = message.metadata.block_hash;
    if let Some(expected_block_hash) = state.block_hash {
        if block_hash != expected_block_hash {
            return CommitOutcome { response: Err(Error::ChangedBlockHash), request_view_change: false, committed: None };
        }
    }
    let phase = state.phase();
    if phase != Phase::Append {
        if state.buffered_commit_message.is_none() {
            // An out-of-order commit: it is used once the block arrives.
            state.block_hash = Some(block_hash);
            state.buffered_commit_message = Some(message);
            return CommitOutcome { response: Ok(()), request_view_change: false, committed: None };
        }
        return CommitOutcome { response: Err(phase.error(Phase::Append)), request_view_change: false, committed: None };
    }
    if let Err(e) = verify_rpu_majority_signatures(world_state, &message.ackappend_signatures, ackappend_signatures_valid, now) {
        return CommitOutcome { response: Err(e), request_view_change: true, committed: None };
    }
    let committed = state.commit(message.ackappend_signatures);
    proof {
        assert(*state == committed_state(*old(state)));
    }
    CommitOutcome { response: Ok(()), request_view_change: false, committed: Some(committed) }
}

/// How the block number of a leader compares with the follower's.
#[derive(Debug, Clone, Copy, PartialEq, Eq, Structural)]
pub enum BlockOrder {
    /// The leader is behind.
    Less,
    /// Both are at the same block.
    Equal,
    /// The leader is ahead: the follower has to synchronize first.
    Greater,
}

/// Compare the block number of the leader with the follower's.
pub fn compare_block_numbers(leader_block_number: BlockNumber, block_number: BlockNumber) -> (order: BlockOrder)
    ensures
        leader_block_number.0 < block_number.0 <==> order == BlockOrder::Less,
        leader_block_number.0 == block_number.0 <==> order == BlockOrder::Equal,
        leader_block_number.0 > block_number.0 <==> order == BlockOrder::Greater,
{
    if leader_block_number.0 < block_number.0 {
        BlockOrder::Less
    } else if leader_block_number.0 == block_number.0 {
        BlockOrder::Equal
    } else {
        BlockOrder::Greater
    }
}

/// What a follower does with a `NewView` message.
#[derive(Debug)]
pub struct NewViewOutcome {
    /// The answer to the new leader.
    pub response: Result<(), Error>,
    /// The leader is behind: vote for this term again to bring it up to date.
    pub request_view_change: Option<LeaderTerm>,
    /// The new leader announced itself in time: stop the `NewView` timeout.
    pub notify_new_view: bool,
    /// The leader term changed: the leader task is to check whether it leads.
    pub notify_leader: bool,
}

/// Handle a `NewView` message of `peer_id`, with which a new leader
/// announces its term.
///
/// `order` compares the leader's block number with the follower's before the
/// follower synchronized (where it was behind), and
/// `view_change_signatures_valid[i]` is the outcome of verifying the `i`-th
/// `ViewChange` signature of the message over the new term.
pub fn handle_new_view_message(
    state: &mut State,
    view_change_state: &mut view_change::State,
    world_state: &WorldState,
    peer_id: PeerId,
    message: NewView,
    order: BlockOrder,
    view_change_signatures_valid: &Vec<bool>,
    now: i64,
) -> (out: NewViewOutcome)
    requires
        message.leader_term.0 > old(state).leader_term.0 ==> world_state.peers_view().len() > 0,
        message.leader_term.0 > old(state).leader_term.0 && leader_of(world_state.peers_view(), message.leader_term) == peer_id
            && signers_unique(message.view_change_signatures@) ==> quorum_sizes_fit(world_state.peers_view().len() as int),
        view_change_signatures_valid@.len() == message.view_change_signatures@.len(),
    ensures
        final(state).wf() <== old(state).wf(),
        ({
            let refused = if message.leader_term.0 <= old(state).leader_term.0 {
                Some(Error::LeaderTermTooSmall(message.leader_term))
            } else if leader_of(world_state.peers_view(), message.leader_term) != peer_id {
                Some(Error::WrongLeader(peer_id))
            } else {
                match majority_signatures_check(
                    world_state.accounts_view(),
                    world_state.peers_view().len() as int,
                    message.view_change_signatures@,
                    view_change_signatures_valid@,
                    now,
                ) {
                    Err(e) => Some(e),
                    Ok(_) => None,
                }
            };
            match refused {
                Some(e) => {
                    &&& out.response == Err::<(), Error>(e)
                    &&& out.request_view_change.is_none()
                    &&& !out.notify_new_view
                    &&& !out.notify_leader
                    &&& *final(state) == *old(state)
                    &&& *final(view_change_state) == *old(view_change_state)
                },
                None => if order == BlockOrder::Less {
                    &&& out.response == Ok::<(), Error>(())
                    &&& out.request_view_change == Some(message.leader_term)
                    &&& !out.notify_new_view
                    &&& !out.notify_leader
                    &&& *final(state) == *old(state)
                    &&& *final(view_change_state) == *old(view_change_state)
                } else {
                    let in_time = old(view_change_state).leader_term == message.leader_term;
                    &&& out.response == Ok::<(), Error>(())
                    &&& out.request_view_change.is_none()
                    &&& out.notify_new_view == in_time
                    &&& out.notify_leader
                    &&& *final(state) == (State {
                        leader_term: message.leader_term,
                        new_view_signatures: message.view_change_signatures,
                        block_hash: None,
                        block_body: None,
                        rollback_possible: true,
                        buffered_commit_message: None,
                        ..*old(state)
                    })
                    &&& in_time ==> *final(view_change_state) == (view_change::State {
                        new_view_time: None,
                        ..*old(view_change_state)
                    })
                    &&& !in_time ==> *final(view_change_state) == *old(view_change_state)
                },
            }
        }),
{
    // Only higher leader terms than the current one are accepted.
    if message.leader_term.0 <= state.leader_term.0 {
        return NewViewOutcome {
            response: Err(Error::LeaderTermTooSmall(message.leader_term)),
            request_view_change: None,
            notify_new_view: false,
            notify_leader: false,
        };
    }
    // The leader must be the next peer of the peers list.
    if leader(world_state, message.leader_term) != peer_id {
        return NewViewOutcome {
            response: Err(Error::WrongLeader(peer_id)),
            request_view_change: None,
            notify_new_view: false,
            notify_leader: false,
        };
    }
    // The votes of a supermajority prove the view change.
    if let Err(e) = verify_rpu_majority_signatures(
        world_state,
        &message.view_change_signatures,
        view_change_signatures_valid,
        now,
    ) {
        return NewViewOutcome { response: Err(e), request_view_change: None, notify_new_view: false, notify_leader: false };
    }
    if order == BlockOrder::Less {
        // The leader is out of date: vote for its term once more.
        return NewViewOutcome {
            response: Ok(()),
            request_view_change: Some(message.leader_term),
            notify_new_view: false,
            notify_leader: false,
        };
    }
    let notify_new_view = view_change_state.new_view_received(message.leader_term);
    state.new_leader_term(message.leader_term, message.view_change_signatures);
    NewViewOutcome { response: Ok(()), request_view_change: None, notify_new_view, notify_leader: true }
}

/// Apply a stored `block` (whose hash is `block_hash`) beyond the block
/// storage: its transactions leave the `queue`, and the world state applies
/// it and keeps the one before for a rollback.
///
/// The block must follow the current world state, and its transactions must
/// be applicable to it.
pub fn apply_block_effects(
    queue: &mut Queue<SignedTransaction>,
    world_state: &mut WorldStateReferences,
    block_hash: BlockHash,
    block: &Block,
)
    requires
        block.body.prev_block_hash == old(world_state)@.current.last_block_hash,
        transactions_applicable(
            old(world_state)@.current.accounts_view(),
            transactions_view(block.body.transactions@),
        ),
        block.body.height.0 < u64::MAX,
    ensures
        final(queue).entries_spec() == remove_all_spec(old(queue).entries_spec(), block.body.transactions@).0,
        final(world_state)@.prev == Some(old(world_state)@.current),
        final(world_state)@.current.accounts_view() == applied_transactions(
            old(world_state)@.current.accounts_view(),
            transactions_view(block.body.transactions@),
        ),
        final(world_state)@.current.peers_view() == old(world_state)@.current.peers_view(),
        final(world_state)@.current.last_block_hash == block_hash,
        final(world_state)@.current.block_number.0 == block.body.height.0 + 1,
{
    // Committed transactions leave the queue.
    queue.remove_all(&block.body.transactions);
    let mut next = world_state.get();
    let _ = next.apply_block(block.clone(), block_hash);
    world_state.save(next);
}

/// Roll back the last committed block `last_block`, taken from the top of
/// the block storage: its transactions return to the `queue`, and the world
/// state and the follower go back to the block before.
///
/// The block must be the last one, and the world state must keep the one
/// from before it.
pub fn rollback_block(
    state: &mut State,
    queue: &mut Queue<SignedTransaction>,
    world_state: &mut WorldStateReferences,
    last_block: Block,
)
    requires
        last_block.body.height.0 + 1 == old(state).block_number.0,
        old(world_state)@.prev.is_some(),
        old(world_state)@.prev.unwrap().block_number == last_block.body.height,
    ensures
        final(state).wf(),
        final(queue).items() == old(queue).items() + last_block.body.transactions@,
        final(world_state)@ == rolled_back(old(world_state)@).0,
        *final(state) == (State {
            block_number: last_block.body.height,
            last_block_hash: old(world_state)@.prev.unwrap().last_block_hash,
            block_hash: None,
            block_body: None,
            rollback_possible: false,
            buffered_commit_message: None,
            ..*old(state)
        }),
{
    let removed = last_block.body.height;
    // The transactions may not be lost.
    queue.extend(last_block.body.transactions);
    let _ = world_state.rollback();
    let previous = world_state.get();
    state.rollback(removed, &previous);
}

/// Once a follower accepted a block hash for the current round, a message
/// of the round with another hash is refused, whether it carries the body
/// (`Append`) or commits the block (`Commit`): a follower takes part in at
/// most one block per round.
pub proof fn law_one_block_hash_per_round(state: State, block_hash: BlockHash, body_hash: BlockHash)
    requires
        state.block_hash.is_some(),
        state.block_hash.unwrap() != block_hash,
    ensures
        append_hash_check(state, block_hash, body_hash) is Err,
        body_hash == block_hash ==> append_hash_check(state, block_hash, body_hash) == Err::<(), Error>(
            Error::ChangedBlockHash,
        ),
{
}

} // verus!

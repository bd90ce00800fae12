//! Synchronization: a follower that fell behind asks another peer for the
//! leader term and the blocks it misses, checks them and applies them.

use vstd::prelude::*;
use rand::Rng;
use crate::account::{SignedTransaction, transactions_view};
use crate::block::Block;
use crate::queue::{Queue, remove_all_spec};
use crate::signature_list::{SignatureList, signers_unique};
use crate::quorum::quorum_sizes_fit;
use crate::transaction_checker::{TransactionChecker, check_transactions, lemma_checked_transactions_applicable};
use crate::types::{BlockHash, BlockNumber, LeaderTerm, PeerId};
use crate::world_state::{Peer, WorldState, WorldStateReferences, applied_transactions};
use super::consensus_core::{
    law_majority_check_needs_a_supermajority_of_rpus, majority_signatures_check, signature_accepted,
    verify_rpu_majority_signatures,
};
use super::error::Error;
use super::follower::{State, apply_block_effects};
use super::message::SynchronizationRequest;

verus! {

/// How many blocks a follower may fall behind before it synchronizes.
pub const SYNCHRONIZATION_BLOCK_THRESHOLD: u64 = 3;

/// Check whether the follower needs to synchronize to handle a request in
/// `leader_term` for `block_number`.
pub fn is_synchronization_needed(state: &State, leader_term: LeaderTerm, block_number: BlockNumber) -> (needed: bool)
    ensures
        needed == (leader_term.0 > state.leader_term.0 || block_number.0 >= state.block_number.0
            + SYNCHRONIZATION_BLOCK_THRESHOLD),
{
    leader_term.0 > state.leader_term.0 || (block_number.0 >= SYNCHRONIZATION_BLOCK_THRESHOLD && block_number.0
        - SYNCHRONIZATION_BLOCK_THRESHOLD >= state.block_number.0)
}

/// The peers other than `self_id`, in order.
pub open spec fn other_peers(peers: Seq<Peer>, self_id: PeerId) -> Seq<Peer> {
    peers.filter(|peer: Peer| peer.0 != self_id)
}

/// The number of peers other than `self_id`.
pub fn count_other_peers(world_state: &WorldState, self_id: PeerId) -> (count: usize)
    ensures
        count == other_peers(world_state.peers_view(), self_id).len(),
{
    let ghost peers = world_state.peers_view();
    let n = world_state.peer_count();
    let mut count: usize = 0;
    let mut i: usize = 0;
    while i < n
        invariant
            n == peers.len(),
            peers == world_state.peers_view(),
            i <= n,
            count == other_peers(peers.take(i as int), self_id).len(),
            count <= i,
        decreases n - i,
    {
        proof {
            assert(peers.take(i + 1).drop_last() =~= peers.take(i as int));
            reveal(Seq::filter);
        }
        if world_state.peer(i).0 != self_id {
            count = count + 1;
        }
        i = i + 1;
    }
    proof {
        assert(peers.take(n as int) =~= peers);
    }
    count
}

/// The address of the `index`-th peer other than `self_id`.
pub fn other_peer_address(world_state: &WorldState, self_id: PeerId, index: usize) -> (address: String)
    requires
        index < other_peers(world_state.peers_view(), self_id).len(),
    ensures
        address == other_peers(world_state.peers_view(), self_id)[index as int].1,
{
    let ghost peers = world_state.peers_view();
    let n = world_state.peer_count();
    let mut count: usize = 0;
    let mut i: usize = 0;
    while i < n
        invariant
            n == peers.len(),
            peers == world_state.peers_view(),
            i <= n,
            count == other_peers(peers.take(i as int), self_id).len(),
            count <= index,
            index < other_peers(peers, self_id).len(),
            forall|k: int| 0 <= k < count ==> other_peers(peers.take(i as int), self_id)[k] == #[trigger] other_peers(peers, self_id)[k],
        decreases n - i,
    {
        let peer = world_state.peer(i);
        proof {
            assert(peers.take(i + 1).drop_last() =~= peers.take(i as int));
            lemma_other_peers_prefix(peers, self_id, i + 1);
            reveal(Seq::filter);
        }
        if peer.0 != self_id {
            if count == index {
                proof {
                    assert(other_peers(peers.take(i + 1), self_id)[index as int] == peers[i as int]);
                }
                return peer.1.clone();
            }
            count = count + 1;
        }
        i = i + 1;
    }
    proof {
        assert(peers.take(n as int) =~= peers);
    }
    // Every index below the number of other peers is reached above.
    proof {
        assert(false);
    }
    String::new()
}

/// The peers other than `self_id` of a prefix of `peers` are a prefix of those of `peers`.
proof fn lemma_other_peers_prefix(peers: Seq<Peer>, self_id: PeerId, n: int)
    requires
        0 <= n <= peers.len(),
    ensures
        other_peers(peers.take(n), self_id).len() <= other_peers(peers, self_id).len(),
        forall|k: int|
            0 <= k < other_peers(peers.take(n), self_id).len() ==> #[trigger] other_peers(peers.take(n), self_id)[k]
                == other_peers(peers, self_id)[k],
    decreases peers.len() - n,
{
    if n < peers.len() {
        lemma_other_peers_prefix(peers, self_id, n + 1);
        assert(peers.take(n + 1).drop_last() =~= peers.take(n));
        reveal(Seq::filter);
        let shorter = other_peers(peers.take(n), self_id);
        let longer = other_peers(peers.take(n + 1), self_id);
        assert(shorter.len() <= longer.len());
        assert forall|k: int| 0 <= k < shorter.len() implies #[trigger] shorter[k] == other_peers(peers, self_id)[k] by {
            assert(shorter[k] == longer[k]);
        }
    } else {
        assert(peers.take(n) =~= peers);
    }
}

/// Calls `rand::Rng::gen_range` on `rand::thread_rng()`: an index below
/// `bound`, drawn at random.
#[verifier::external_body]
fn random_index(bound: usize) -> (index: usize)
    requires
        bound > 0,
    ensures
        index < bound,
{
    rand::thread_rng().gen_range(0, bound)
}

/// Choose the peer to synchronize from at random, never this peer itself
/// (`self_id`): the address of one of the other peers.
///
/// There must be another peer, and more than one peer. Each other peer is
/// equally likely, as when drawing among all peers until another one comes
/// up.
pub fn choose_synchronization_peer(world_state: &WorldState, self_id: PeerId) -> (address: String)
    requires
        world_state.peers_view().len() != 1,
        other_peers(world_state.peers_view(), self_id).len() > 0,
    ensures
        exists|i: int|
            0 <= i < other_peers(world_state.peers_view(), self_id).len() && address == #[trigger] other_peers(
                world_state.peers_view(),
                self_id,
            )[i].1,
{
    let count = count_other_peers(world_state, self_id);
    let index = random_index(count);
    let address = other_peer_address(world_state, self_id, index);
    assert(address == other_peers(world_state.peers_view(), self_id)[index as int].1);
    address
}

/// The position of the first peer whose identity is `peer_id`.
pub open spec fn first_peer_index(peers: Seq<Peer>, peer_id: PeerId) -> int {
    choose|i: int| 0 <= i < peers.len() && peers[i].0 == peer_id && forall|j: int| 0 <= j < i ==> peers[j].0 != peer_id
}

/// The address of the peer `peer_id`, to synchronize from it; an unknown
/// peer is refused.
pub fn peer_address(world_state: &WorldState, peer_id: PeerId) -> (address: Result<String, Error>)
    ensures
        (exists|i: int| 0 <= i < world_state.peers_view().len() && world_state.peers_view()[i].0 == peer_id)
            ==> address == Ok::<String, Error>(
            world_state.peers_view()[first_peer_index(world_state.peers_view(), peer_id)].1,
        ),
        !(exists|i: int| 0 <= i < world_state.peers_view().len() && world_state.peers_view()[i].0 == peer_id)
            ==> address == Err::<String, Error>(Error::InvalidPeer(peer_id)),
{
    let ghost peers = world_state.peers_view();
    let n = world_state.peer_count();
    let mut i: usize = 0;
    while i < n
        invariant
            n == peers.len(),
            peers == world_state.peers_view(),
            i <= n,
            forall|j: int| 0 <= j < i ==> peers[j].0 != peer_id,
        decreases n - i,
    {
        let peer = world_state.peer(i);
        if peer.0 == peer_id {
            proof {
                let k = first_peer_index(peers, peer_id);
                assert(0 <= i < peers.len() && peers[i as int].0 == peer_id && forall|j: int|
                    0 <= j < i ==> peers[j].0 != peer_id);
                assert(k == i) by {
                    if k < i {
                        assert(peers[k].0 != peer_id);
                    } else if k > i {
                        assert(peers[i as int].0 != peer_id);
                    }
                }
            }
            return Ok(peer.1.clone());
        }
        i = i + 1;
    }
    Err(Error::InvalidPeer(peer_id))
}

/// The request that asks a peer for what the follower misses.
pub fn synchronization_request(state: &State) -> (request: SynchronizationRequest)
    ensures
        request == (SynchronizationRequest {
            leader_term: state.leader_term,
            block_number: state.block_number,
            block_hash: state.last_block_hash,
        }),
{
    SynchronizationRequest {
        leader_term: state.leader_term,
        block_number: state.block_number,
        block_hash: state.last_block_hash,
    }
}

/// Take over the leader term that the peer sent with its answer, if any,
/// once its `ViewChange` signatures prove it (`signatures_valid[i]` is the
/// outcome of verifying the `i`-th signature over the term).
pub fn accept_synchronized_new_view(
    state: &mut State,
    world_state: &WorldState,
    new_view: Option<(LeaderTerm, SignatureList)>,
    signatures_valid: &Vec<bool>,
    now: i64,
) -> (res: Result<(), Error>)
    requires
        new_view matches Some(view) && signers_unique(view.1@) ==> quorum_sizes_fit(world_state.peers_view().len() as int),
        new_view matches Some(view) ==> signatures_valid@.len() == view.1@.len(),
    ensures
        final(state).wf() <== old(state).wf(),
        new_view.is_none() ==> res == Ok::<(), Error>(()) && *final(state) == *old(state),
        new_view matches Some(view) ==> match majority_signatures_check(
            world_state.accounts_view(),
            world_state.peers_view().len() as int,
            view.1@,
            signatures_valid@,
            now,
        ) {
            Err(e) => res == Err::<(), Error>(e) && *final(state) == *old(state),
            Ok(_) => res == Ok::<(), Error>(()) && *final(state) == (State {
                leader_term: view.0,
                new_view_signatures: view.1,
                block_hash: None,
                block_body: None,
                rollback_possible: true,
                buffered_commit_message: None,
                ..*old(state)
            }),
        },
{
    match new_view {
        Some((new_leader_term, view_change_signatures)) => {
            verify_rpu_majority_signatures(world_state, &view_change_signatures, signatures_valid, now)?;
            state.new_leader_term(new_leader_term, view_change_signatures);
            Ok(())
        },
        None => Ok(()),
    }
}

/// Whether the chain split: the first received block (with hash
/// `first_block_hash`) replaces the follower's last block, which may still
/// be rolled back.
pub fn needs_rollback(state: &State, first_block: &Block, first_block_hash: BlockHash) -> (rollback: bool)
    ensures
        rollback == (state.rollback_possible && first_block.body.height.0 + 1 == state.block_number.0
            && first_block_hash != state.last_block_hash),
{
    state.rollback_possible && first_block.body.height.0 < state.block_number.0 && first_block.body.height.0 + 1
        == state.block_number.0 && first_block_hash != state.last_block_hash
}

/// The checks of a block received while synchronizing, whose hash is
/// `block_hash`: it is the next block, follows the last one, carries the
/// `AckAppend` signatures of a supermajority of RPUs (`signatures_valid`),
/// is not empty, and its transactions pass their checks on the world state
/// (`transaction_signatures_valid` being the outcome of verifying their
/// signatures).
pub open spec fn synchronized_block_check(
    state: State,
    world_state: WorldState,
    block: Block,
    signatures_valid: Seq<bool>,
    transaction_signatures_valid: bool,
    now: i64,
) -> Result<(), Error> {
    if block.body.height != state.block_number {
        Err(Error::WrongBlockNumber { received: block.body.height, expected: state.block_number })
    } else if block.body.prev_block_hash != state.last_block_hash {
        Err(Error::PrevBlockHashDoesNotMatch(block.body.prev_block_hash, state.last_block_hash))
    } else {
        match majority_signatures_check(
            world_state.accounts_view(),
            world_state.peers_view().len() as int,
            block.signatures@,
            signatures_valid,
            now,
        ) {
            Err(e) => Err(e),
            Ok(_) => if block.body.transactions@.len() == 0 {
                Err(Error::EmptyBlock)
            } else if !transaction_signatures_valid {
                Err(Error::Permission(crate::transaction_checker::PermissionError::InvalidSignature))
            } else {
                match check_transactions(world_state.accounts_view(), now, transactions_view(block.body.transactions@)) {
                    Err(e) => Err(Error::Permission(e)),
                    Ok(_) => Ok(()),
                }
            },
        }
    }
}

/// A received block passes the check only where it is the follower's next
/// block (its height and previous hash match), it holds transactions, and
/// its signatures come from distinct RPUs, each valid and with an unexpired
/// account, that number more than two thirds of the peers.
pub proof fn law_synchronized_block_needs_a_supermajority(
    state: State,
    world_state: WorldState,
    block: Block,
    signatures_valid: Seq<bool>,
    transaction_signatures_valid: bool,
    now: i64,
)
    requires
        signatures_valid.len() == block.signatures@.len(),
        synchronized_block_check(state, world_state, block, signatures_valid, transaction_signatures_valid, now) is Ok,
    ensures
        block.body.height == state.block_number,
        block.body.prev_block_hash == state.last_block_hash,
        block.body.transactions@.len() > 0,
        transaction_signatures_valid,
        forall|i: int, j: int|
            0 <= i < j < block.signatures@.len() ==> block.signatures@[i].0 != block.signatures@[j].0,
        block.signatures@.len() >= world_state.peers_view().len() * 2 / 3 + 1,
        forall|i: int|
            0 <= i < block.signatures@.len() ==> #[trigger] signature_accepted(
                world_state.accounts_view(),
                block.signatures@,
                signatures_valid,
                now,
                i,
            ),
{
    law_majority_check_needs_a_supermajority_of_rpus(
        world_state.accounts_view(),
        world_state.peers_view().len() as int,
        block.signatures@,
        signatures_valid,
        now,
    );
}

/// Apply a `block` received while synchronizing, whose hash is `block_hash`.
///
/// A block that the follower already has is skipped (`Ok(None)`). Another
/// one must pass `synchronized_block_check`; then its transactions leave the
/// `queue`, the world state applies it, the follower moves to the next
/// round, and the block is handed back to be written to the block storage.
///
/// The follower and the world state must agree on the last block, so that
/// the world state can apply the block.
pub fn apply_synchronized_block(
    state: &mut State,
    queue: &mut Queue<SignedTransaction>,
    world_state: &mut WorldStateReferences,
    block: Block,
    block_hash: BlockHash,
    signatures_valid: &Vec<bool>,
    transaction_signatures_valid: bool,
    now: i64,
) -> (res: Result<Option<Block>, Error>)
    requires
        old(state).wf(),
        old(state).block_number.0 < u64::MAX,
        old(state).last_block_hash == old(world_state)@.current.last_block_hash,
        block.body.height.0 == old(state).block_number.0 && block.body.prev_block_hash == old(state).last_block_hash
            && signers_unique(block.signatures@) ==> quorum_sizes_fit(old(world_state)@.current.peers_view().len() as int),
        signatures_valid@.len() == block.signatures@.len(),
    ensures
        final(state).wf(),
        res matches Ok(Some(_)) ==> majority_signatures_check(
            old(world_state)@.current.accounts_view(),
            old(world_state)@.current.peers_view().len() as int,
            block.signatures@,
            signatures_valid@,
            now,
        ) is Ok,
        block.body.height == old(state).block_number && block.body.prev_block_hash == old(state).last_block_hash
            && majority_signatures_check(
            old(world_state)@.current.accounts_view(),
            old(world_state)@.current.peers_view().len() as int,
            block.signatures@,
            signatures_valid@,
            now,
        ) is Err ==> {
            &&& res == Err::<Option<Block>, Error>(
                majority_signatures_check(
                    old(world_state)@.current.accounts_view(),
                    old(world_state)@.current.peers_view().len() as int,
                    block.signatures@,
                    signatures_valid@,
                    now,
                )->Err_0,
            )
            &&& *final(state) == *old(state)
            &&& final(queue).entries_spec() == old(queue).entries_spec()
            &&& final(world_state)@ == old(world_state)@
        },
        block.body.height.0 < old(state).block_number.0 ==> {
            &&& res == Ok::<Option<Block>, Error>(None)
            &&& *final(state) == *old(state)
            &&& final(queue).entries_spec() == old(queue).entries_spec()
            &&& final(world_state)@ == old(world_state)@
        },
        block.body.height.0 >= old(state).block_number.0 ==> match synchronized_block_check(
            *old(state),
            old(world_state)@.current,
            block,
            signatures_valid@,
            transaction_signatures_valid,
            now,
        ) {
            Err(e) => {
                &&& res == Err::<Option<Block>, Error>(e)
                &&& *final(state) == *old(state)
                &&& final(queue).entries_spec() == old(queue).entries_spec()
                &&& final(world_state)@ == old(world_state)@
            },
            Ok(_) => {
                &&& res == Ok::<Option<Block>, Error>(Some(block))
                &&& final(state).block_number.0 == old(state).block_number.0 + 1
                &&& final(state).last_block_hash == block_hash
                &&& final(state).block_body.is_none()
                &&& final(state).block_hash == old(state).block_hash
                &&& !final(state).rollback_possible
                &&& final(state).buffered_commit_message.is_none()
                &&& final(state).leader_term == old(state).leader_term
                &&& final(state).new_view_signatures == old(state).new_view_signatures
                &&& final(queue).entries_spec() == remove_all_spec(old(queue).entries_spec(), block.body.transactions@).0
                &&& final(world_state)@.prev == Some(old(world_state)@.current)
                &&& final(world_state)@.current.accounts_view() == applied_transactions(
                    old(world_state)@.current.accounts_view(),
                    transactions_view(block.body.transactions@),
                )
                &&& final(world_state)@.current.last_block_hash == block_hash
                &&& final(world_state)@.current.block_number.0 == block.body.height.0 + 1
            },
        },
{
    if block.body.height.0 < state.block_number.0 {
        // Already known.
        return Ok(None);
    }
    block.body.height.verify(state.block_number)?;
    if block.body.prev_block_hash != state.last_block_hash {
        return Err(Error::PrevBlockHashDoesNotMatch(block.body.prev_block_hash, state.last_block_hash));
    }
    let current = world_state.get();
    verify_rpu_majority_signatures(&current, &block.signatures, signatures_valid, now)?;
    if block.body.transactions.len() == 0 {
        return Err(Error::EmptyBlock);
    }
    let checker = TransactionChecker::new(current);
    match checker.verify(&block.body.transactions, transaction_signatures_valid, now) {
        Ok(()) => {},
        Err(e) => {
            return Err(Error::Permission(e));
        },
    }
    proof {
        lemma_checked_transactions_applicable(
            world_state@.current.accounts_view(),
            now,
            transactions_view(block.body.transactions@),
        );
    }
    // Persist the block after all checks have passed.
    apply_block_effects(queue, world_state, block_hash, &block);
    state.apply_block(block_hash, &block);
    Ok(Some(block))
}

/// The leader term that a peer that synchronizes misses: none if it knows
/// the current one.
pub fn synchronization_new_view(state: &State, request: &SynchronizationRequest) -> (new_view: Option<
    (LeaderTerm, SignatureList),
>)
    ensures
        request.leader_term == state.leader_term ==> new_view.is_none(),
        request.leader_term != state.leader_term ==> (new_view matches Some(view) && view.0 == state.leader_term
            && view.1@ == state.new_view_signatures@),
{
    if request.leader_term == state.leader_term {
        None
    } else {
        Some((state.leader_term, state.new_view_signatures.clone()))
    }
}

/// The first block to send to a peer that synchronizes: the one before its
/// current block, so that it can detect a split of the chain.
pub fn synchronization_start(request: &SynchronizationRequest) -> (start: BlockNumber)
    ensures
        request.block_number.0 > 0 ==> start.0 == request.block_number.0 - 1,
        request.block_number.0 == 0 ==> start.0 == 0,
{
    if request.block_number.0 > 0 {
        request.block_number.sub(1)
    } else {
        request.block_number
    }
}

/// The blocks to send to a peer that synchronizes, from the blocks read
/// from `synchronization_start` on: the first one only if its hash
/// (`first_block_hash`) differs from the peer's last block hash.
pub fn synchronization_blocks(request: &SynchronizationRequest, blocks: Vec<Block>, first_block_hash: BlockHash) -> (sent: Vec<Block>)
    ensures
        blocks@.len() > 0 && first_block_hash == request.block_hash ==> sent@ == blocks@.drop_first(),
        !(blocks@.len() > 0 && first_block_hash == request.block_hash) ==> sent@ == blocks@,
{
    if blocks.len() > 0 && first_block_hash == request.block_hash {
        let mut blocks = blocks;
        blocks.remove(0);
        blocks
    } else {
        blocks
    }
}

} // verus!

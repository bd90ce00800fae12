//! The leader: the state of the peer that proposes the blocks of its term,
//! and the choice of the transactions of a block.

use vstd::prelude::*;
use crate::account::SignedTransaction;
use crate::block::Body;
use crate::queue::Queue;
use crate::signature_list::SignatureList;
use crate::types::{BlockHash, BlockNumber, LeaderTerm, PeerId};
use crate::world_state::WorldState;
use super::consensus_core::{leader, leader_of};
use super::follower;
use super::message::{Append, Commit, InvalidTransaction, Metadata, Prepare};

verus! {

/// The largest number of transactions in one block.
pub const MAX_TRANSACTIONS_PER_BLOCK: usize = 4000;

/// The phase of the round that the leader is in.
#[derive(Debug, Clone, Copy, PartialEq, Eq, Structural)]
pub enum LeaderPhase {
    /// Waiting for transactions.
    Waiting,
    /// The `Prepare` message is out.
    Prepare,
    /// The `Append` message is out.
    Append,
    /// The `Commit` message is out.
    Commit,
}

/// The state of the leader.
#[derive(Debug)]
pub struct Leader {
    /// The leader term that the leader works in (or waits for).
    pub leader_term: LeaderTerm,
    /// The number of the block of the current round.
    pub block_number: BlockNumber,
    /// The hash of the last block.
    pub last_block_hash: BlockHash,
    /// The phase of the current round.
    pub phase: LeaderPhase,
}

impl Leader {
    /// A leader that waits in leader term zero at the start of the chain.
    pub fn new() -> (leader: Self)
        ensures
            leader.leader_term.0 == 0,
            leader.block_number.0 == 0,
            leader.last_block_hash == BlockHash(crate::types::Bytes32(0, 0, 0, 0)),
            leader.phase == LeaderPhase::Waiting,
    {
        Leader {
            leader_term: LeaderTerm::default(),
            block_number: BlockNumber::default(),
            last_block_hash: BlockHash::default(),
            phase: LeaderPhase::Waiting,
        }
    }

    /// Take over the round of the follower, unless the leader already moved
    /// on to a later leader term (after a failed term of its own).
    pub fn synchronize_from_follower(&mut self, state: &follower::State)
        ensures
            old(self).leader_term.0 <= state.leader_term.0 ==> *final(self) == (Leader {
                leader_term: state.leader_term,
                block_number: state.block_number,
                last_block_hash: state.last_block_hash,
                ..*old(self)
            }),
            old(self).leader_term.0 > state.leader_term.0 ==> *final(self) == *old(self),
    {
        if self.leader_term.0 <= state.leader_term.0 {
            self.leader_term = state.leader_term;
            self.block_number = state.block_number;
            self.last_block_hash = state.last_block_hash;
        }
    }

    /// Whether this peer (`self_id`) leads the current leader term.
    pub fn is_current_leader(&self, world_state: &WorldState, self_id: PeerId) -> (leads: bool)
        requires
            world_state.peers_view().len() > 0,
        ensures
            leads == (leader_of(world_state.peers_view(), self.leader_term) == self_id),
    {
        leader(world_state, self.leader_term) == self_id
    }

    /// After a leader term ends, the leader waits at least for the next one.
    pub fn end_leader_term(&mut self)
        requires
            old(self).leader_term.0 < u64::MAX,
        ensures
            *final(self) == (Leader { leader_term: LeaderTerm((old(self).leader_term.0 + 1) as u64), ..*old(self) }),
    {
        self.leader_term.add_assign(1);
    }

    /// The metadata of the messages of the current round about `block_hash`.
    pub fn metadata_with(&self, block_hash: BlockHash) -> (metadata: Metadata)
        ensures
            metadata == (Metadata { leader_term: self.leader_term, block_number: self.block_number, block_hash }),
    {
        Metadata { leader_term: self.leader_term, block_number: self.block_number, block_hash }
    }

    /// The body of the block of the current round with `transactions`.
    pub fn body_with(&self, transactions: Vec<SignedTransaction>) -> (body: Body)
        ensures
            body == (Body {
                leader_term: self.leader_term,
                height: self.block_number,
                prev_block_hash: self.last_block_hash,
                transactions,
            }),
    {
        Body {
            leader_term: self.leader_term,
            height: self.block_number,
            prev_block_hash: self.last_block_hash,
            transactions,
        }
    }

    /// Start a round: wait for transactions.
    pub fn start_round(&mut self)
        ensures
            *final(self) == (Leader { phase: LeaderPhase::Waiting, ..*old(self) }),
    {
        self.phase = LeaderPhase::Waiting;
    }

    /// Enter the prepare phase: the `Prepare` message for `block_hash`.
    pub fn prepare(&mut self, block_hash: BlockHash) -> (message: Prepare)
        ensures
            *final(self) == (Leader { phase: LeaderPhase::Prepare, ..*old(self) }),
            message.metadata == old(self).metadata_spec(block_hash),
    {
        self.phase = LeaderPhase::Prepare;
        Prepare { metadata: self.metadata_with(block_hash) }
    }

    /// Enter the append phase: the `Append` message with the block's
    /// `transactions` (created at `timestamp`) and the `AckPrepare`
    /// signatures of a supermajority.
    pub fn append(
        &mut self,
        block_hash: BlockHash,
        transactions: Vec<SignedTransaction>,
        ackprepare_signatures: SignatureList,
        timestamp: i64,
    ) -> (message: Append)
        ensures
            *final(self) == (Leader { phase: LeaderPhase::Append, ..*old(self) }),
            message.metadata == old(self).metadata_spec(block_hash),
            message.ackprepare_signatures == ackprepare_signatures,
            message.valid_transactions == transactions,
            message.invalid_transactions@.len() == 0,
            message.timestamp == timestamp,
    {
        self.phase = LeaderPhase::Append;
        let invalid_transactions: Vec<InvalidTransaction> = Vec::new();
        Append {
            metadata: self.metadata_with(block_hash),
            ackprepare_signatures,
            valid_transactions: transactions,
            invalid_transactions,
            timestamp,
        }
    }

    /// Enter the commit phase: the `Commit` message with the `AckAppend`
    /// signatures of a supermajority.
    pub fn commit(&mut self, block_hash: BlockHash, ackappend_signatures: SignatureList) -> (message: Commit)
        ensures
            *final(self) == (Leader { phase: LeaderPhase::Commit, ..*old(self) }),
            message.metadata == old(self).metadata_spec(block_hash),
            message.ackappend_signatures == ackappend_signatures,
    {
        self.phase = LeaderPhase::Commit;
        Commit { metadata: self.metadata_with(block_hash), ackappend_signatures }
    }

    /// The block `block_hash` was committed: move to the next round.
    pub fn committed(&mut self, block_hash: BlockHash)
        requires
            old(self).block_number.0 < u64::MAX,
        ensures
            *final(self) == (Leader {
                block_number: BlockNumber((old(self).block_number.0 + 1) as u64),
                last_block_hash: block_hash,
                ..*old(self)
            }),
    {
        self.block_number = self.block_number.add(1);
        self.last_block_hash = block_hash;
    }

    /// The metadata of the messages of the current round about `block_hash`.
    pub open spec fn metadata_spec(&self, block_hash: BlockHash) -> Metadata {
        Metadata { leader_term: self.leader_term, block_number: self.block_number, block_hash }
    }
}

/// The number of queued transactions for which a round starts: a full
/// block, or any transaction once the leader waited in vain.
pub fn min_block_size(timed_out: bool) -> (size: usize)
    ensures
        !timed_out ==> size == MAX_TRANSACTIONS_PER_BLOCK,
        timed_out ==> size == 1,
{
    if timed_out {
        1
    } else {
        MAX_TRANSACTIONS_PER_BLOCK
    }
}

/// Take the transactions of the next block from the front of the `queue`:
/// all of them, up to `MAX_TRANSACTIONS_PER_BLOCK`.
pub fn take_block_transactions(queue: &mut Queue<SignedTransaction>) -> (transactions: Vec<SignedTransaction>)
    ensures
        ({
            let n = if old(queue).items().len() < MAX_TRANSACTIONS_PER_BLOCK {
                old(queue).items().len() as int
            } else {
                MAX_TRANSACTIONS_PER_BLOCK as int
            };
            &&& transactions@ == old(queue).items().take(n)
            &&& final(queue).entries_spec() == old(queue).entries_spec().skip(n)
        }),
{
    let mut transactions: Vec<SignedTransaction> = Vec::new();
    let ghost items = queue.items();
    let ghost entries = queue.entries_spec();
    while transactions.len() < MAX_TRANSACTIONS_PER_BLOCK
        invariant
            items == old(queue).items(),
            entries == old(queue).entries_spec(),
            transactions@.len() <= MAX_TRANSACTIONS_PER_BLOCK,
            transactions@.len() <= items.len(),
            transactions@ == items.take(transactions@.len() as int),
            queue.entries_spec() == entries.skip(transactions@.len() as int),
        decreases MAX_TRANSACTIONS_PER_BLOCK - transactions@.len(),
    {
        let ghost taken = transactions@.len() as int;
        match queue.next() {
            Some(transaction) => {
                proof {
                    assert(entries.skip(taken)[0] == entries[taken]);
                    assert(transaction == items[taken]);
                    assert(entries.skip(taken).drop_first() =~= entries.skip(taken + 1));
                }
                transactions.push(transaction);
                proof {
                    assert(transactions@ =~= items.take(taken + 1));
                }
            },
            None => {
                proof {
                    assert(taken == items.len());
                    assert(items.take(taken) =~= items);
                }
                return transactions;
            },
        }
    }
    transactions
}

/// Take `transactions` from clients into the `queue`; whether there are
/// more queued than fit into one block, so that the leader is to start.
pub fn take_transactions(queue: &mut Queue<SignedTransaction>, transactions: Vec<SignedTransaction>) -> (notify_leader: bool)
    ensures
        final(queue).items() == old(queue).items() + transactions@,
        notify_leader == (final(queue).entries_spec().len() > MAX_TRANSACTIONS_PER_BLOCK),
{
    queue.extend(transactions);
    queue.len() > MAX_TRANSACTIONS_PER_BLOCK
}

} // verus!

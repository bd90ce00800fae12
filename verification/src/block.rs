//! Blocks of the chain.

use vstd::prelude::*;
use crate::account::{SignedTransaction, SignedTransactionView, Transaction, TransactionView, copy_bytes, transactions_view};
use crate::types::{PeerId, Signature};
use crate::signature_list::SignatureList;
use crate::types::{BlockHash, BlockNumber, LeaderTerm};

verus! {

/// The content of a block, covered by its hash.
#[derive(Debug)]
pub struct Body {
    /// The leader term in which the block was proposed.
    pub leader_term: LeaderTerm,
    /// The height of the block in the chain (its block number).
    pub height: BlockNumber,
    /// The hash of the previous block.
    pub prev_block_hash: BlockHash,
    /// The transactions of the block.
    pub transactions: Vec<SignedTransaction>,
}

/// A block together with the signatures of the RPUs that appended it.
#[derive(Debug)]
pub struct Block {
    /// The content of the block.
    pub body: Body,
    /// The `AckAppend` signatures of a supermajority of the RPUs.
    pub signatures: SignatureList,
}

impl Block {
    /// The number of this block.
    pub fn block_number(&self) -> (number: BlockNumber)
        ensures
            number == self.body.height,
    {
        self.body.height
    }
}

/// Copy a list of signed transactions.
pub fn copy_transactions(transactions: &Vec<SignedTransaction>) -> (copy: Vec<SignedTransaction>)
    ensures
        transactions_view(copy@) == transactions_view(transactions@),
{
    let mut copy: Vec<SignedTransaction> = Vec::new();
    let mut i: usize = 0;
    while i < transactions.len()
        invariant
            i <= transactions@.len(),
            copy@.len() == i,
            forall|k: int| 0 <= k < i ==> #[trigger] copy@[k]@ == transactions@[k]@,
        decreases transactions@.len() - i,
    {
        copy.push(transactions[i].clone());
        i = i + 1;
    }
    proof {
        assert(transactions_view(copy@) =~= transactions_view(transactions@));
    }
    copy
}

impl Clone for Body {
    fn clone(&self) -> (copy: Self)
        ensures
            copy.leader_term == self.leader_term,
            copy.height == self.height,
            copy.prev_block_hash == self.prev_block_hash,
            transactions_view(copy.transactions@) == transactions_view(self.transactions@),
    {
        Body {
            leader_term: self.leader_term,
            height: self.height,
            prev_block_hash: self.prev_block_hash,
            transactions: copy_transactions(&self.transactions),
        }
    }
}

impl Clone for Block {
    fn clone(&self) -> (copy: Self)
        ensures
            copy.body.leader_term == self.body.leader_term,
            copy.body.height == self.body.height,
            copy.body.prev_block_hash == self.body.prev_block_hash,
            transactions_view(copy.body.transactions@) == transactions_view(self.body.transactions@),
            copy.signatures@ == self.signatures@,
    {
        Block { body: self.body.clone(), signatures: self.signatures.clone() }
    }
}

/// A value that a transaction sets: its account, key, value, the client's
/// timestamp and the signature.
#[derive(Debug)]
pub struct KeyValueEntry {
    /// The account that sets the value.
    pub signer: PeerId,
    /// The key of the value.
    pub key: String,
    /// The value.
    pub value: Vec<u8>,
    /// When the client created the transaction (nanoseconds since the epoch).
    pub timestamp: i64,
    /// The signature of the transaction.
    pub signature: Signature,
}

/// The values that `transactions` set, in order: the signer, the key, the
/// value, the timestamp and the signature of each `KeyValue` transaction.
pub open spec fn key_value_entries(transactions: Seq<SignedTransactionView>) -> Seq<(PeerId, Seq<char>, Seq<u8>, i64, Signature)>
    decreases transactions.len(),
{
    if transactions.len() == 0 {
        Seq::empty()
    } else {
        let earlier = key_value_entries(transactions.drop_last());
        let last = transactions.last();
        match last.transaction {
            TransactionView::KeyValue { key, value, timestamp } => earlier.push(
                (last.signer, key, value, timestamp, last.signature),
            ),
            _ => earlier,
        }
    }
}

/// The view of a value entry.
pub open spec fn entry_view(entry: KeyValueEntry) -> (PeerId, Seq<char>, Seq<u8>, i64, Signature) {
    (entry.signer, entry.key@, entry.value@, entry.timestamp, entry.signature)
}

/// The values that `transactions` set, in order (account permissions live
/// in the world state and are not stored here).
pub fn key_values(transactions: &Vec<SignedTransaction>) -> (entries: Vec<KeyValueEntry>)
    ensures
        entries@.map_values(|e: KeyValueEntry| entry_view(e)) == key_value_entries(transactions_view(transactions@)),
{
    let ghost all = transactions_view(transactions@);
    let mut entries: Vec<KeyValueEntry> = Vec::new();
    let mut i: usize = 0;
    while i < transactions.len()
        invariant
            i <= transactions@.len(),
            all == transactions_view(transactions@),
            entries@.map_values(|e: KeyValueEntry| entry_view(e)) == key_value_entries(all.take(i as int)),
        decreases transactions@.len() - i,
    {
        proof {
            assert(all.take(i + 1).drop_last() =~= all.take(i as int));
            assert(all.take(i + 1).last() == transactions@[i as int]@);
        }
        let ghost before = entries@;
        let transaction = &transactions[i];
        match &transaction.transaction {
            Transaction::KeyValue { key, value, timestamp } => {
                let entry = KeyValueEntry {
                    signer: transaction.signer,
                    key: key.clone(),
                    value: copy_bytes(value),
                    timestamp: *timestamp,
                    signature: transaction.signature,
                };
                entries.push(entry);
                proof {
                    assert(entries@.map_values(|e: KeyValueEntry| entry_view(e)) =~= before.map_values(
                        |e: KeyValueEntry| entry_view(e),
                    ).push(entry_view(entry)));
                }
            },
            _ => {},
        }
        i = i + 1;
    }
    proof {
        assert(all.take(i as int) =~= all);
    }
    entries
}

} // verus!

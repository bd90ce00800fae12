//! The bucket of transactions that an RPU collects from its clients before
//! it sends them to the other RPUs as one batch.

use vstd::prelude::*;
use crate::account::SignedTransaction;

verus! {

/// The number of transactions that fill a batch.
pub const MAX_TRANSACTIONS_PER_BATCH: usize = 4000;

/// Add a received `transaction` to the `bucket`; whether the bucket is full
/// now, so that the batch is to be sent.
pub fn add_to_batch(bucket: &mut Vec<SignedTransaction>, transaction: SignedTransaction) -> (full: bool)
    ensures
        final(bucket)@ == old(bucket)@.push(transaction),
        full == (final(bucket)@.len() >= MAX_TRANSACTIONS_PER_BATCH),
{
    bucket.push(transaction);
    bucket.len() >= MAX_TRANSACTIONS_PER_BATCH
}

/// Take the batch out of the `bucket`, which is left empty; nothing is sent
/// for an empty bucket.
pub fn take_batch(bucket: &mut Vec<SignedTransaction>) -> (batch: Option<Vec<SignedTransaction>>)
    ensures
        final(bucket)@.len() == 0,
        old(bucket)@.len() == 0 ==> batch.is_none(),
        old(bucket)@.len() > 0 ==> (batch matches Some(b) && b@ == old(bucket)@),
{
    let mut batch: Vec<SignedTransaction> = Vec::new();
    std::mem::swap(bucket, &mut batch);
    if batch.len() == 0 {
        None
    } else {
        Some(batch)
    }
}

} // verus!

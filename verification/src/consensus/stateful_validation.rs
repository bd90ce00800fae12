//! The stateful validation of the transactions of a block: the valid ones
//! must pass their checks in order, the ones marked invalid must fail theirs.

use vstd::prelude::*;
use crate::account::{SignedTransaction, SignedTransactionView, transactions_view, AccountView};
use crate::transaction_checker::{TransactionCheck, check_transaction};
use crate::types::PeerId;
use crate::world_state::WorldState;
use super::error::Error;
use super::message::InvalidTransaction;

verus! {

/// The views of the transactions that the leader marked invalid.
pub open spec fn invalid_view(invalid: Seq<InvalidTransaction>) -> Seq<(usize, SignedTransactionView)> {
    invalid.map_values(|entry: InvalidTransaction| (entry.0, entry.1@))
}

/// Apply the valid transactions from position `index` up to `end`: the
/// accounts and the position afterwards, or the first failure.
pub open spec fn apply_valid(
    accounts: Map<PeerId, AccountView>,
    valid: Seq<SignedTransactionView>,
    index: int,
    end: int,
    now: i64,
) -> Result<(Map<PeerId, AccountView>, int), Error>
    decreases end - index,
{
    if index >= end {
        Ok((accounts, index))
    } else if index >= valid.len() {
        Err(Error::BadInvalidTransactionIndex(index as usize))
    } else {
        match check_transaction(accounts, now, valid[index]) {
            Err(e) => Err(Error::Permission(e)),
            Ok(after) => apply_valid(after, valid, index + 1, end, now),
        }
    }
}

/// The position up to which the valid transactions are applied before the
/// `k`-th invalid transaction is checked (all of them after the last one).
pub open spec fn validation_end(valid: Seq<SignedTransactionView>, invalid: Seq<(usize, SignedTransactionView)>, k: int) -> int {
    if k < invalid.len() {
        invalid[k].0 as int
    } else {
        valid.len() as int
    }
}

/// One step of applying the valid transactions before the `k`-th invalid one.
proof fn lemma_validation_step(
    accounts: Map<PeerId, AccountView>,
    valid: Seq<SignedTransactionView>,
    invalid: Seq<(usize, SignedTransactionView)>,
    k: int,
    index: int,
    now: i64,
)
    requires
        0 <= k <= invalid.len(),
        0 <= index < validation_end(valid, invalid, k),
    ensures
        index >= valid.len() ==> validation(accounts, valid, invalid, k, index, now) == Err::<(), Error>(
            Error::BadInvalidTransactionIndex(index as usize),
        ),
        index < valid.len() ==> match check_transaction(accounts, now, valid[index]) {
            Err(e) => validation(accounts, valid, invalid, k, index, now) == Err::<(), Error>(Error::Permission(e)),
            Ok(after) => validation(accounts, valid, invalid, k, index, now) == validation(
                after,
                valid,
                invalid,
                k,
                index + 1,
                now,
            ),
        },
{
    let end = validation_end(valid, invalid, k);
    if index < valid.len() {
        match check_transaction(accounts, now, valid[index]) {
            Err(e) => {},
            Ok(after) => {
                assert(apply_valid(accounts, valid, index, end, now) == apply_valid(after, valid, index + 1, end, now));
            },
        }
    }
}

/// What remains once the valid transactions before the `k`-th invalid one
/// are applied: check that one, or finish.
proof fn lemma_validation_at_end(
    accounts: Map<PeerId, AccountView>,
    valid: Seq<SignedTransactionView>,
    invalid: Seq<(usize, SignedTransactionView)>,
    k: int,
    index: int,
    now: i64,
)
    requires
        0 <= k <= invalid.len(),
        index >= validation_end(valid, invalid, k),
    ensures
        validation(accounts, valid, invalid, k, index, now) == if k < invalid.len() {
            match check_transaction(accounts, now, invalid[k].1) {
                Ok(_) => Err(Error::CensorshipDetected(k as usize)),
                Err(_) => validation(accounts, valid, invalid, k + 1, index, now),
            }
        } else {
            Ok(())
        },
{
    assert(apply_valid(accounts, valid, index, validation_end(valid, invalid, k), now) == Ok::<
        (Map<PeerId, AccountView>, int),
        Error,
    >((accounts, index)));
}

/// The outcome of validating the block from the `k`-th invalid transaction
/// and the `index`-th valid transaction on: the valid transactions are
/// applied in order up to the position of each invalid one, which must then
/// fail its check.
pub open spec fn validation(
    accounts: Map<PeerId, AccountView>,
    valid: Seq<SignedTransactionView>,
    invalid: Seq<(usize, SignedTransactionView)>,
    k: int,
    index: int,
    now: i64,
) -> Result<(), Error>
    decreases invalid.len() - k,
{
    match apply_valid(accounts, valid, index, validation_end(valid, invalid, k), now) {
        Err(e) => Err(e),
        Ok((after, next)) => if 0 <= k < invalid.len() {
            match check_transaction(after, now, invalid[k].1) {
                Ok(_) => Err(Error::CensorshipDetected(k as usize)),
                Err(_) => validation(after, valid, invalid, k + 1, next, now),
            }
        } else {
            Ok(())
        },
    }
}

/// The outcome of the stateful validation of a block on `accounts`.
pub open spec fn stateful_validation(
    accounts: Map<PeerId, AccountView>,
    valid: Seq<SignedTransactionView>,
    invalid: Seq<(usize, SignedTransactionView)>,
    signatures_valid: bool,
    now: i64,
) -> Result<(), Error> {
    if !signatures_valid {
        Err(Error::InvalidSignature)
    } else {
        validation(accounts, valid, invalid, 0, 0, now)
    }
}

/// Validate the transactions sent by the leader on a copy of `world_state`.
///
/// The valid transactions must pass their checks in order; each transaction
/// that the leader marked as invalid must fail its check at its position,
/// or the leader tries to have valid transactions dropped (censorship).
/// `signatures_valid` is the outcome of verifying the signatures of all
/// these transactions.
pub fn stateful_validate(
    world_state: &WorldState,
    valid_transactions: &Vec<SignedTransaction>,
    invalid_transactions: &Vec<InvalidTransaction>,
    signatures_valid: bool,
    now: i64,
) -> (res: Result<(), Error>)
    ensures
        res == stateful_validation(
            world_state.accounts_view(),
            transactions_view(valid_transactions@),
            invalid_view(invalid_transactions@),
            signatures_valid,
            now,
        ),
{
    if !signatures_valid {
        return Err(Error::InvalidSignature);
    }
    let ghost valid = transactions_view(valid_transactions@);
    let ghost invalid = invalid_view(invalid_transactions@);
    let ghost goal = validation(world_state.accounts_view(), valid, invalid, 0, 0, now);
    let mut check = TransactionCheck::new(world_state);
    let mut index: usize = 0;
    let mut k: usize = 0;
    loop
        invariant
            valid == transactions_view(valid_transactions@),
            invalid == invalid_view(invalid_transactions@),
            valid.len() == valid_transactions@.len(),
            invalid.len() == invalid_transactions@.len(),
            k <= invalid.len(),
            signatures_valid,
            goal == validation(world_state.accounts_view(), valid, invalid, 0, 0, now),
            goal == validation(check.accounts(), valid, invalid, k as int, index as int, now),
        decreases invalid.len() - k,
    {
        let end = if k < invalid_transactions.len() {
            invalid_transactions[k].0
        } else {
            valid_transactions.len()
        };
        while index < end
            invariant
                valid == transactions_view(valid_transactions@),
                invalid == invalid_view(invalid_transactions@),
                valid.len() == valid_transactions@.len(),
                invalid.len() == invalid_transactions@.len(),
                k <= invalid.len(),
                signatures_valid,
                goal == validation(world_state.accounts_view(), valid, invalid, 0, 0, now),
                end == validation_end(valid, invalid, k as int),
                goal == validation(check.accounts(), valid, invalid, k as int, index as int, now),
            decreases end - index,
        {
            proof {
                lemma_validation_step(check.accounts(), valid, invalid, k as int, index as int, now);
            }
            if index >= valid_transactions.len() {
                return Err(Error::BadInvalidTransactionIndex(index));
            }
            proof {
                assert(valid[index as int] == valid_transactions@[index as int]@);
            }
            match check.verify_permissions_and_apply(&valid_transactions[index], now) {
                Ok(()) => {},
                Err(e) => {
                    return Err(Error::Permission(e));
                },
            }
            index = index + 1;
        }
        proof {
            lemma_validation_at_end(check.accounts(), valid, invalid, k as int, index as int, now);
        }
        if k < invalid_transactions.len() {
            proof {
                assert(invalid[k as int].1 == invalid_transactions@[k as int].1@);
            }
            // Applying the transaction marked as invalid must fail, or the
            // leader tries to trick the followers into dropping a valid one.
            if check.verify_permissions_and_apply(&invalid_transactions[k].1, now).is_ok() {
                return Err(Error::CensorshipDetected(k));
            }
            k = k + 1;
        } else {
            return Ok(());
        }
    }
}

} // verus!

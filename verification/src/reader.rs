//! The answers to the read queries of clients, and the checks of the
//! transactions they send.

use vstd::prelude::*;
use crate::account::{Account, AccountType, AccountView, SignedTransaction};
use crate::transaction_checker::{
    AccountChecker, PermissionError, TransactionChecker, account_lookup, check_transaction, may_read_any_key,
};
use crate::types::{BlockNumber, PeerId};
use crate::world_state::WorldState;

verus! {

/// The peers whose values the account of `account_checker` may read some
/// of, in order.
pub open spec fn readable_peers_spec(account: AccountView, peer_ids: Seq<PeerId>) -> Seq<PeerId> {
    peer_ids.filter(|peer_id: PeerId| may_read_any_key(account.reading_rights, peer_id))
}

/// The peers of `peer_ids` whose values the checked account may read some
/// of, in order.
pub fn readable_peers(account_checker: &AccountChecker, peer_ids: &Vec<PeerId>) -> (readable: Vec<PeerId>)
    ensures
        readable@ == readable_peers_spec(account_checker.account_view(), peer_ids@),
{
    let mut readable: Vec<PeerId> = Vec::new();
    let mut i: usize = 0;
    while i < peer_ids.len()
        invariant
            i <= peer_ids@.len(),
            readable@ == readable_peers_spec(account_checker.account_view(), peer_ids@.take(i as int)),
        decreases peer_ids@.len() - i,
    {
        proof {
            assert(peer_ids@.take(i + 1).drop_last() =~= peer_ids@.take(i as int));
            assert(peer_ids@.take(i + 1).last() == peer_ids@[i as int]);
            reveal(Seq::filter);
        }
        if account_checker.is_allowed_to_read_any_key(&peer_ids[i]) {
            readable.push(peer_ids[i]);
        }
        i = i + 1;
    }
    proof {
        assert(peer_ids@.take(i as int) =~= peer_ids@);
    }
    readable
}

/// The outcome of checking the sender of a signed request: its signature
/// must be valid (`signature_valid`) and its account must exist and not be
/// expired at `now`.
pub open spec fn requester_check(
    accounts: Map<PeerId, AccountView>,
    requester: PeerId,
    signature_valid: bool,
    now: i64,
) -> Result<AccountView, PermissionError> {
    if !signature_valid {
        Err(PermissionError::InvalidSignature)
    } else {
        account_lookup(accounts, requester, now)
    }
}

/// The accounts of `peer_ids` that exist, in order.
pub open spec fn existing_accounts(accounts: Map<PeerId, AccountView>, peer_ids: Seq<PeerId>) -> Seq<AccountView>
    decreases peer_ids.len(),
{
    if peer_ids.len() == 0 {
        Seq::empty()
    } else {
        let earlier = existing_accounts(accounts, peer_ids.drop_last());
        if accounts.contains_key(peer_ids.last()) {
            earlier.push(accounts[peer_ids.last()])
        } else {
            earlier
        }
    }
}

/// Answer an admin's request (from `requester`, signed validly when
/// `signature_valid`) for the accounts of `peer_ids`: those that exist, in
/// order.
pub fn get_accounts(
    world_state: &WorldState,
    requester: PeerId,
    signature_valid: bool,
    peer_ids: &Vec<PeerId>,
    now: i64,
) -> (res: Result<Vec<Account>, PermissionError>)
    ensures
        match requester_check(world_state.accounts_view(), requester, signature_valid, now) {
            Err(e) => res == Err::<Vec<Account>, PermissionError>(e),
            Ok(account) => if account.account_type != AccountType::Admin {
                res == Err::<Vec<Account>, PermissionError>(PermissionError::NotAnAdmin(requester))
            } else {
                res matches Ok(found) && found@.map_values(|a: Account| a@) == existing_accounts(
                    world_state.accounts_view(),
                    peer_ids@,
                )
            },
        },
{
    if !signature_valid {
        return Err(PermissionError::InvalidSignature);
    }
    let checker = AccountChecker::new(world_state, requester, now)?;
    checker.verify_is_admin()?;
    let mut found: Vec<Account> = Vec::new();
    let mut i: usize = 0;
    while i < peer_ids.len()
        invariant
            i <= peer_ids@.len(),
            found@.map_values(|a: Account| a@) == existing_accounts(world_state.accounts_view(), peer_ids@.take(i as int)),
        decreases peer_ids@.len() - i,
    {
        proof {
            assert(peer_ids@.take(i + 1).drop_last() =~= peer_ids@.take(i as int));
            assert(peer_ids@.take(i + 1).last() == peer_ids@[i as int]);
        }
        let ghost before = found@;
        match world_state.account(&peer_ids[i]) {
            Some(account) => {
                found.push(account.clone());
                proof {
                    assert(found@.map_values(|a: Account| a@) =~= before.map_values(|a: Account| a@).push(
                        world_state.accounts_view()[peer_ids@[i as int]],
                    ));
                }
            },
            None => {},
        }
        i = i + 1;
    }
    proof {
        assert(peer_ids@.take(i as int) =~= peer_ids@);
    }
    Ok(found)
}

/// Check a request for blocks: the requester may read blocks.
pub fn check_block_request(world_state: &WorldState, requester: PeerId, signature_valid: bool, now: i64) -> (res: Result<
    (),
    PermissionError,
>)
    ensures
        match requester_check(world_state.accounts_view(), requester, signature_valid, now) {
            Err(e) => res == Err::<(), PermissionError>(e),
            Ok(account) => if account.account_type == AccountType::Normal {
                res == Err::<(), PermissionError>(PermissionError::CannotReadBlocks(requester))
            } else {
                res == Ok::<(), PermissionError>(())
            },
        },
{
    if !signature_valid {
        return Err(PermissionError::InvalidSignature);
    }
    let checker = AccountChecker::new(world_state, requester, now)?;
    checker.verify_can_read_blocks()
}

/// Answer a request for the current block number: the requester needs a
/// valid account.
pub fn get_current_block_number(world_state: &WorldState, requester: PeerId, signature_valid: bool, now: i64) -> (res:
    Result<BlockNumber, PermissionError>)
    ensures
        match requester_check(world_state.accounts_view(), requester, signature_valid, now) {
            Err(e) => res == Err::<BlockNumber, PermissionError>(e),
            Ok(_) => res == Ok::<BlockNumber, PermissionError>(world_state.block_number),
        },
{
    if !signature_valid {
        return Err(PermissionError::InvalidSignature);
    }
    let _checker = AccountChecker::new(world_state, requester, now)?;
    Ok(world_state.block_number)
}

/// Check a transaction that a client sends (signed validly when
/// `signature_valid`) before it is batched: its signer must be allowed to
/// carry it out.
pub fn check_execute(
    checker: &TransactionChecker,
    transaction: &SignedTransaction,
    signature_valid: bool,
    now: i64,
) -> (res: Result<(), PermissionError>)
    ensures
        !signature_valid ==> res == Err::<(), PermissionError>(PermissionError::InvalidSignature),
        signature_valid ==> match check_transaction(checker.accounts(), now, transaction@) {
            Ok(_) => res == Ok::<(), PermissionError>(()),
            Err(e) => res == Err::<(), PermissionError>(e),
        },
{
    if !signature_valid {
        return Err(PermissionError::InvalidSignature);
    }
    checker.verify_permissions(transaction, now)
}

} // verus!

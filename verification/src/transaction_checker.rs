//! The permission checks of accounts and transactions.

use vstd::prelude::*;
use crate::account::{
    Account, AccountType, AccountView, ReadingPermission, ReadingPermissionView, SignedTransaction,
    SignedTransactionView, TransactionView, rules_view, transactions_view,
};
use crate::types::PeerId;
use crate::world_state::{WorldState, applied_transaction, applied_transactions, transactions_applicable};

verus! {

/// A permission check failed.
#[derive(Debug, Clone, Copy, PartialEq, Eq, Structural)]
pub enum PermissionError {
    /// A transaction tried to write a value, but the account is not allowed to write data.
    WriteDenied(PeerId),
    /// The account was not found.
    AccountNotFound(PeerId),
    /// The account is not an RPU.
    NotAnRPU(PeerId),
    /// The account is not an admin.
    NotAnAdmin(PeerId),
    /// A signature could not be verified.
    InvalidSignature,
    /// The account's expiry date has passed.
    AccountExpired(PeerId),
    /// The account may not read blocks.
    CannotReadBlocks(PeerId),
    /// The account to be created already exists.
    AccountAlreadyExists(PeerId),
}

/// The account of `peer`, if it exists and has not expired at `now`.
pub open spec fn account_lookup(accounts: Map<PeerId, AccountView>, peer: PeerId, now: i64) -> Result<AccountView, PermissionError> {
    if !accounts.contains_key(peer) {
        Err(PermissionError::AccountNotFound(peer))
    } else if accounts[peer].expire_at.expired_at(now) {
        Err(PermissionError::AccountExpired(peer))
    } else {
        Ok(accounts[peer])
    }
}

/// Whether a reading rule names `peer` and `key`.
pub open spec fn rule_matches(rule: ReadingPermissionView, peer: PeerId, key: Seq<char>) -> bool {
    rule.right().accounts.contains(peer) && rule.right().namespace.contains(key)
}

/// The decision of the first rule that names `peer` and `key`; `false` if none does.
pub open spec fn may_read_key(rules: Seq<ReadingPermissionView>, peer: PeerId, key: Seq<char>) -> bool {
    exists|i: int|
        0 <= i < rules.len() && rule_matches(rules[i], peer, key) && (forall|j: int|
            0 <= j < i ==> !rule_matches(rules[j], peer, key)) && rules[i] is Whitelist
}

/// Whether some allowing rule names `peer`.
pub open spec fn may_read_any_key(rules: Seq<ReadingPermissionView>, peer: PeerId) -> bool {
    exists|i: int| 0 <= i < rules.len() && rules[i] is Whitelist && rules[i].right().accounts.contains(peer)
}

/// Whether `ids` holds `id`.
fn contains_peer(ids: &Vec<PeerId>, id: &PeerId) -> (found: bool)
    ensures
        found == ids@.contains(*id),
{
    let mut i: usize = 0;
    while i < ids.len()
        invariant
            i <= ids@.len(),
            forall|j: int| 0 <= j < i ==> ids@[j] != *id,
        decreases ids@.len() - i,
    {
        if ids[i] == *id {
            return true;
        }
        i = i + 1;
    }
    false
}

/// Whether `keys` holds `key`.
fn contains_key(keys: &Vec<String>, key: &String) -> (found: bool)
    ensures
        found == keys@.map_values(|s: String| s@).contains(key@),
{
    let ghost views = keys@.map_values(|s: String| s@);
    let mut i: usize = 0;
    while i < keys.len()
        invariant
            i <= keys@.len(),
            views == keys@.map_values(|s: String| s@),
            forall|j: int| 0 <= j < i ==> views[j] != key@,
        decreases keys@.len() - i,
    {
        if keys[i] == *key {
            assert(views[i as int] == key@);
            return true;
        }
        i = i + 1;
    }
    false
}

/// Whether `rule` names `peer` and `key`.
fn rule_names(rule: &ReadingPermission, peer: &PeerId, key: &String) -> (matches: bool)
    ensures
        matches == rule_matches(rule@, *peer, key@),
{
    let right = match rule {
        ReadingPermission::Whitelist(r) => r,
        ReadingPermission::Blacklist(r) => r,
    };
    contains_peer(&right.accounts, peer) && contains_key(&right.namespace, key)
}

/// Checks an account for data access permissions.
pub struct AccountChecker<'a> {
    peer_id: PeerId,
    account: &'a Account,
}

impl<'a> AccountChecker<'a> {
    /// The account that is checked.
    pub closed spec fn peer(&self) -> PeerId {
        self.peer_id
    }

    /// The permissions of the checked account.
    pub closed spec fn account_view(&self) -> AccountView {
        self.account@
    }

    /// Look up the account of `peer_id` in `world_state`; it must exist and
    /// not be expired at `now` (milliseconds since the epoch).
    pub fn new(world_state: &'a WorldState, peer_id: PeerId, now: i64) -> (res: Result<Self, PermissionError>)
        ensures
            match account_lookup(world_state.accounts_view(), peer_id, now) {
                Ok(account) => res matches Ok(checker) && checker.peer() == peer_id && checker.account_view()
                    == account,
                Err(e) => res matches Err(err) && err == e,
            },
    {
        match world_state.account(&peer_id) {
            Some(account) => {
                if account.expire_at.is_expired(now) {
                    Err(PermissionError::AccountExpired(peer_id))
                } else {
                    Ok(AccountChecker { peer_id, account })
                }
            },
            None => Err(PermissionError::AccountNotFound(peer_id)),
        }
    }

    /// This checks whether the account is allowed to read any keys of a given `peer_id`.
    pub fn is_allowed_to_read_any_key(&self, peer_id: &PeerId) -> (allowed: bool)
        ensures
            allowed == may_read_any_key(self.account_view().reading_rights, *peer_id),
    {
        let rules = &self.account.reading_rights;
        let ghost views = rules_view(rules@);
        let mut i: usize = 0;
        while i < rules.len()
            invariant
                i <= rules@.len(),
                views == rules_view(rules@),
                views == self.account_view().reading_rights,
                forall|j: int| 0 <= j < i ==> !(views[j] is Whitelist && views[j].right().accounts.contains(*peer_id)),
            decreases rules@.len() - i,
        {
            if let ReadingPermission::Whitelist(right) = &rules[i] {
                if contains_peer(&right.accounts, peer_id) {
                    assert(views[i as int] is Whitelist && views[i as int].right().accounts.contains(*peer_id));
                    return true;
                }
            }
            i = i + 1;
        }
        false
    }

    /// This checks whether the account is allowed to read from a given `peer_id`'s `key`.
    ///
    /// The first rule that names both `peer_id` and `key` decides (first fit);
    /// without such a rule reading is denied.
    pub fn is_allowed_to_read_key(&self, peer_id: &PeerId, key: &String) -> (allowed: bool)
        ensures
            allowed == may_read_key(self.account_view().reading_rights, *peer_id, key@),
    {
        let rules = &self.account.reading_rights;
        let ghost views = rules_view(rules@);
        let mut i: usize = 0;
        while i < rules.len()
            invariant
                i <= rules@.len(),
                views == rules_view(rules@),
                views == self.account_view().reading_rights,
                forall|j: int| 0 <= j < i ==> !rule_matches(views[j], *peer_id, key@),
            decreases rules@.len() - i,
        {
            if rule_names(&rules[i], peer_id, key) {
                let allowed = match &rules[i] {
                    ReadingPermission::Whitelist(_) => true,
                    ReadingPermission::Blacklist(_) => false,
                };
                proof {
                    assert(rule_matches(views[i as int], *peer_id, key@));
                    if allowed {
                        assert(views[i as int] is Whitelist);
                        assert(0 <= i < views.len() && rule_matches(views[i as int], *peer_id, key@) && (forall|j: int|
                            0 <= j < i ==> !rule_matches(views[j], *peer_id, key@)) && views[i as int] is Whitelist);
                    }
                    if !allowed {
                        assert forall|k: int|
                            0 <= k < views.len() && rule_matches(views[k], *peer_id, key@) && (forall|j: int|
                                0 <= j < k ==> !rule_matches(views[j], *peer_id, key@)) implies !(views[k] is Whitelist) by {
                            if k > i {
                                assert(!rule_matches(views[i as int], *peer_id, key@));
                            }
                        }
                    }
                }
                return allowed;
            }
            i = i + 1;
        }
        false
    }

    /// This checks whether the account is allowed to read with admin privileges.
    pub fn verify_is_admin(&self) -> (res: Result<(), PermissionError>)
        ensures
            self.account_view().account_type == AccountType::Admin ==> res == Ok::<(), PermissionError>(()),
            self.account_view().account_type != AccountType::Admin ==> res == Err::<(), PermissionError>(
                PermissionError::NotAnAdmin(self.peer()),
            ),
    {
        if self.account.account_type == AccountType::Admin {
            Ok(())
        } else {
            Err(PermissionError::NotAnAdmin(self.peer_id))
        }
    }

    /// Verify whether the account is a known RPU.
    pub fn verify_is_rpu(&self) -> (res: Result<(), PermissionError>)
        ensures
            self.account_view().account_type == AccountType::RPU ==> res == Ok::<(), PermissionError>(()),
            self.account_view().account_type != AccountType::RPU ==> res == Err::<(), PermissionError>(
                PermissionError::NotAnRPU(self.peer()),
            ),
    {
        match self.account.account_type {
            AccountType::RPU => Ok(()),
            _ => Err(PermissionError::NotAnRPU(self.peer_id)),
        }
    }

    /// Verify whether the account is allowed to read blocks.
    pub fn verify_can_read_blocks(&self) -> (res: Result<(), PermissionError>)
        ensures
            self.account_view().account_type != AccountType::Normal ==> res == Ok::<(), PermissionError>(()),
            self.account_view().account_type == AccountType::Normal ==> res == Err::<(), PermissionError>(
                PermissionError::CannotReadBlocks(self.peer()),
            ),
    {
        match self.account.account_type {
            AccountType::BlockReader | AccountType::RPU | AccountType::Admin => Ok(()),
            AccountType::Normal => Err(PermissionError::CannotReadBlocks(self.peer_id)),
        }
    }
}

/// The outcome of checking `transaction` against `accounts` at `now`: on
/// success, the accounts after applying it.
pub open spec fn check_transaction(accounts: Map<PeerId, AccountView>, now: i64, transaction: SignedTransactionView) -> Result<Map<PeerId, AccountView>, PermissionError> {
    match account_lookup(accounts, transaction.signer, now) {
        Err(e) => Err(e),
        Ok(account) => match transaction.transaction {
            TransactionView::KeyValue { .. } => if account.writing_rights {
                Ok(accounts)
            } else {
                Err(PermissionError::WriteDenied(transaction.signer))
            },
            TransactionView::UpdateAccount { id, .. } => if account.account_type != AccountType::Admin {
                Err(PermissionError::NotAnAdmin(transaction.signer))
            } else if !accounts.contains_key(id) {
                Err(PermissionError::AccountNotFound(id))
            } else {
                Ok(applied_transaction(accounts, transaction.transaction))
            },
            TransactionView::CreateAccount { id, .. } => if account.account_type != AccountType::Admin {
                Err(PermissionError::NotAnAdmin(transaction.signer))
            } else if accounts.contains_key(id) {
                Err(PermissionError::AccountAlreadyExists(id))
            } else {
                Ok(applied_transaction(accounts, transaction.transaction))
            },
            TransactionView::DeleteAccount { id } => if account.account_type != AccountType::Admin {
                Err(PermissionError::NotAnAdmin(transaction.signer))
            } else if !accounts.contains_key(id) {
                Err(PermissionError::AccountNotFound(id))
            } else {
                Ok(applied_transaction(accounts, transaction.transaction))
            },
        },
    }
}

/// Whether `transaction` changes accounts (creates, updates or deletes one).
pub open spec fn is_account_transaction(transaction: TransactionView) -> bool {
    transaction is UpdateAccount || transaction is CreateAccount || transaction is DeleteAccount
}

/// Only an admin changes accounts: an account transaction whose signer has
/// an existing, unexpired account that is not an admin is refused with
/// `NotAnAdmin` naming the signer, and one that passes was signed by an
/// admin whose account exists and has not expired.
pub proof fn law_only_admins_change_accounts(accounts: Map<PeerId, AccountView>, now: i64, transaction: SignedTransactionView)
    requires
        is_account_transaction(transaction.transaction),
    ensures
        accounts.contains_key(transaction.signer) && !accounts[transaction.signer].expire_at.expired_at(now)
            && accounts[transaction.signer].account_type != AccountType::Admin ==> check_transaction(
            accounts,
            now,
            transaction,
        ) == Err::<Map<PeerId, AccountView>, PermissionError>(PermissionError::NotAnAdmin(transaction.signer)),
        check_transaction(accounts, now, transaction) is Ok ==> accounts.contains_key(transaction.signer)
            && !accounts[transaction.signer].expire_at.expired_at(now) && accounts[transaction.signer].account_type
            == AccountType::Admin,
{
}

/// The outcome of checking all `transactions` in order: the first failure,
/// or the accounts after applying all of them.
pub open spec fn check_transactions(accounts: Map<PeerId, AccountView>, now: i64, transactions: Seq<SignedTransactionView>) -> Result<Map<PeerId, AccountView>, PermissionError>
    decreases transactions.len(),
{
    if transactions.len() == 0 {
        Ok(accounts)
    } else {
        match check_transactions(accounts, now, transactions.drop_last()) {
            Err(e) => Err(e),
            Ok(after) => check_transaction(after, now, transactions.last()),
        }
    }
}

/// Helps verifying transactions statefully on a virtual `WorldState`.
pub struct TransactionCheck {
    world_state: WorldState,
}

impl TransactionCheck {
    /// The accounts of the virtual world state.
    pub closed spec fn accounts(&self) -> Map<PeerId, AccountView> {
        self.world_state.accounts_view()
    }

    /// Start checking on a copy of `world_state`.
    pub fn new(world_state: &WorldState) -> (check: Self)
        ensures
            check.accounts() == world_state.accounts_view(),
    {
        TransactionCheck { world_state: world_state.clone() }
    }

    /// Verify whether a given `transaction` may be carried out by its signer
    /// at `now` (milliseconds since the epoch).
    ///
    /// On success the transaction is also applied to the virtual world state.
    pub fn verify_permissions_and_apply(&mut self, transaction: &SignedTransaction, now: i64) -> (res: Result<(), PermissionError>)
        ensures
            match check_transaction(old(self).accounts(), now, transaction@) {
                Ok(after) => res == Ok::<(), PermissionError>(()) && final(self).accounts() == after,
                Err(e) => res == Err::<(), PermissionError>(e) && final(self).accounts() == old(self).accounts(),
            },
            is_account_transaction(transaction@.transaction) && old(self).accounts().contains_key(transaction.signer)
                && !old(self).accounts()[transaction.signer].expire_at.expired_at(now)
                && old(self).accounts()[transaction.signer].account_type != AccountType::Admin ==> res == Err::<
                (),
                PermissionError,
            >(PermissionError::NotAnAdmin(transaction.signer)) && final(self).accounts() == old(self).accounts(),
            is_account_transaction(transaction@.transaction) && res is Ok ==> old(self).accounts()[transaction.signer].account_type
                == AccountType::Admin,
    {
        let signer = transaction.signer;
        let (writing_rights, is_admin) = {
            let checker = AccountChecker::new(&self.world_state, signer, now)?;
            (checker.account.writing_rights, checker.account.account_type == AccountType::Admin)
        };
        match &transaction.transaction {
            crate::account::Transaction::KeyValue { .. } => {
                if writing_rights {
                    Ok(())
                } else {
                    Err(PermissionError::WriteDenied(signer))
                }
            },
            crate::account::Transaction::UpdateAccount { id, .. } => {
                if !is_admin {
                    return Err(PermissionError::NotAnAdmin(signer));
                }
                if !self.world_state.has_account(id) {
                    return Err(PermissionError::AccountNotFound(*id));
                }
                self.world_state.apply_transaction(transaction.clone());
                Ok(())
            },
            crate::account::Transaction::CreateAccount { id, .. } => {
                if !is_admin {
                    return Err(PermissionError::NotAnAdmin(signer));
                }
                if self.world_state.has_account(id) {
                    return Err(PermissionError::AccountAlreadyExists(*id));
                }
                self.world_state.apply_transaction(transaction.clone());
                Ok(())
            },
            crate::account::Transaction::DeleteAccount { id } => {
                if !is_admin {
                    return Err(PermissionError::NotAnAdmin(signer));
                }
                if !self.world_state.has_account(id) {
                    return Err(PermissionError::AccountNotFound(*id));
                }
                self.world_state.apply_transaction(transaction.clone());
                Ok(())
            },
        }
    }
}

/// A `TransactionChecker` is used to check whether accounts are allowed to
/// carry out transactions, on a snapshot of the world state.
pub struct TransactionChecker {
    world_state: WorldState,
}

impl TransactionChecker {
    /// The accounts of the snapshot.
    pub closed spec fn accounts(&self) -> Map<PeerId, AccountView> {
        self.world_state.accounts_view()
    }

    /// The snapshot of the world state.
    pub closed spec fn world_state_spec(&self) -> WorldState {
        self.world_state
    }

    /// Create a new instance of `TransactionChecker` on `world_state`.
    pub fn new(world_state: WorldState) -> (checker: Self)
        ensures
            checker.world_state_spec() == world_state,
            checker.accounts() == world_state.accounts_view(),
    {
        TransactionChecker { world_state }
    }

    /// Returns a `TransactionCheck` on a virtual copy of the world state.
    pub fn check(&self) -> (check: TransactionCheck)
        ensures
            check.accounts() == self.accounts(),
    {
        TransactionCheck::new(&self.world_state)
    }

    /// Verify whether a given `transaction` is valid at `now`.
    pub fn verify_permissions(&self, transaction: &SignedTransaction, now: i64) -> (res: Result<(), PermissionError>)
        ensures
            match check_transaction(self.accounts(), now, transaction@) {
                Ok(_) => res == Ok::<(), PermissionError>(()),
                Err(e) => res == Err::<(), PermissionError>(e),
            },
    {
        let mut check = self.check();
        check.verify_permissions_and_apply(transaction, now)
    }

    /// Verify a batch of transactions, one after the other on a virtual copy
    /// of the world state. `signatures_valid` is the outcome of verifying the
    /// signatures of the batch.
    pub fn verify(&self, data: &Vec<SignedTransaction>, signatures_valid: bool, now: i64) -> (res: Result<(), PermissionError>)
        ensures
            !signatures_valid ==> res == Err::<(), PermissionError>(PermissionError::InvalidSignature),
            signatures_valid ==> match check_transactions(self.accounts(), now, transactions_view(data@)) {
                Ok(_) => res == Ok::<(), PermissionError>(()),
                Err(e) => res == Err::<(), PermissionError>(e),
            },
    {
        if !signatures_valid {
            return Err(PermissionError::InvalidSignature);
        }
        let ghost views = transactions_view(data@);
        let mut check = self.check();
        let mut i: usize = 0;
        while i < data.len()
            invariant
                i <= data@.len(),
                signatures_valid,
                views == transactions_view(data@),
                check_transactions(self.accounts(), now, views.take(i as int)) == Ok::<
                    Map<PeerId, AccountView>,
                    PermissionError,
                >(check.accounts()),
            decreases data@.len() - i,
        {
            proof {
                assert(views.take(i + 1).drop_last() =~= views.take(i as int));
                assert(views.take(i + 1).last() == data@[i as int]@);
            }
            match check.verify_permissions_and_apply(&data[i], now) {
                Ok(()) => {},
                Err(e) => {
                    proof {
                        lemma_check_transactions_error(self.accounts(), now, views, i as int + 1);
                    }
                    return Err(e);
                },
            }
            i = i + 1;
        }
        proof {
            assert(views.take(i as int) =~= views);
        }
        Ok(())
    }

    /// Get an `AccountChecker` for the account `peer_id` at `now`.
    pub fn account_checker(&self, peer_id: PeerId, now: i64) -> (res: Result<AccountChecker<'_>, PermissionError>)
        ensures
            match account_lookup(self.accounts(), peer_id, now) {
                Ok(account) => res matches Ok(checker) && checker.peer() == peer_id && checker.account_view()
                    == account,
                Err(e) => res matches Err(err) && err == e,
            },
    {
        AccountChecker::new(&self.world_state, peer_id, now)
    }
}

/// Once checking a prefix fails, checking the whole sequence fails the same way.
pub proof fn lemma_check_transactions_error(accounts: Map<PeerId, AccountView>, now: i64, transactions: Seq<SignedTransactionView>, n: int)
    requires
        0 <= n <= transactions.len(),
        check_transactions(accounts, now, transactions.take(n)) is Err,
    ensures
        check_transactions(accounts, now, transactions) == check_transactions(accounts, now, transactions.take(n)),
    decreases transactions.len() - n,
{
    if n < transactions.len() {
        assert(transactions.take(n + 1).drop_last() =~= transactions.take(n));
        lemma_check_transactions_error(accounts, now, transactions, n + 1);
    } else {
        assert(transactions.take(n) =~= transactions);
    }
}

/// Transactions that pass their checks in order can be applied in order,
/// and applying them gives the accounts that the checks computed.
pub proof fn lemma_checked_transactions_applicable(
    accounts: Map<PeerId, AccountView>,
    now: i64,
    transactions: Seq<SignedTransactionView>,
)
    requires
        check_transactions(accounts, now, transactions) is Ok,
    ensures
        transactions_applicable(accounts, transactions),
        check_transactions(accounts, now, transactions) == Ok::<Map<PeerId, AccountView>, PermissionError>(
            applied_transactions(accounts, transactions),
        ),
    decreases transactions.len(),
{
    if transactions.len() > 0 {
        lemma_checked_transactions_applicable(accounts, now, transactions.drop_last());
    }
}

} // verus!

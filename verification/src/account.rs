//! Accounts, their permissions and the transactions of the chain.

use vstd::prelude::*;
use crate::types::{PeerId, Signature};

verus! {

/// The role of an account.
#[derive(Debug, Clone, Copy, PartialEq, Eq, Structural)]
pub enum AccountType {
    /// A client that may read and (with writing rights) write values.
    Normal,
    /// A client that may also read whole blocks.
    BlockReader,
    /// A redundant processing unit that takes part in the consensus.
    RPU,
    /// An administrator that may create, update and delete accounts.
    Admin,
}

/// When an account expires.
#[derive(Debug, Clone, Copy, PartialEq, Eq, Structural)]
pub enum Expiry {
    /// The account never expires.
    Never,
    /// The account expires at the given time (milliseconds since the epoch).
    AtDate(i64),
}

impl Expiry {
    /// Whether the expiry date lies at or before `now` (milliseconds since the epoch).
    pub open spec fn expired_at(self, now: i64) -> bool {
        match self {
            Expiry::Never => false,
            Expiry::AtDate(date) => date <= now,
        }
    }

    /// Whether the expiry date lies at or before `now` (milliseconds since the epoch).
    pub fn is_expired(&self, now: i64) -> (expired: bool)
        ensures
            expired == self.expired_at(now),
    {
        match self {
            Expiry::Never => false,
            Expiry::AtDate(date) => *date <= now,
        }
    }
}

/// Copy a list of identities.
pub fn copy_peer_ids(ids: &Vec<PeerId>) -> (copy: Vec<PeerId>)
    ensures
        copy@ == ids@,
{
    let mut copy: Vec<PeerId> = Vec::new();
    let mut i: usize = 0;
    while i < ids.len()
        invariant
            i <= ids@.len(),
            copy@ == ids@.take(i as int),
        decreases ids@.len() - i,
    {
        copy.push(ids[i]);
        i = i + 1;
        proof {
            assert(copy@ =~= ids@.take(i as int));
        }
    }
    proof {
        assert(ids@.take(i as int) =~= ids@);
    }
    copy
}

/// Copy a list of strings.
pub fn copy_strings(strings: &Vec<String>) -> (copy: Vec<String>)
    ensures
        copy@ == strings@,
{
    let mut copy: Vec<String> = Vec::new();
    let mut i: usize = 0;
    while i < strings.len()
        invariant
            i <= strings@.len(),
            copy@ == strings@.take(i as int),
        decreases strings@.len() - i,
    {
        copy.push(strings[i].clone());
        i = i + 1;
        proof {
            assert(copy@ =~= strings@.take(i as int));
        }
    }
    proof {
        assert(strings@.take(i as int) =~= strings@);
    }
    copy
}

/// Copy a list of bytes.
pub fn copy_bytes(bytes: &Vec<u8>) -> (copy: Vec<u8>)
    ensures
        copy@ == bytes@,
{
    let mut copy: Vec<u8> = Vec::new();
    let mut i: usize = 0;
    while i < bytes.len()
        invariant
            i <= bytes@.len(),
            copy@ == bytes@.take(i as int),
        decreases bytes@.len() - i,
    {
        copy.push(bytes[i]);
        i = i + 1;
        proof {
            assert(copy@ =~= bytes@.take(i as int));
        }
    }
    proof {
        assert(bytes@.take(i as int) =~= bytes@);
    }
    copy
}

/// A set of accounts and the keys (namespaces) of their values.
#[derive(Debug)]
pub struct ReadingRight {
    /// The accounts whose values are meant.
    pub accounts: Vec<PeerId>,
    /// The keys of the values that are meant.
    pub namespace: Vec<String>,
}

/// What a `ReadingRight` holds.
pub struct ReadingRightView {
    /// The accounts whose values are meant.
    pub accounts: Seq<PeerId>,
    /// The keys of the values that are meant.
    pub namespace: Seq<Seq<char>>,
}

impl View for ReadingRight {
    type V = ReadingRightView;

    open spec fn view(&self) -> ReadingRightView {
        ReadingRightView { accounts: self.accounts@, namespace: self.namespace@.map_values(|s: String| s@) }
    }
}

impl Clone for ReadingRight {
    fn clone(&self) -> (copy: Self)
        ensures
            copy@ == self@,
    {
        ReadingRight { accounts: copy_peer_ids(&self.accounts), namespace: copy_strings(&self.namespace) }
    }
}

/// A rule that allows or denies reading values.
#[derive(Debug)]
pub enum ReadingPermission {
    /// Reading the values is allowed.
    Whitelist(ReadingRight),
    /// Reading the values is denied.
    Blacklist(ReadingRight),
}

/// What a `ReadingPermission` holds.
pub enum ReadingPermissionView {
    /// Reading the values is allowed.
    Whitelist(ReadingRightView),
    /// Reading the values is denied.
    Blacklist(ReadingRightView),
}

impl ReadingPermissionView {
    /// The accounts and keys that the rule is about.
    pub open spec fn right(self) -> ReadingRightView {
        match self {
            ReadingPermissionView::Whitelist(r) => r,
            ReadingPermissionView::Blacklist(r) => r,
        }
    }
}

impl View for ReadingPermission {
    type V = ReadingPermissionView;

    open spec fn view(&self) -> ReadingPermissionView {
        match self {
            ReadingPermission::Whitelist(r) => ReadingPermissionView::Whitelist(r@),
            ReadingPermission::Blacklist(r) => ReadingPermissionView::Blacklist(r@),
        }
    }
}

impl Clone for ReadingPermission {
    fn clone(&self) -> (copy: Self)
        ensures
            copy@ == self@,
    {
        match self {
            ReadingPermission::Whitelist(r) => ReadingPermission::Whitelist(r.clone()),
            ReadingPermission::Blacklist(r) => ReadingPermission::Blacklist(r.clone()),
        }
    }
}

/// The views of a list of reading rules.
pub open spec fn rules_view(rules: Seq<ReadingPermission>) -> Seq<ReadingPermissionView> {
    rules.map_values(|r: ReadingPermission| r@)
}

/// Copy a list of reading rules.
pub fn copy_rules(rules: &Vec<ReadingPermission>) -> (copy: Vec<ReadingPermission>)
    ensures
        rules_view(copy@) == rules_view(rules@),
{
    let mut copy: Vec<ReadingPermission> = Vec::new();
    let mut i: usize = 0;
    while i < rules.len()
        invariant
            i <= rules@.len(),
            copy@.len() == i,
            forall|k: int| 0 <= k < i ==> #[trigger] copy@[k]@ == rules@[k]@,
        decreases rules@.len() - i,
    {
        let c = rules[i].clone();
        copy.push(c);
        i = i + 1;
    }
    proof {
        assert(rules_view(copy@) =~= rules_view(rules@));
    }
    copy
}

/// The permissions of an account.
#[derive(Debug)]
pub struct Account {
    /// The role of the account.
    pub account_type: AccountType,
    /// When the account expires.
    pub expire_at: Expiry,
    /// Whether the account may write values.
    pub writing_rights: bool,
    /// The rules for reading values of other accounts, tried in order.
    pub reading_rights: Vec<ReadingPermission>,
}

/// What an `Account` holds.
pub struct AccountView {
    /// The role of the account.
    pub account_type: AccountType,
    /// When the account expires.
    pub expire_at: Expiry,
    /// Whether the account may write values.
    pub writing_rights: bool,
    /// The rules for reading values of other accounts, tried in order.
    pub reading_rights: Seq<ReadingPermissionView>,
}

impl View for Account {
    type V = AccountView;

    open spec fn view(&self) -> AccountView {
        AccountView {
            account_type: self.account_type,
            expire_at: self.expire_at,
            writing_rights: self.writing_rights,
            reading_rights: rules_view(self.reading_rights@),
        }
    }
}

impl Clone for Account {
    fn clone(&self) -> (copy: Self)
        ensures
            copy@ == self@,
    {
        Account {
            account_type: self.account_type,
            expire_at: self.expire_at,
            writing_rights: self.writing_rights,
            reading_rights: copy_rules(&self.reading_rights),
        }
    }
}

/// Changes to the permissions of an account; `None` leaves a field unchanged.
#[derive(Debug)]
pub struct Permissions {
    /// The new role.
    pub account_type: Option<AccountType>,
    /// The new expiry.
    pub expire_at: Option<Expiry>,
    /// The new writing rights.
    pub has_writing_rights: Option<bool>,
    /// The new reading rules.
    pub reading_rights: Option<Vec<ReadingPermission>>,
}

/// What `Permissions` hold.
pub struct PermissionsView {
    /// The new role.
    pub account_type: Option<AccountType>,
    /// The new expiry.
    pub expire_at: Option<Expiry>,
    /// The new writing rights.
    pub has_writing_rights: Option<bool>,
    /// The new reading rules.
    pub reading_rights: Option<Seq<ReadingPermissionView>>,
}

impl View for Permissions {
    type V = PermissionsView;

    open spec fn view(&self) -> PermissionsView {
        PermissionsView {
            account_type: self.account_type,
            expire_at: self.expire_at,
            has_writing_rights: self.has_writing_rights,
            reading_rights: match self.reading_rights {
                Some(r) => Some(rules_view(r@)),
                None => None,
            },
        }
    }
}

impl Clone for Permissions {
    fn clone(&self) -> (copy: Self)
        ensures
            copy@ == self@,
    {
        Permissions {
            account_type: self.account_type,
            expire_at: self.expire_at,
            has_writing_rights: self.has_writing_rights,
            reading_rights: match &self.reading_rights {
                Some(r) => Some(copy_rules(r)),
                None => None,
            },
        }
    }
}

/// A transaction that a client sends to the chain.
#[derive(Debug)]
pub enum Transaction {
    /// Set the value of `key` of the sending account.
    KeyValue {
        /// The key of the value.
        key: String,
        /// The value.
        value: Vec<u8>,
        /// When the client created the transaction (nanoseconds since the epoch).
        timestamp: i64,
    },
    /// Change the permissions of the account `id`.
    UpdateAccount {
        /// The account to change.
        id: PeerId,
        /// The changes.
        permissions: Permissions,
    },
    /// Create the account `id`.
    CreateAccount {
        /// The account to create.
        id: PeerId,
        /// Its permissions.
        account: Account,
    },
    /// Delete the account `id`.
    DeleteAccount {
        /// The account to delete.
        id: PeerId,
    },
}

/// What a `Transaction` holds.
pub enum TransactionView {
    /// Set the value of `key` of the sending account.
    KeyValue { key: Seq<char>, value: Seq<u8>, timestamp: i64 },
    /// Change the permissions of the account `id`.
    UpdateAccount { id: PeerId, permissions: PermissionsView },
    /// Create the account `id`.
    CreateAccount { id: PeerId, account: AccountView },
    /// Delete the account `id`.
    DeleteAccount { id: PeerId },
}

impl View for Transaction {
    type V = TransactionView;

    open spec fn view(&self) -> TransactionView {
        match self {
            Transaction::KeyValue { key, value, timestamp } => TransactionView::KeyValue {
                key: key@,
                value: value@,
                timestamp: *timestamp,
            },
            Transaction::UpdateAccount { id, permissions } => TransactionView::UpdateAccount {
                id: *id,
                permissions: permissions@,
            },
            Transaction::CreateAccount { id, account } => TransactionView::CreateAccount {
                id: *id,
                account: account@,
            },
            Transaction::DeleteAccount { id } => TransactionView::DeleteAccount { id: *id },
        }
    }
}

impl Clone for Transaction {
    fn clone(&self) -> (copy: Self)
        ensures
            copy@ == self@,
    {
        match self {
            Transaction::KeyValue { key, value, timestamp } => Transaction::KeyValue {
                key: key.clone(),
                value: copy_bytes(value),
                timestamp: *timestamp,
            },
            Transaction::UpdateAccount { id, permissions } => Transaction::UpdateAccount {
                id: *id,
                permissions: permissions.clone(),
            },
            Transaction::CreateAccount { id, account } => Transaction::CreateAccount {
                id: *id,
                account: account.clone(),
            },
            Transaction::DeleteAccount { id } => Transaction::DeleteAccount { id: *id },
        }
    }
}

/// A transaction with the identity of its signer and the signature.
#[derive(Debug)]
pub struct SignedTransaction {
    /// The account that signed the transaction.
    pub signer: PeerId,
    /// The signature of the signer over the transaction.
    pub signature: Signature,
    /// The transaction.
    pub transaction: Transaction,
}

/// What a `SignedTransaction` holds.
pub struct SignedTransactionView {
    /// The account that signed the transaction.
    pub signer: PeerId,
    /// The signature of the signer over the transaction.
    pub signature: Signature,
    /// The transaction.
    pub transaction: TransactionView,
}

impl View for SignedTransaction {
    type V = SignedTransactionView;

    open spec fn view(&self) -> SignedTransactionView {
        SignedTransactionView { signer: self.signer, signature: self.signature, transaction: self.transaction@ }
    }
}

impl Clone for SignedTransaction {
    fn clone(&self) -> (copy: Self)
        ensures
            copy@ == self@,
    {
        SignedTransaction { signer: self.signer, signature: self.signature, transaction: self.transaction.clone() }
    }
}

/// The views of a list of signed transactions.
pub open spec fn transactions_view(transactions: Seq<SignedTransaction>) -> Seq<SignedTransactionView> {
    transactions.map_values(|t: SignedTransaction| t@)
}

/// An account after the changes of `permissions`.
pub open spec fn updated_account(account: AccountView, permissions: PermissionsView) -> AccountView {
    AccountView {
        account_type: match permissions.account_type {
            Some(t) => t,
            None => account.account_type,
        },
        expire_at: match permissions.expire_at {
            Some(e) => e,
            None => account.expire_at,
        },
        writing_rights: match permissions.has_writing_rights {
            Some(w) => w,
            None => account.writing_rights,
        },
        reading_rights: match permissions.reading_rights {
            Some(r) => r,
            None => account.reading_rights,
        },
    }
}

/// An update sets each field that the permissions give (`Some`) to the
/// given value and keeps each other field of the account.
pub proof fn law_update_sets_given_fields(account: AccountView, permissions: PermissionsView)
    ensures
        forall|t: AccountType| permissions.account_type == Some(t) ==> updated_account(account, permissions).account_type == t,
        permissions.account_type.is_none() ==> updated_account(account, permissions).account_type == account.account_type,
        forall|e: Expiry| permissions.expire_at == Some(e) ==> updated_account(account, permissions).expire_at == e,
        permissions.expire_at.is_none() ==> updated_account(account, permissions).expire_at == account.expire_at,
        forall|w: bool| permissions.has_writing_rights == Some(w) ==> updated_account(account, permissions).writing_rights == w,
        permissions.has_writing_rights.is_none() ==> updated_account(account, permissions).writing_rights
            == account.writing_rights,
        forall|r: Seq<ReadingPermissionView>| permissions.reading_rights == Some(r) ==> updated_account(
            account,
            permissions,
        ).reading_rights == r,
        permissions.reading_rights.is_none() ==> updated_account(account, permissions).reading_rights
            == account.reading_rights,
{
}

/// Apply the changes of `permissions` to `account`.
pub fn update_account(account: Account, permissions: Permissions) -> (updated: Account)
    ensures
        updated@ == updated_account(account@, permissions@),
        updated@.account_type == match permissions@.account_type {
            Some(t) => t,
            None => account@.account_type,
        },
        updated@.expire_at == match permissions@.expire_at {
            Some(e) => e,
            None => account@.expire_at,
        },
        updated@.writing_rights == match permissions@.has_writing_rights {
            Some(w) => w,
            None => account@.writing_rights,
        },
        updated@.reading_rights == match permissions@.reading_rights {
            Some(r) => r,
            None => account@.reading_rights,
        },
{
    let mut account = account;
    if let Some(account_type) = permissions.account_type {
        account.account_type = account_type;
    }
    if let Some(expire_at) = permissions.expire_at {
        account.expire_at = expire_at;
    }
    if let Some(writing_rights) = permissions.has_writing_rights {
        account.writing_rights = writing_rights;
    }
    if let Some(reading_rights) = permissions.reading_rights {
        account.reading_rights = reading_rights;
    }
    account
}

/// The contents of a list of strings.
pub open spec fn strings_view(strings: Seq<String>) -> Seq<Seq<char>> {
    strings.map_values(|s: String| s@)
}

/// Whether two lists of identities are equal.
pub fn same_peer_ids(a: &Vec<PeerId>, b: &Vec<PeerId>) -> (same: bool)
    ensures
        same == (a@ == b@),
{
    if a.len() != b.len() {
        return false;
    }
    let mut i: usize = 0;
    while i < a.len()
        invariant
            a@.len() == b@.len(),
            i <= a@.len(),
            forall|k: int| 0 <= k < i ==> a@[k] == b@[k],
        decreases a@.len() - i,
    {
        if a[i] != b[i] {
            return false;
        }
        i = i + 1;
    }
    proof {
        assert(a@ =~= b@);
    }
    true
}

/// Whether two lists of strings hold the same strings.
pub fn same_strings(a: &Vec<String>, b: &Vec<String>) -> (same: bool)
    ensures
        same == (strings_view(a@) == strings_view(b@)),
{
    if a.len() != b.len() {
        return false;
    }
    let mut i: usize = 0;
    while i < a.len()
        invariant
            a@.len() == b@.len(),
            i <= a@.len(),
            forall|k: int| 0 <= k < i ==> a@[k]@ == b@[k]@,
        decreases a@.len() - i,
    {
        if a[i] != b[i] {
            proof {
                assert(strings_view(a@)[i as int] != strings_view(b@)[i as int]);
            }
            return false;
        }
        i = i + 1;
    }
    proof {
        assert(strings_view(a@) =~= strings_view(b@));
    }
    true
}

/// Whether two lists of bytes are equal.
pub fn same_bytes(a: &Vec<u8>, b: &Vec<u8>) -> (same: bool)
    ensures
        same == (a@ == b@),
{
    if a.len() != b.len() {
        return false;
    }
    let mut i: usize = 0;
    while i < a.len()
        invariant
            a@.len() == b@.len(),
            i <= a@.len(),
            forall|k: int| 0 <= k < i ==> a@[k] == b@[k],
        decreases a@.len() - i,
    {
        if a[i] != b[i] {
            return false;
        }
        i = i + 1;
    }
    proof {
        assert(a@ =~= b@);
    }
    true
}

impl ReadingRight {
    /// Whether `other` holds the same accounts and keys.
    pub fn same_as(&self, other: &Self) -> (same: bool)
        ensures
            same == (self@ == other@),
    {
        same_peer_ids(&self.accounts, &other.accounts) && same_strings(&self.namespace, &other.namespace)
    }
}

impl ReadingPermission {
    /// Whether `other` is the same rule.
    pub fn same_as(&self, other: &Self) -> (same: bool)
        ensures
            same == (self@ == other@),
    {
        match (self, other) {
            (ReadingPermission::Whitelist(a), ReadingPermission::Whitelist(b)) => a.same_as(b),
            (ReadingPermission::Blacklist(a), ReadingPermission::Blacklist(b)) => a.same_as(b),
            _ => false,
        }
    }
}

/// Whether two lists of reading rules are the same.
pub fn same_rules(a: &Vec<ReadingPermission>, b: &Vec<ReadingPermission>) -> (same: bool)
    ensures
        same == (rules_view(a@) == rules_view(b@)),
{
    if a.len() != b.len() {
        return false;
    }
    let mut i: usize = 0;
    while i < a.len()
        invariant
            a@.len() == b@.len(),
            i <= a@.len(),
            forall|k: int| 0 <= k < i ==> a@[k]@ == b@[k]@,
        decreases a@.len() - i,
    {
        if !a[i].same_as(&b[i]) {
            proof {
                assert(rules_view(a@)[i as int] != rules_view(b@)[i as int]);
            }
            return false;
        }
        i = i + 1;
    }
    proof {
        assert(rules_view(a@) =~= rules_view(b@));
    }
    true
}

impl Account {
    /// Whether `other` has the same permissions.
    pub fn same_as(&self, other: &Self) -> (same: bool)
        ensures
            same == (self@ == other@),
    {
        self.account_type == other.account_type && self.expire_at == other.expire_at && self.writing_rights
            == other.writing_rights && same_rules(&self.reading_rights, &other.reading_rights)
    }
}

impl Permissions {
    /// Whether `other` makes the same changes.
    pub fn same_as(&self, other: &Self) -> (same: bool)
        ensures
            same == (self@ == other@),
    {
        let same_type = match (self.account_type, other.account_type) {
            (Some(a), Some(b)) => a == b,
            (None, None) => true,
            _ => false,
        };
        let same_expiry = match (self.expire_at, other.expire_at) {
            (Some(a), Some(b)) => a == b,
            (None, None) => true,
            _ => false,
        };
        let same_writing = match (self.has_writing_rights, other.has_writing_rights) {
            (Some(a), Some(b)) => a == b,
            (None, None) => true,
            _ => false,
        };
        let same_reading = match (&self.reading_rights, &other.reading_rights) {
            (Some(a), Some(b)) => same_rules(a, b),
            (None, None) => true,
            _ => false,
        };
        same_type && same_expiry && same_writing && same_reading
    }
}

impl Transaction {
    /// Whether `other` is the same transaction.
    pub fn same_as(&self, other: &Self) -> (same: bool)
        ensures
            same == (self@ == other@),
    {
        match (self, other) {
            (
                Transaction::KeyValue { key: k1, value: v1, timestamp: t1 },
                Transaction::KeyValue { key: k2, value: v2, timestamp: t2 },
            ) => *k1 == *k2 && same_bytes(v1, v2) && *t1 == *t2,
            (
                Transaction::UpdateAccount { id: i1, permissions: p1 },
                Transaction::UpdateAccount { id: i2, permissions: p2 },
            ) => *i1 == *i2 && p1.same_as(p2),
            (
                Transaction::CreateAccount { id: i1, account: a1 },
                Transaction::CreateAccount { id: i2, account: a2 },
            ) => *i1 == *i2 && a1.same_as(a2),
            (Transaction::DeleteAccount { id: i1 }, Transaction::DeleteAccount { id: i2 }) => *i1 == *i2,
            _ => false,
        }
    }
}

impl SignedTransaction {
    /// Whether `other` is the same signed transaction.
    pub fn same_as(&self, other: &Self) -> (same: bool)
        ensures
            same == (self@ == other@),
    {
        self.signer == other.signer && self.signature == other.signature && self.transaction.same_as(
            &other.transaction,
        )
    }
}

impl PartialEq for SignedTransaction {
    fn eq(&self, other: &Self) -> (same: bool) {
        self.same_as(other)
    }
}

impl vstd::std_specs::cmp::PartialEqSpecImpl for SignedTransaction {
    open spec fn obeys_eq_spec() -> bool {
        true
    }

    open spec fn eq_spec(&self, other: &Self) -> bool {
        self@ == other@
    }
}

} // verus!

//! The world state: accounts, peers and the position of the chain.

use vstd::prelude::*;
use crate::account::{Account, AccountView, SignedTransaction, SignedTransactionView, Transaction, TransactionView, transactions_view, update_account, updated_account};
use crate::block::Block;
use crate::types::{BlockHash, BlockNumber, PeerId};

verus! {

#[verifier::external_type_specification]
#[verifier::external_body]
#[verifier::reject_recursive_types(K)]
#[verifier::reject_recursive_types(V)]
#[verifier::reject_recursive_types(S)]
pub struct ExImHashMap<K, V, S>(im::HashMap<K, V, S>);

#[verifier::external_type_specification]
#[verifier::external_body]
#[verifier::reject_recursive_types(A)]
pub struct ExImVector<A>(im::Vector<A>);

/// A peer of the consensus: its identity and the address of its peer inbox.
pub type Peer = (PeerId, String);

/// A persistent map of accounts, keyed by their identity.
pub type AccountMap = im::HashMap<PeerId, Account>;

/// A persistent vector of peers.
pub type PeerVector = im::Vector<Peer>;

/// What a persistent map of accounts holds: the permissions of each account.
pub uninterp spec fn account_entries(accounts: AccountMap) -> Map<PeerId, AccountView>;

/// What a persistent vector of peers holds, in order.
pub uninterp spec fn peer_entries(peers: PeerVector) -> Seq<Peer>;

/// The empty map of accounts.
pub open spec fn no_accounts() -> Map<PeerId, AccountView> {
    Map::empty()
}

/// Calls `im::HashMap::new`: the map is empty.
#[verifier::external_body]
fn accounts_new() -> (accounts: AccountMap)
    ensures
        account_entries(accounts) == no_accounts(),
{
    im::HashMap::new()
}

/// Calls `im::HashMap::get`: the account stored under `id`, if any.
#[verifier::external_body]
fn accounts_get<'a>(accounts: &'a AccountMap, id: &PeerId) -> (account: Option<&'a Account>)
    ensures
        account_entries(*accounts).contains_key(*id) ==> account is Some && account.unwrap()@ == account_entries(
            *accounts,
        )[*id],
        !account_entries(*accounts).contains_key(*id) ==> account.is_none(),
{
    accounts.get(id)
}

/// Calls `im::HashMap::insert`: `id` maps to `account` afterwards; the
/// account it mapped to before, if any, is handed back.
#[verifier::external_body]
fn accounts_insert(accounts: &mut AccountMap, id: PeerId, account: Account) -> (previous: Option<Account>)
    ensures
        account_entries(*final(accounts)) == account_entries(*old(accounts)).insert(id, account@),
        account_entries(*old(accounts)).contains_key(id) ==> previous is Some && previous.unwrap()@ == account_entries(
            *old(accounts),
        )[id],
        !account_entries(*old(accounts)).contains_key(id) ==> previous.is_none(),
{
    accounts.insert(id, account)
}

/// Calls `im::HashMap::remove`: `id` maps to nothing afterwards; the
/// account it mapped to before, if any, is handed back.
#[verifier::external_body]
fn accounts_remove(accounts: &mut AccountMap, id: &PeerId) -> (previous: Option<Account>)
    ensures
        account_entries(*final(accounts)) == account_entries(*old(accounts)).remove(*id),
        account_entries(*old(accounts)).contains_key(*id) ==> previous is Some && previous.unwrap()@ == account_entries(
            *old(accounts),
        )[*id],
        !account_entries(*old(accounts)).contains_key(*id) ==> previous.is_none(),
{
    accounts.remove(id)
}

/// Calls `Clone::clone` of `im::HashMap`, which shares the nodes of the
/// map: the clone holds the same entries.
#[verifier::external_body]
fn accounts_clone(accounts: &AccountMap) -> (copy: AccountMap)
    ensures
        account_entries(copy) == account_entries(*accounts),
{
    accounts.clone()
}

/// Calls `im::Vector::new`: the vector is empty.
#[verifier::external_body]
fn peers_new() -> (peers: PeerVector)
    ensures
        peer_entries(peers) == Seq::<Peer>::empty(),
{
    im::Vector::new()
}

/// Calls `im::Vector::push_back`: `peer` is appended.
#[verifier::external_body]
fn peers_push_back(peers: &mut PeerVector, peer: Peer)
    ensures
        peer_entries(*final(peers)) == peer_entries(*old(peers)).push(peer),
{
    peers.push_back(peer)
}

/// Calls `im::Vector::len`: the number of peers.
#[verifier::external_body]
fn peers_len(peers: &PeerVector) -> (len: usize)
    ensures
        len == peer_entries(*peers).len(),
{
    peers.len()
}

/// Calls `im::Vector::get`: the peer at position `index`.
#[verifier::external_body]
fn peers_get<'a>(peers: &'a PeerVector, index: usize) -> (peer: Option<&'a Peer>)
    ensures
        index < peer_entries(*peers).len() ==> peer == Some(&peer_entries(*peers)[index as int]),
        index >= peer_entries(*peers).len() ==> peer.is_none(),
{
    peers.get(index)
}

/// Calls `Clone::clone` of `im::Vector`, which shares the nodes of the
/// vector: the clone holds the same peers.
#[verifier::external_body]
fn peers_clone(peers: &PeerVector) -> (copy: PeerVector)
    ensures
        peer_entries(copy) == peer_entries(*peers),
{
    peers.clone()
}

/// The accounts after applying `transaction` (without any permission check).
pub open spec fn applied_transaction(accounts: Map<PeerId, AccountView>, transaction: TransactionView) -> Map<PeerId, AccountView> {
    match transaction {
        TransactionView::KeyValue { .. } => accounts,
        TransactionView::UpdateAccount { id, permissions } => accounts.insert(
            id,
            updated_account(accounts[id], permissions),
        ),
        TransactionView::CreateAccount { id, account } => accounts.insert(id, account),
        TransactionView::DeleteAccount { id } => accounts.remove(id),
    }
}

/// Applying an `UpdateAccount` of an existing account sets each field that
/// its permissions give and keeps the others; every other account stays.
pub proof fn law_update_account_applies_permissions(
    accounts: Map<PeerId, AccountView>,
    id: PeerId,
    permissions: crate::account::PermissionsView,
    other: PeerId,
)
    requires
        accounts.contains_key(id),
    ensures
        ({
            let after = applied_transaction(accounts, TransactionView::UpdateAccount { id, permissions });
            &&& after.contains_key(id)
            &&& after[id].account_type == match permissions.account_type {
                Some(t) => t,
                None => accounts[id].account_type,
            }
            &&& after[id].expire_at == match permissions.expire_at {
                Some(e) => e,
                None => accounts[id].expire_at,
            }
            &&& after[id].writing_rights == match permissions.has_writing_rights {
                Some(w) => w,
                None => accounts[id].writing_rights,
            }
            &&& after[id].reading_rights == match permissions.reading_rights {
                Some(r) => r,
                None => accounts[id].reading_rights,
            }
            &&& other != id ==> (after.contains_key(other) == accounts.contains_key(other) && after[other]
                == accounts[other])
        }),
{
    crate::account::law_update_sets_given_fields(accounts[id], permissions);
}

/// Whether `transaction` can be applied to `accounts`: an update needs the account.
pub open spec fn transaction_applicable(accounts: Map<PeerId, AccountView>, transaction: TransactionView) -> bool {
    match transaction {
        TransactionView::UpdateAccount { id, .. } => accounts.contains_key(id),
        _ => true,
    }
}

/// The accounts after applying all `transactions` in order.
pub open spec fn applied_transactions(accounts: Map<PeerId, AccountView>, transactions: Seq<SignedTransactionView>) -> Map<PeerId, AccountView>
    decreases transactions.len(),
{
    if transactions.len() == 0 {
        accounts
    } else {
        applied_transaction(
            applied_transactions(accounts, transactions.drop_last()),
            transactions.last().transaction,
        )
    }
}

/// Whether all `transactions` can be applied to `accounts` in order.
pub open spec fn transactions_applicable(accounts: Map<PeerId, AccountView>, transactions: Seq<SignedTransactionView>) -> bool
    decreases transactions.len(),
{
    if transactions.len() == 0 {
        true
    } else {
        transactions_applicable(accounts, transactions.drop_last()) && transaction_applicable(
            applied_transactions(accounts, transactions.drop_last()),
            transactions.last().transaction,
        )
    }
}

/// A block does not fit the world state.
#[derive(Debug, Clone, Copy, PartialEq, Eq, Structural)]
pub enum WorldStateError {
    /// The block does not name the hash of the last applied block as its predecessor.
    LastBlockHashMismatch,
}

/// A `WorldState` keeps track of the current state of the blockchain.
#[derive(Debug)]
pub struct WorldState {
    /// The accounts and their permissions.
    pub accounts: AccountMap,
    /// The peers of the consensus.
    pub peers: PeerVector,
    /// The number of blocks applied to the world state.
    pub block_number: BlockNumber,
    /// The hash of the last applied block.
    pub last_block_hash: BlockHash,
}

impl WorldState {
    /// The accounts, by their identity.
    pub open spec fn accounts_view(&self) -> Map<PeerId, AccountView> {
        account_entries(self.accounts)
    }

    /// The peers, in order.
    pub open spec fn peers_view(&self) -> Seq<Peer> {
        peer_entries(self.peers)
    }

    /// An empty world state: no accounts, no peers, no blocks.
    pub fn new() -> (world_state: Self)
        ensures
            world_state.accounts_view() == Map::<PeerId, AccountView>::empty(),
            world_state.peers_view() == Seq::<Peer>::empty(),
            world_state.block_number.0 == 0,
            world_state.last_block_hash == BlockHash(crate::types::Bytes32(0, 0, 0, 0)),
    {
        WorldState {
            accounts: accounts_new(),
            peers: peers_new(),
            block_number: BlockNumber::default(),
            last_block_hash: BlockHash::default(),
        }
    }

    /// The account of `id`, if any.
    pub fn account(&self, id: &PeerId) -> (account: Option<&Account>)
        ensures
            self.accounts_view().contains_key(*id) ==> account.is_some() && account.unwrap()@ == self.accounts_view()[*id],
            !self.accounts_view().contains_key(*id) ==> account.is_none(),
    {
        accounts_get(&self.accounts, id)
    }

    /// Whether an account `id` exists.
    pub fn has_account(&self, id: &PeerId) -> (exists: bool)
        ensures
            exists == self.accounts_view().contains_key(*id),
    {
        accounts_get(&self.accounts, id).is_some()
    }

    /// Store `account` under `id`.
    pub fn insert_account(&mut self, id: PeerId, account: Account)
        ensures
            final(self).accounts_view() == old(self).accounts_view().insert(id, account@),
            final(self).peers_view() == old(self).peers_view(),
            final(self).block_number == old(self).block_number,
            final(self).last_block_hash == old(self).last_block_hash,
    {
        accounts_insert(&mut self.accounts, id, account);
    }

    /// Add a peer to the consensus group.
    pub fn add_peer(&mut self, peer: Peer)
        ensures
            final(self).accounts_view() == old(self).accounts_view(),
            final(self).peers_view() == old(self).peers_view().push(peer),
            final(self).block_number == old(self).block_number,
            final(self).last_block_hash == old(self).last_block_hash,
    {
        peers_push_back(&mut self.peers, peer);
    }

    /// The number of peers.
    pub fn peer_count(&self) -> (count: usize)
        ensures
            count == self.peers_view().len(),
    {
        peers_len(&self.peers)
    }

    /// The peer at position `index`.
    pub fn peer(&self, index: usize) -> (peer: &Peer)
        requires
            index < self.peers_view().len(),
        ensures
            *peer == self.peers_view()[index as int],
    {
        peers_get(&self.peers, index).unwrap()
    }

    /// Apply a transaction to the current world state.
    ///
    /// An update must find its account.
    pub fn apply_transaction(&mut self, transaction: SignedTransaction)
        requires
            transaction_applicable(old(self).accounts_view(), transaction.transaction@),
        ensures
            final(self).accounts_view() == applied_transaction(old(self).accounts_view(), transaction.transaction@),
            final(self).peers_view() == old(self).peers_view(),
            final(self).block_number == old(self).block_number,
            final(self).last_block_hash == old(self).last_block_hash,
    {
        match transaction.transaction {
            Transaction::KeyValue { .. } => {},
            Transaction::UpdateAccount { id, permissions } => {
                let account = accounts_remove(&mut self.accounts, &id).unwrap();
                let account = update_account(account, permissions);
                accounts_insert(&mut self.accounts, id, account);
                proof {
                    assert(self.accounts_view() =~= old(self).accounts_view().insert(
                        id,
                        updated_account(old(self).accounts_view()[id], permissions@),
                    ));
                }
            },
            Transaction::CreateAccount { id, account } => {
                accounts_insert(&mut self.accounts, id, account);
            },
            Transaction::DeleteAccount { id } => {
                accounts_remove(&mut self.accounts, &id);
            },
        }
    }

    /// Apply a block whose body hashes to `block_hash` to the world state.
    ///
    /// When the block follows the last applied block, its updates must find
    /// their accounts and its height must leave room for the next block
    /// number.
    pub fn apply_block(&mut self, block: Block, block_hash: BlockHash) -> (res: Result<(), WorldStateError>)
        requires
            block.body.prev_block_hash == old(self).last_block_hash ==> transactions_applicable(
                old(self).accounts_view(),
                transactions_view(block.body.transactions@),
            ) && block.body.height.0 < u64::MAX,
        ensures
            block.body.prev_block_hash != old(self).last_block_hash ==> res == Err::<(), WorldStateError>(
                WorldStateError::LastBlockHashMismatch,
            ) && *final(self) == *old(self),
            block.body.prev_block_hash == old(self).last_block_hash ==> res == Ok::<(), WorldStateError>(())
                && final(self).accounts_view() == applied_transactions(old(self).accounts_view(), transactions_view(block.body.transactions@))
                && final(self).peers_view() == old(self).peers_view()
                && final(self).last_block_hash == block_hash
                && final(self).block_number.0 == block.body.height.0 + 1,
    {
        if block.body.prev_block_hash != self.last_block_hash {
            return Err(WorldStateError::LastBlockHashMismatch);
        }
        self.last_block_hash = block_hash;
        self.block_number = block.body.height.add(1);
        let ghost start = self.accounts_view();
        let ghost all = transactions_view(block.body.transactions@);
        let ghost txs = block.body.transactions@;
        let count = block.body.transactions.len();
        let mut rest = crate::flatten_vec::reversed(block.body.transactions);
        let mut applied: usize = 0;
        while rest.len() > 0
            invariant
                applied + rest@.len() == txs.len(),
                txs.len() == count,
                all == transactions_view(txs),
                rest@.reverse() =~= txs.skip(applied as int),
                self.accounts_view() == applied_transactions(start, all.take(applied as int)),
                transactions_applicable(start, all),
                self.peers_view() == old(self).peers_view(),
                self.last_block_hash == block_hash,
                self.block_number.0 == block.body.height.0 + 1,
            decreases rest@.len(),
        {
            let ghost before = rest@;
            let t = rest.pop().unwrap();
            proof {
                assert(t == before.reverse()[0]);
                assert(txs.skip(applied as int)[0] == txs[applied as int]);
                assert(rest@ =~= before.drop_last());
                assert(before.drop_last().reverse() =~= before.reverse().drop_first());
                assert(txs.skip(applied as int).drop_first() =~= txs.skip(applied + 1));
                assert(rest@.reverse() =~= txs.skip(applied + 1));
                assert(all[applied as int] == t@);
                assert(all.take(applied + 1).drop_last() =~= all.take(applied as int));
                lemma_applicable_prefix(start, all, applied + 1);
            }
            self.apply_transaction(t);
            applied = applied + 1;
        }
        proof {
            assert(all.take(applied as int) =~= all);
        }
        Ok(())
    }
}

/// Every prefix of an applicable sequence of transactions is applicable.
proof fn lemma_applicable_prefix(accounts: Map<PeerId, AccountView>, transactions: Seq<SignedTransactionView>, n: int)
    requires
        transactions_applicable(accounts, transactions),
        0 <= n <= transactions.len(),
    ensures
        transactions_applicable(accounts, transactions.take(n)),
    decreases transactions.len() - n,
{
    if n < transactions.len() {
        assert(transactions.take(n + 1).drop_last() =~= transactions.take(n));
        lemma_applicable_prefix(accounts, transactions, n + 1);
    } else {
        assert(transactions.take(n) =~= transactions);
    }
}

impl Clone for WorldState {
    fn clone(&self) -> (copy: Self)
        ensures
            copy.accounts_view() == self.accounts_view(),
            copy.peers_view() == self.peers_view(),
            copy.block_number == self.block_number,
            copy.last_block_hash == self.last_block_hash,
    {
        WorldState {
            accounts: accounts_clone(&self.accounts),
            peers: peers_clone(&self.peers),
            block_number: self.block_number,
            last_block_hash: self.last_block_hash,
        }
    }
}

impl WorldState {
    /// Whether all `transactions` can be applied in order: an update needs
    /// its account (see `apply_block`).
    pub fn transactions_applicable_to(&self, transactions: &Vec<SignedTransaction>) -> (applicable: bool)
        ensures
            applicable == transactions_applicable(self.accounts_view(), transactions_view(transactions@)),
    {
        let ghost start = self.accounts_view();
        let ghost all = transactions_view(transactions@);
        let mut scratch = self.clone();
        let mut i: usize = 0;
        while i < transactions.len()
            invariant
                i <= transactions@.len(),
                all == transactions_view(transactions@),
                start == self.accounts_view(),
                scratch.accounts_view() == applied_transactions(start, all.take(i as int)),
                transactions_applicable(start, all.take(i as int)),
            decreases transactions@.len() - i,
        {
            proof {
                assert(all.take(i + 1).drop_last() =~= all.take(i as int));
                assert(all.take(i + 1).last() == transactions@[i as int]@);
            }
            let applicable = match &transactions[i].transaction {
                Transaction::UpdateAccount { id, .. } => scratch.has_account(id),
                _ => true,
            };
            if !applicable {
                proof {
                    if transactions_applicable(start, all) {
                        lemma_applicable_prefix(start, all, i + 1);
                    }
                }
                return false;
            }
            scratch.apply_transaction(transactions[i].clone());
            i = i + 1;
        }
        proof {
            assert(all.take(i as int) =~= all);
        }
        true
    }
}

/// What the world state references hold: the current world state and the
/// one before the last saved change.
pub struct WorldStateReferencesView {
    /// The current world state.
    pub current: WorldState,
    /// The world state before the last saved change, if it can be restored.
    pub prev: Option<WorldState>,
}

/// The references after saving `world_state`: the current one is kept as
/// the previous one.
pub open spec fn saved(references: WorldStateReferencesView, world_state: WorldState) -> WorldStateReferencesView {
    WorldStateReferencesView { current: world_state, prev: Some(references.current) }
}

/// The references after a rollback and the world state it replaced, if a
/// previous one was kept.
pub open spec fn rolled_back(references: WorldStateReferencesView) -> (WorldStateReferencesView, Option<WorldState>) {
    match references.prev {
        Some(previous) => (WorldStateReferencesView { current: previous, prev: None }, Some(references.current)),
        None => (references, None),
    }
}

/// A `WorldState` and its previous `WorldState`, if any.
#[derive(Debug)]
pub struct WorldStateReferences {
    current: WorldState,
    prev: Option<WorldState>,
}

impl View for WorldStateReferences {
    type V = WorldStateReferencesView;

    closed spec fn view(&self) -> WorldStateReferencesView {
        WorldStateReferencesView { current: self.current, prev: self.prev }
    }
}

impl WorldStateReferences {
    /// Start with `current` and no previous world state.
    pub fn new(current: WorldState) -> (references: Self)
        ensures
            references@ == (WorldStateReferencesView { current, prev: None }),
    {
        WorldStateReferences { current, prev: None }
    }

    /// A copy of the current world state.
    pub fn get(&self) -> (world_state: WorldState)
        ensures
            world_state.accounts_view() == self@.current.accounts_view(),
            world_state.peers_view() == self@.current.peers_view(),
            world_state.block_number == self@.current.block_number,
            world_state.last_block_hash == self@.current.last_block_hash,
    {
        self.current.clone()
    }

    /// The number of blocks applied to the previous world state, if one is kept.
    pub fn previous_block_number(&self) -> (number: Option<BlockNumber>)
        ensures
            self@.prev.is_none() ==> number.is_none(),
            self@.prev.is_some() ==> number == Some(self@.prev.unwrap().block_number),
    {
        match &self.prev {
            Some(previous) => Some(previous.block_number),
            None => None,
        }
    }

    /// Save a changed `world_state`; the current one becomes the previous one.
    pub fn save(&mut self, world_state: WorldState)
        ensures
            final(self)@ == saved(old(self)@, world_state),
    {
        let mut previous = world_state;
        std::mem::swap(&mut self.current, &mut previous);
        self.prev = Some(previous);
    }

    /// Roll back to the previous world state; hands back the replaced one.
    /// Nothing happens when no previous world state is kept.
    pub fn rollback(&mut self) -> (replaced: Option<WorldState>)
        ensures
            (final(self)@, replaced) == rolled_back(old(self)@),
    {
        match self.prev.take() {
            Some(previous) => {
                let mut replaced = previous;
                std::mem::swap(&mut self.current, &mut replaced);
                Some(replaced)
            },
            None => None,
        }
    }
}

/// A rollback right after saving `world_state` hands it back and restores
/// the world state from before; no second rollback is possible then.
pub proof fn law_rollback_undoes_save(references: WorldStateReferencesView, world_state: WorldState)
    ensures
        rolled_back(saved(references, world_state)).1 == Some(world_state),
        rolled_back(saved(references, world_state)).0.current == references.current,
        rolled_back(rolled_back(saved(references, world_state)).0).1.is_none(),
{
}

/// The position of the chain after applying `blocks` (each with its hash)
/// in order to a world state with `accounts` whose last block has the hash
/// `last` and which applied `number` blocks: the accounts, the last hash and
/// the number of blocks, or the refusal of a block that does not follow.
pub open spec fn replayed(
    accounts: Map<PeerId, AccountView>,
    last: BlockHash,
    number: u64,
    blocks: Seq<(BlockHash, Block)>,
) -> Result<(Map<PeerId, AccountView>, BlockHash, u64), WorldStateError>
    decreases blocks.len(),
{
    if blocks.len() == 0 {
        Ok((accounts, last, number))
    } else {
        let (hash, block) = blocks[0];
        if block.body.prev_block_hash != last {
            Err(WorldStateError::LastBlockHashMismatch)
        } else {
            replayed(
                applied_transactions(accounts, transactions_view(block.body.transactions@)),
                hash,
                (block.body.height.0 + 1) as u64,
                blocks.skip(1),
            )
        }
    }
}

/// Whether the blocks that follow each other in `blocks` can be applied:
/// their updates find their accounts and their heights leave room for the
/// next block number.
pub open spec fn chain_applicable(accounts: Map<PeerId, AccountView>, last: BlockHash, blocks: Seq<(BlockHash, Block)>) -> bool
    decreases blocks.len(),
{
    if blocks.len() == 0 {
        true
    } else {
        let (hash, block) = blocks[0];
        block.body.prev_block_hash != last || (transactions_applicable(
            accounts,
            transactions_view(block.body.transactions@),
        ) && block.body.height.0 < u64::MAX && chain_applicable(
            applied_transactions(accounts, transactions_view(block.body.transactions@)),
            hash,
            blocks.skip(1),
        ))
    }
}

/// Replaying one more block continues from where the replay of the ones
/// before stopped.
pub proof fn lemma_replayed_push(
    accounts: Map<PeerId, AccountView>,
    last: BlockHash,
    number: u64,
    blocks: Seq<(BlockHash, Block)>,
    next: (BlockHash, Block),
)
    ensures
        replayed(accounts, last, number, blocks.push(next)) == match replayed(accounts, last, number, blocks) {
            Err(e) => Err(e),
            Ok((a, l, n)) => replayed(a, l, n, seq![next]),
        },
    decreases blocks.len(),
{
    if blocks.len() > 0 {
        let (hash, block) = blocks[0];
        assert(blocks.push(next)[0] == blocks[0]);
        assert(blocks.push(next).skip(1) =~= blocks.skip(1).push(next));
        if block.body.prev_block_hash == last {
            lemma_replayed_push(
                applied_transactions(accounts, transactions_view(block.body.transactions@)),
                hash,
                (block.body.height.0 + 1) as u64,
                blocks.skip(1),
                next,
            );
        }
    } else {
        assert(blocks.push(next) =~= seq![next]);
    }
}

impl WorldStateReferences {
    /// Rebuild the world state from the stored `blocks` (each with its
    /// hash), applied in order to `initial`; the world state before the last
    /// block is kept for a rollback.
    ///
    /// The blocks' updates must find their accounts (see
    /// `chain_applicable_to`).
    pub fn from_blocks(initial: WorldState, blocks: &Vec<(BlockHash, Block)>) -> (res: Result<Self, WorldStateError>)
        requires
            chain_applicable(initial.accounts_view(), initial.last_block_hash, blocks@),
        ensures
            match replayed(initial.accounts_view(), initial.last_block_hash, initial.block_number.0, blocks@) {
                Err(e) => res == Err::<Self, WorldStateError>(e),
                Ok((accounts, last, number)) => res matches Ok(references) && {
                    &&& references@.current.accounts_view() == accounts
                    &&& references@.current.last_block_hash == last
                    &&& references@.current.block_number.0 == number
                    &&& references@.current.peers_view() == initial.peers_view()
                    &&& (blocks@.len() == 0 <==> references@.prev.is_none())
                    &&& references@.prev matches Some(previous) ==> replayed(
                        initial.accounts_view(),
                        initial.last_block_hash,
                        initial.block_number.0,
                        blocks@.drop_last(),
                    ) == Ok::<(Map<PeerId, AccountView>, BlockHash, u64), WorldStateError>(
                        (previous.accounts_view(), previous.last_block_hash, previous.block_number.0),
                    )
                },
            },
    {
        let ghost target = replayed(initial.accounts_view(), initial.last_block_hash, initial.block_number.0, blocks@);
        let ghost peers = initial.peers_view();
        let ghost start = (initial.accounts_view(), initial.last_block_hash, initial.block_number.0);
        let mut current = initial;
        let mut previous: Option<WorldState> = None;
        let mut i: usize = 0;
        proof {
            assert(blocks@.skip(0) =~= blocks@);
            assert(blocks@.take(0) =~= Seq::<(BlockHash, Block)>::empty());
        }
        while i < blocks.len()
            invariant
                i <= blocks@.len(),
                target == replayed(start.0, start.1, start.2, blocks@),
                start == (initial.accounts_view(), initial.last_block_hash, initial.block_number.0),
                target == replayed(current.accounts_view(), current.last_block_hash, current.block_number.0, blocks@.skip(i as int)),
                chain_applicable(current.accounts_view(), current.last_block_hash, blocks@.skip(i as int)),
                current.peers_view() == peers,
                (i == 0 <==> previous.is_none()),
                replayed(start.0, start.1, start.2, blocks@.take(i as int)) == Ok::<
                    (Map<PeerId, AccountView>, BlockHash, u64),
                    WorldStateError,
                >((current.accounts_view(), current.last_block_hash, current.block_number.0)),
                previous matches Some(p) ==> i > 0 && replayed(start.0, start.1, start.2, blocks@.take(i - 1)) == Ok::<
                    (Map<PeerId, AccountView>, BlockHash, u64),
                    WorldStateError,
                >((p.accounts_view(), p.last_block_hash, p.block_number.0)),
            decreases blocks@.len() - i,
        {
            let (hash, block) = &blocks[i];
            proof {
                assert(blocks@.skip(i as int)[0] == blocks@[i as int]);
                assert(blocks@.skip(i as int).skip(1) =~= blocks@.skip(i + 1));
                assert(*hash == blocks@[i as int].0 && *block == blocks@[i as int].1);
            }
            let ghost prior = previous;
            previous = Some(current.clone());
            let ghost before = current;
            let copy = block.clone();
            if current.apply_block(copy, *hash).is_err() {
                proof {
                    assert(copy.body.prev_block_hash != before.last_block_hash);
                    assert(blocks@.skip(i as int)[0].1.body.prev_block_hash != before.last_block_hash);
                    assert(target == Err::<(Map<PeerId, AccountView>, BlockHash, u64), WorldStateError>(
                        WorldStateError::LastBlockHashMismatch,
                    ));
                }
                return Err(WorldStateError::LastBlockHashMismatch);
            }
            proof {
                assert(blocks@.take(i + 1) =~= blocks@.take(i as int).push(blocks@[i as int]));
                assert(blocks@.take(i + 1 - 1) =~= blocks@.take(i as int));
                lemma_replayed_push(start.0, start.1, start.2, blocks@.take(i as int), blocks@[i as int]);
                let b = blocks@[i as int];
                assert(seq![b][0] == b);
                assert(seq![b].skip(1) =~= Seq::<(BlockHash, Block)>::empty());
                assert(b.1.body.prev_block_hash == before.last_block_hash);
                assert(transactions_view(copy.body.transactions@) == transactions_view(b.1.body.transactions@));
                let applied = applied_transactions(before.accounts_view(), transactions_view(b.1.body.transactions@));
                assert(replayed(applied, b.0, (b.1.body.height.0 + 1) as u64, seq![b].skip(1)) == Ok::<
                    (Map<PeerId, AccountView>, BlockHash, u64),
                    WorldStateError,
                >((applied, b.0, (b.1.body.height.0 + 1) as u64)));
                assert(current.block_number.0 == (b.1.body.height.0 + 1) as u64);
                assert(replayed(before.accounts_view(), before.last_block_hash, before.block_number.0, seq![b]) == Ok::<
                    (Map<PeerId, AccountView>, BlockHash, u64),
                    WorldStateError,
                >((current.accounts_view(), current.last_block_hash, current.block_number.0)));
            }
            i = i + 1;
        }
        proof {
            assert(blocks@.skip(i as int) =~= Seq::<(BlockHash, Block)>::empty());
            assert(blocks@.take(i as int) =~= blocks@);
            if i > 0 {
                assert(blocks@.take(i - 1) =~= blocks@.drop_last());
            }
        }
        match previous {
            Some(previous) => {
                let mut references = WorldStateReferences::new(previous);
                references.save(current);
                Ok(references)
            },
            None => Ok(WorldStateReferences::new(current)),
        }
    }
}

impl WorldState {
    /// Whether the stored `blocks` can be applied in order (see
    /// `chain_applicable`): a dry run on a copy of the world state.
    pub fn chain_applicable_to(&self, blocks: &Vec<(BlockHash, Block)>) -> (applicable: bool)
        ensures
            applicable == chain_applicable(self.accounts_view(), self.last_block_hash, blocks@),
    {
        let ghost target = chain_applicable(self.accounts_view(), self.last_block_hash, blocks@);
        let mut scratch = self.clone();
        let mut i: usize = 0;
        proof {
            assert(blocks@.skip(0) =~= blocks@);
        }
        while i < blocks.len()
            invariant
                i <= blocks@.len(),
                target == chain_applicable(self.accounts_view(), self.last_block_hash, blocks@),
                target == chain_applicable(scratch.accounts_view(), scratch.last_block_hash, blocks@.skip(i as int)),
            decreases blocks@.len() - i,
        {
            let (hash, block) = &blocks[i];
            proof {
                assert(blocks@.skip(i as int)[0] == blocks@[i as int]);
                assert(blocks@.skip(i as int).skip(1) =~= blocks@.skip(i + 1));
                assert(*hash == blocks@[i as int].0 && *block == blocks@[i as int].1);
            }
            if block.body.prev_block_hash != scratch.last_block_hash {
                return true;
            }
            if !scratch.transactions_applicable_to(&block.body.transactions) || block.body.height.0 == u64::MAX {
                return false;
            }
            let _ = scratch.apply_block(block.clone(), *hash);
            i = i + 1;
        }
        proof {
            assert(blocks@.skip(i as int) =~= Seq::<(BlockHash, Block)>::empty());
        }
        true
    }
}

} // verus!

use prellblock::account::{
    Account, AccountType, Expiry, Permissions, ReadingPermission, ReadingRight, SignedTransaction, Transaction,
};
use prellblock::block::{key_values, Block, Body};
use prellblock::reader::{check_block_request, check_execute, get_accounts, get_current_block_number, readable_peers};
use prellblock::signature_list::SignatureList;
use prellblock::transaction_checker::{AccountChecker, PermissionError, TransactionChecker};
use prellblock::types::{BlockHash, BlockNumber, Bytes32, LeaderTerm, PeerId, Signature};
use prellblock::world_state::{WorldState, WorldStateError, WorldStateReferences};

fn peer(n: u64) -> PeerId {
    PeerId(Bytes32(n, 0, 0, 0))
}

fn account(account_type: AccountType, writing_rights: bool) -> Account {
    Account { account_type, expire_at: Expiry::Never, writing_rights, reading_rights: Vec::new() }
}

fn key_value(signer: PeerId, key: &str) -> SignedTransaction {
    SignedTransaction {
        signer,
        signature: Signature(Bytes32(1, 1, 1, 1), Bytes32(2, 2, 2, 2)),
        transaction: Transaction::KeyValue { key: key.to_string(), value: vec![1, 2], timestamp: 7 },
    }
}

fn update(signer: PeerId, id: PeerId, writing: bool) -> SignedTransaction {
    SignedTransaction {
        signer,
        signature: Signature(Bytes32(3, 3, 3, 3), Bytes32(4, 4, 4, 4)),
        transaction: Transaction::UpdateAccount {
            id,
            permissions: Permissions {
                account_type: None,
                expire_at: None,
                has_writing_rights: Some(writing),
                reading_rights: None,
            },
        },
    }
}

fn world_state() -> WorldState {
    let mut world_state = WorldState::new();
    world_state.insert_account(peer(1), account(AccountType::Admin, true));
    world_state.insert_account(peer(2), account(AccountType::Normal, false));
    world_state.insert_account(
        peer(3),
        Account { account_type: AccountType::Normal, expire_at: Expiry::AtDate(100), writing_rights: true, reading_rights: Vec::new() },
    );
    world_state
}

#[test]
fn permissions_of_transactions() {
    let checker = TransactionChecker::new(world_state());
    assert_eq!(checker.verify_permissions(&key_value(peer(1), "a"), 0), Ok(()));
    assert_eq!(checker.verify_permissions(&key_value(peer(2), "a"), 0), Err(PermissionError::WriteDenied(peer(2))));
    assert_eq!(checker.verify_permissions(&key_value(peer(9), "a"), 0), Err(PermissionError::AccountNotFound(peer(9))));
    assert_eq!(checker.verify_permissions(&key_value(peer(3), "a"), 99), Ok(()));
    assert_eq!(checker.verify_permissions(&key_value(peer(3), "a"), 100), Err(PermissionError::AccountExpired(peer(3))));
    assert_eq!(checker.verify_permissions(&update(peer(2), peer(1), true), 0), Err(PermissionError::NotAnAdmin(peer(2))));
    assert_eq!(checker.verify_permissions(&update(peer(1), peer(9), true), 0), Err(PermissionError::AccountNotFound(peer(9))));
    assert_eq!(checker.verify_permissions(&update(peer(1), peer(2), true), 0), Ok(()));
    let create = SignedTransaction {
        signer: peer(1),
        signature: Signature(Bytes32(0, 0, 0, 0), Bytes32(0, 0, 0, 0)),
        transaction: Transaction::CreateAccount { id: peer(2), account: account(AccountType::Normal, true) },
    };
    assert_eq!(checker.verify_permissions(&create, 0), Err(PermissionError::AccountAlreadyExists(peer(2))));
    let delete = SignedTransaction {
        signer: peer(1),
        signature: Signature(Bytes32(0, 0, 0, 0), Bytes32(0, 0, 0, 0)),
        transaction: Transaction::DeleteAccount { id: peer(8) },
    };
    assert_eq!(checker.verify_permissions(&delete, 0), Err(PermissionError::AccountNotFound(peer(8))));
}

#[test]
fn batches_are_checked_in_order() {
    let checker = TransactionChecker::new(world_state());
    // The update grants writing rights that the next transaction uses.
    let batch = vec![update(peer(1), peer(2), true), key_value(peer(2), "a")];
    assert_eq!(checker.verify(&batch, true, 0), Ok(()));
    let batch = vec![key_value(peer(2), "a"), update(peer(1), peer(2), true)];
    assert_eq!(checker.verify(&batch, true, 0), Err(PermissionError::WriteDenied(peer(2))));
    assert_eq!(checker.verify(&Vec::new(), false, 0), Err(PermissionError::InvalidSignature));
}

fn block(prev: BlockHash, transactions: Vec<SignedTransaction>) -> Block {
    Block {
        body: Body { leader_term: LeaderTerm(0), height: BlockNumber(0), prev_block_hash: prev, transactions },
        signatures: SignatureList::default(),
    }
}

#[test]
fn blocks_change_the_world_state() {
    let mut world_state = world_state();
    let hash = BlockHash(Bytes32(9, 9, 9, 9));
    let wrong = block(BlockHash(Bytes32(1, 0, 0, 0)), vec![update(peer(1), peer(2), true)]);
    assert_eq!(world_state.apply_block(wrong, hash), Err(WorldStateError::LastBlockHashMismatch));
    assert_eq!(world_state.block_number, BlockNumber(0));

    let good = block(BlockHash::default(), vec![update(peer(1), peer(2), true), key_value(peer(2), "a")]);
    assert!(world_state.transactions_applicable_to(&good.body.transactions));
    assert_eq!(world_state.apply_block(good, hash), Ok(()));
    assert_eq!(world_state.block_number, BlockNumber(1));
    assert_eq!(world_state.last_block_hash, hash);
    assert!(world_state.account(&peer(2)).unwrap().writing_rights);
    assert!(!world_state.transactions_applicable_to(&vec![update(peer(1), peer(9), true)]));
}

#[test]
fn rollback_restores_the_saved_world_state() {
    let mut references = WorldStateReferences::new(world_state());
    assert!(references.rollback().is_none());
    let mut next = references.get();
    next.block_number = BlockNumber(1);
    references.save(next);
    assert_eq!(references.get().block_number, BlockNumber(1));
    assert_eq!(references.previous_block_number(), Some(BlockNumber(0)));
    let replaced = references.rollback().unwrap();
    assert_eq!(replaced.block_number, BlockNumber(1));
    assert_eq!(references.get().block_number, BlockNumber(0));
    assert!(references.rollback().is_none());
}

#[test]
fn key_values_of_transactions() {
    let entries = key_values(&vec![key_value(peer(1), "speed"), update(peer(1), peer(2), true), key_value(peer(2), "temp")]);
    assert_eq!(entries.len(), 2);
    assert_eq!(entries[0].signer, peer(1));
    assert_eq!(entries[0].key, "speed");
    assert_eq!(entries[0].value, vec![1, 2]);
    assert_eq!(entries[0].timestamp, 7);
    assert_eq!(entries[1].key, "temp");
}

#[test]
fn reading_rights_decide_first_fit() {
    let mut world_state = world_state();
    let rules = vec![
        ReadingPermission::Blacklist(ReadingRight { accounts: vec![peer(2)], namespace: vec!["secret".to_string()] }),
        ReadingPermission::Whitelist(ReadingRight {
            accounts: vec![peer(2)],
            namespace: vec!["secret".to_string(), "speed".to_string()],
        }),
    ];
    world_state.insert_account(
        peer(4),
        Account { account_type: AccountType::Normal, expire_at: Expiry::Never, writing_rights: false, reading_rights: rules },
    );
    let checker = AccountChecker::new(&world_state, peer(4), 0).unwrap();
    assert!(checker.is_allowed_to_read_key(&peer(2), &"speed".to_string()));
    assert!(!checker.is_allowed_to_read_key(&peer(2), &"secret".to_string()));
    assert!(!checker.is_allowed_to_read_key(&peer(1), &"speed".to_string()));
    assert!(checker.is_allowed_to_read_any_key(&peer(2)));
    assert_eq!(readable_peers(&checker, &vec![peer(1), peer(2), peer(3)]), [peer(2)]);
    assert_eq!(checker.verify_can_read_blocks(), Err(PermissionError::CannotReadBlocks(peer(4))));
}

#[test]
fn read_requests_check_the_requester() {
    let world_state = world_state();
    let accounts = get_accounts(&world_state, peer(1), true, &vec![peer(2), peer(9), peer(1)], 0).unwrap();
    assert_eq!(accounts.len(), 2);
    assert_eq!(accounts[0].account_type, AccountType::Normal);
    assert_eq!(accounts[1].account_type, AccountType::Admin);
    assert_eq!(get_accounts(&world_state, peer(2), true, &vec![], 0).err(), Some(PermissionError::NotAnAdmin(peer(2))));
    assert_eq!(get_accounts(&world_state, peer(1), false, &vec![], 0).err(), Some(PermissionError::InvalidSignature));
    assert_eq!(check_block_request(&world_state, peer(1), true, 0), Ok(()));
    assert_eq!(check_block_request(&world_state, peer(2), true, 0), Err(PermissionError::CannotReadBlocks(peer(2))));
    assert_eq!(get_current_block_number(&world_state, peer(2), true, 0), Ok(BlockNumber(0)));
    assert_eq!(get_current_block_number(&world_state, peer(9), true, 0), Err(PermissionError::AccountNotFound(peer(9))));
    let checker = TransactionChecker::new(world_state);
    assert_eq!(check_execute(&checker, &key_value(peer(1), "a"), true, 0), Ok(()));
    assert_eq!(check_execute(&checker, &key_value(peer(1), "a"), false, 0), Err(PermissionError::InvalidSignature));
}

fn block_at(height: u64, prev: BlockHash, transactions: Vec<SignedTransaction>) -> Block {
    Block {
        body: Body { leader_term: LeaderTerm(0), height: BlockNumber(height), prev_block_hash: prev, transactions },
        signatures: SignatureList::default(),
    }
}

#[test]
fn world_state_is_rebuilt_from_blocks() {
    let first = BlockHash(Bytes32(1, 1, 1, 1));
    let second = BlockHash(Bytes32(2, 2, 2, 2));
    let blocks = vec![
        (first, block_at(0, BlockHash::default(), vec![update(peer(1), peer(2), true)])),
        (second, block_at(1, first, vec![key_value(peer(2), "a")])),
    ];
    let initial = world_state();
    assert!(initial.chain_applicable_to(&blocks));
    let references = WorldStateReferences::from_blocks(initial, &blocks).unwrap();
    assert_eq!(references.get().block_number, BlockNumber(2));
    assert_eq!(references.get().last_block_hash, second);
    assert_eq!(references.previous_block_number(), Some(BlockNumber(1)));
    assert!(references.get().account(&peer(2)).unwrap().writing_rights);

    let broken = vec![(second, block_at(1, first, vec![]))];
    assert!(world_state().chain_applicable_to(&broken));
    assert_eq!(WorldStateReferences::from_blocks(world_state(), &broken).err(), Some(WorldStateError::LastBlockHashMismatch));

    let unknown = vec![(first, block_at(0, BlockHash::default(), vec![update(peer(1), peer(9), true)]))];
    assert!(!world_state().chain_applicable_to(&unknown));

    let empty = WorldStateReferences::from_blocks(world_state(), &Vec::new()).unwrap();
    assert_eq!(empty.previous_block_number(), None);
}

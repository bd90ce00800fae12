use prellblock::account::{Account, AccountType, Expiry, SignedTransaction, Transaction};
use prellblock::batcher::{add_to_batch, take_batch, MAX_TRANSACTIONS_PER_BATCH};
use prellblock::block::{Block, Body};
use prellblock::consensus::censorship::{has_old_transactions, has_old_transactions_at, is_overdue, oldest_inserted};
use prellblock::consensus::consensus_core::check_response_signer;
use prellblock::consensus::error::Error;
use prellblock::consensus::follower::{rollback_block, State};
use prellblock::consensus::leader::{Leader, LeaderPhase};
use prellblock::consensus::synchronizer::{
    accept_synchronized_new_view, apply_synchronized_block, needs_rollback, synchronization_request,
};
use prellblock::queue::Queue;
use prellblock::signature_list::SignatureList;
use prellblock::subscriptions::{build_subscriptions, is_subscribed, subscribed_updates, Subscription};
use prellblock::thingsboard::{device_url, login_url, telemetry_url};
use prellblock::types::{BlockHash, BlockNumber, Bytes32, LeaderTerm, PeerId, Signature};
use prellblock::world_state::{WorldState, WorldStateReferences};

fn peer(n: u64) -> PeerId {
    PeerId(Bytes32(n, 0, 0, 0))
}

fn signature(n: u64) -> Signature {
    Signature(Bytes32(n, 0, 0, 0), Bytes32(0, 0, 0, n))
}

fn hash(n: u64) -> BlockHash {
    BlockHash(Bytes32(n, n, n, n))
}

fn key_value(signer: PeerId, key: &str) -> SignedTransaction {
    SignedTransaction {
        signer,
        signature: signature(99),
        transaction: Transaction::KeyValue { key: key.to_string(), value: vec![7], timestamp: 1 },
    }
}

fn world_state() -> WorldState {
    let mut world_state = WorldState::new();
    for n in 1..=4 {
        world_state.insert_account(
            peer(n),
            Account { account_type: AccountType::RPU, expire_at: Expiry::Never, writing_rights: true, reading_rights: Vec::new() },
        );
        world_state.add_peer((peer(n), format!("127.0.0.1:{}", 2480 + n)));
    }
    world_state.insert_account(
        peer(10),
        Account { account_type: AccountType::Normal, expire_at: Expiry::Never, writing_rights: true, reading_rights: Vec::new() },
    );
    world_state
}

fn signatures(peers: &[u64]) -> SignatureList {
    SignatureList(peers.iter().map(|n| (peer(*n), signature(*n))).collect())
}

fn block(height: u64, prev: BlockHash, transactions: Vec<SignedTransaction>) -> Block {
    Block {
        body: Body { leader_term: LeaderTerm(0), height: BlockNumber(height), prev_block_hash: prev, transactions },
        signatures: signatures(&[1, 2, 3]),
    }
}

#[test]
fn batches_fill_up() {
    let mut bucket = Vec::new();
    for _ in 1..MAX_TRANSACTIONS_PER_BATCH {
        assert!(!add_to_batch(&mut bucket, key_value(peer(10), "a")));
    }
    assert!(add_to_batch(&mut bucket, key_value(peer(10), "a")));
    let batch = take_batch(&mut bucket).unwrap();
    assert_eq!(batch.len(), MAX_TRANSACTIONS_PER_BATCH);
    assert!(bucket.is_empty());
    assert!(take_batch(&mut bucket).is_none());
}

fn subscription(peer_id: PeerId, namespace: &str, device: &str) -> Subscription {
    Subscription {
        peer_id,
        namespace: namespace.to_string(),
        device_name: device.to_string(),
        device_type: "train".to_string(),
    }
}

#[test]
fn subscriptions_are_grouped_by_account() {
    let config = vec![
        subscription(peer(1), "speed", "first"),
        subscription(peer(2), "speed", "second"),
        subscription(peer(1), "temperature", "other"),
        subscription(peer(1), "speed", "other"),
    ];
    let entries = build_subscriptions(&config);
    assert_eq!(entries.len(), 2);
    assert_eq!(entries[0].0, peer(1));
    assert_eq!(entries[0].1.namespaces, vec!["speed".to_string(), "temperature".to_string()]);
    assert_eq!(entries[0].1.device_name, "first");
    assert_eq!(entries[1].1.namespaces, vec!["speed".to_string()]);
    assert!(is_subscribed(&entries, &peer(2), &"speed".to_string()));
    assert!(!is_subscribed(&entries, &peer(2), &"temperature".to_string()));
    assert!(!is_subscribed(&entries, &peer(3), &"speed".to_string()));
    let updates = vec![
        (peer(1), "temperature".to_string()),
        (peer(3), "speed".to_string()),
        (peer(2), "speed".to_string()),
    ];
    assert_eq!(subscribed_updates(&entries, &updates), vec![updates[0].clone(), updates[2].clone()]);
}

#[test]
fn thingsboard_urls() {
    assert_eq!(telemetry_url("abc"), "http://localhost:8080/api/v1/abc/telemetry");
    assert_eq!(login_url(), "http://localhost:8080/api/auth/login");
    assert_eq!(device_url("abc"), "http://localhost:8080/api/device?accessToken=abc");
}

#[test]
fn fresh_transactions_are_not_overdue() {
    let mut queue = Queue::new();
    assert!(!has_old_transactions(&queue));
    queue.insert(1);
    assert!(!has_old_transactions(&queue));
    assert!(!is_overdue(10_000_000_000));
    assert!(is_overdue(10_000_000_001));
}

#[test]
fn responses_must_come_from_the_asked_peer() {
    assert_eq!(check_response_signer(peer(1), peer(1)), Ok(()));
    assert_eq!(check_response_signer(peer(2), peer(1)), Err(Error::InvalidPeer(peer(2))));
}

#[test]
fn leaders_follow_the_follower() {
    let current = world_state();
    let mut state = State::new(&current);
    state.leader_term = LeaderTerm(3);
    state.block_number = BlockNumber(7);
    state.last_block_hash = hash(7);
    let mut leader = Leader::new();
    leader.synchronize_from_follower(&state);
    assert_eq!(leader.leader_term, LeaderTerm(3));
    assert_eq!(leader.block_number, BlockNumber(7));
    assert_eq!(leader.last_block_hash, hash(7));
    leader.leader_term = LeaderTerm(5);
    leader.synchronize_from_follower(&state);
    assert_eq!(leader.leader_term, LeaderTerm(5));
    leader.commit(hash(1), SignatureList::default());
    assert_eq!(leader.phase, LeaderPhase::Commit);
    leader.start_round();
    assert_eq!(leader.phase, LeaderPhase::Waiting);
}

#[test]
fn synchronized_blocks_are_checked_and_applied() {
    let current = world_state();
    let mut references = WorldStateReferences::new(current.clone());
    let mut state = State::new(&current);
    let mut queue = Queue::new();
    queue.insert(key_value(peer(10), "a"));

    let request = synchronization_request(&state);
    assert_eq!(request.block_number, BlockNumber(0));
    assert_eq!(request.block_hash, BlockHash::default());

    assert_eq!(accept_synchronized_new_view(&mut state, &current, None, &Vec::new(), 0), Ok(()));
    assert_eq!(
        accept_synchronized_new_view(&mut state, &current, Some((LeaderTerm(2), signatures(&[1, 2]))), &vec![true; 2], 0),
        Err(Error::NotEnoughSignatures)
    );
    assert_eq!(
        accept_synchronized_new_view(&mut state, &current, Some((LeaderTerm(2), signatures(&[1, 2, 4]))), &vec![true; 3], 0),
        Ok(())
    );
    assert_eq!(state.leader_term, LeaderTerm(2));

    let wrong_number = block(1, BlockHash::default(), vec![key_value(peer(10), "a")]);
    assert_eq!(
        apply_synchronized_block(&mut state, &mut queue, &mut references, wrong_number, hash(1), &vec![true; 3], true, 0).err(),
        Some(Error::WrongBlockNumber { received: BlockNumber(1), expected: BlockNumber(0) })
    );
    let wrong_prev = block(0, hash(9), vec![key_value(peer(10), "a")]);
    assert_eq!(
        apply_synchronized_block(&mut state, &mut queue, &mut references, wrong_prev, hash(1), &vec![true; 3], true, 0).err(),
        Some(Error::PrevBlockHashDoesNotMatch(hash(9), BlockHash::default()))
    );
    let first = block(0, BlockHash::default(), vec![key_value(peer(10), "a")]);
    let applied = apply_synchronized_block(&mut state, &mut queue, &mut references, first, hash(1), &vec![true; 3], true, 0)
        .unwrap()
        .unwrap();
    assert_eq!(applied.body.height, BlockNumber(0));
    assert_eq!(state.block_number, BlockNumber(1));
    assert_eq!(state.last_block_hash, hash(1));
    assert!(queue.is_empty());
    assert_eq!(references.get().block_number, BlockNumber(1));

    let known = block(0, BlockHash::default(), vec![key_value(peer(10), "a")]);
    assert!(apply_synchronized_block(&mut state, &mut queue, &mut references, known, hash(1), &vec![true; 3], true, 0)
        .unwrap()
        .is_none());

    // The chain split: the peer's block 0 differs from ours.
    let theirs = block(0, BlockHash::default(), vec![]);
    assert!(!needs_rollback(&state, &theirs, hash(1)));
    state.rollback_possible = true;
    assert!(needs_rollback(&state, &theirs, hash(2)));

    let last = block(0, BlockHash::default(), vec![key_value(peer(10), "a")]);
    rollback_block(&mut state, &mut queue, &mut references, last);
    assert_eq!(state.block_number, BlockNumber(0));
    assert_eq!(state.last_block_hash, BlockHash::default());
    assert!(!state.rollback_possible);
    assert_eq!(queue.len(), 1);
    assert_eq!(references.get().block_number, BlockNumber(0));
}

#[test]
fn oldest_insertion_time_is_the_first_entrys() {
    let mut queue = Queue::new();
    assert!(oldest_inserted(&queue).is_none());
    queue.insert(1);
    let first = queue.peek().unwrap().inserted();
    queue.insert(2);
    assert_eq!(oldest_inserted(&queue), Some(first));
    assert!(first <= std::time::Instant::now());
}

#[test]
fn transactions_are_overdue_after_the_timeout() {
    let mut queue = Queue::new();
    let start = std::time::Instant::now();
    assert!(!has_old_transactions_at(&queue, start + std::time::Duration::from_secs(60)));
    queue.insert(1);
    let inserted = queue.peek().unwrap().inserted();
    assert!(!has_old_transactions_at(&queue, inserted));
    assert!(!has_old_transactions_at(&queue, inserted + std::time::Duration::from_secs(10)));
    assert!(has_old_transactions_at(&queue, inserted + std::time::Duration::from_secs(11)));
    // A reading before the insertion counts as no time at all.
    assert!(!has_old_transactions_at(&queue, start));
}

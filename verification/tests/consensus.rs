use prellblock::account::{Account, AccountType, Expiry, SignedTransaction, Transaction};
use prellblock::block::Block;
use prellblock::consensus::consensus_core::{collect_until_supermajority, leader, verify_message_sender};
use prellblock::consensus::error::{Error, Phase};
use prellblock::consensus::follower::{
    apply_block_effects, compare_block_numbers, handle_append_message, handle_commit_message,
    handle_new_view_message, handle_prepare_message, BlockOrder, State,
};
use prellblock::consensus::leader::{min_block_size, take_block_transactions, take_transactions, Leader, MAX_TRANSACTIONS_PER_BLOCK};
use prellblock::consensus::message::{Append, Commit, Metadata, NewView, Prepare, SynchronizationRequest};
use prellblock::consensus::stateful_validation::stateful_validate;
use prellblock::consensus::synchronizer::{
    choose_synchronization_peer, is_synchronization_needed, peer_address, synchronization_blocks,
    synchronization_new_view, synchronization_start,
};
use prellblock::consensus::view_change::{self, handle_view_change, new_view_time_left};
use prellblock::quorum::{nonfaulty_count, supermajority_reached};
use prellblock::queue::Queue;
use prellblock::signature_list::SignatureList;
use prellblock::transaction_checker::PermissionError;
use prellblock::types::{BlockHash, BlockNumber, Bytes32, LeaderTerm, PeerId, Signature};
use prellblock::world_state::{WorldState, WorldStateReferences};

fn peer(n: u64) -> PeerId {
    PeerId(Bytes32(n, 0, 0, 0))
}

fn signature(n: u64) -> Signature {
    Signature(Bytes32(n, 0, 0, 0), Bytes32(0, 0, 0, n))
}

fn hash(n: u64) -> BlockHash {
    BlockHash(Bytes32(n, n, n, n))
}

fn rpu() -> Account {
    Account { account_type: AccountType::RPU, expire_at: Expiry::Never, writing_rights: true, reading_rights: Vec::new() }
}

/// Four RPUs (peers 1 to 4) and a client (peer 10) that may write.
fn world_state() -> WorldState {
    let mut world_state = WorldState::new();
    for n in 1..=4 {
        world_state.insert_account(peer(n), rpu());
        world_state.add_peer((peer(n), format!("127.0.0.1:{}", 2480 + n)));
    }
    world_state.insert_account(
        peer(10),
        Account { account_type: AccountType::Normal, expire_at: Expiry::Never, writing_rights: true, reading_rights: Vec::new() },
    );
    world_state.insert_account(
        peer(11),
        Account { account_type: AccountType::Normal, expire_at: Expiry::Never, writing_rights: false, reading_rights: Vec::new() },
    );
    world_state
}

fn key_value(signer: PeerId, key: &str) -> SignedTransaction {
    SignedTransaction {
        signer,
        signature: signature(99),
        transaction: Transaction::KeyValue { key: key.to_string(), value: vec![7], timestamp: 1 },
    }
}

fn signatures(peers: &[u64]) -> SignatureList {
    SignatureList(peers.iter().map(|n| (peer(*n), signature(*n))).collect())
}

fn metadata(block_hash: BlockHash) -> Metadata {
    Metadata { leader_term: LeaderTerm(0), block_number: BlockNumber(0), block_hash }
}

#[test]
fn quorum_sizes() {
    assert!(supermajority_reached(3, 4));
    assert!(!supermajority_reached(2, 4));
    assert!(supermajority_reached(5, 7));
    assert!(!supermajority_reached(4, 7));
    assert_eq!(nonfaulty_count(4), 2);
    assert_eq!(nonfaulty_count(7), 3);
}

#[test]
fn leaders_take_turns() {
    let world_state = world_state();
    assert_eq!(leader(&world_state, LeaderTerm(0)), peer(1));
    assert_eq!(leader(&world_state, LeaderTerm(5)), peer(2));
    assert_eq!(verify_message_sender(&world_state, peer(2), true, 0), Ok(()));
    assert_eq!(verify_message_sender(&world_state, peer(2), false, 0), Err(Error::InvalidSignature));
    assert_eq!(
        verify_message_sender(&world_state, peer(10), true, 0),
        Err(Error::Permission(PermissionError::NotAnRPU(peer(10))))
    );
}

#[test]
fn broadcast_collects_a_supermajority() {
    let results = vec![Some((peer(1), signature(1))), None, Some((peer(2), signature(2))), Some((peer(3), signature(3))), Some((peer(4), signature(4)))];
    let list = collect_until_supermajority(results, 4).unwrap();
    assert_eq!(list.0, vec![(peer(1), signature(1)), (peer(2), signature(2)), (peer(3), signature(3))]);
    let results = vec![Some((peer(1), signature(1))), None, None, Some((peer(2), signature(2)))];
    assert_eq!(collect_until_supermajority(results, 4).err(), Some(Error::CouldNotGetSupermajority));
}

#[test]
fn a_round_from_prepare_to_commit() {
    let world_state = world_state();
    let mut references = WorldStateReferences::new(world_state);
    let current = references.get();
    let mut state = State::new(&current);
    let mut queue = Queue::new();
    queue.insert(key_value(peer(10), "speed"));
    let block_hash = hash(5);

    // Only the leader of the term (peer 1) may prepare.
    let prepare = Prepare { metadata: metadata(block_hash) };
    assert_eq!(handle_prepare_message(&mut state, &current, peer(2), &prepare), Err(Error::WrongLeader(peer(2))));
    assert_eq!(handle_prepare_message(&mut state, &current, peer(1), &prepare), Ok(metadata(block_hash)));
    assert_eq!(state.phase(), Phase::Prepare);
    assert_eq!(
        handle_prepare_message(&mut state, &current, peer(1), &prepare),
        Err(Error::WrongPhase { current: Phase::Prepare, expected: Phase::Waiting })
    );

    let append = Append {
        metadata: metadata(block_hash),
        ackprepare_signatures: signatures(&[1, 2, 3]),
        valid_transactions: vec![key_value(peer(10), "speed")],
        invalid_transactions: vec![(1, key_value(peer(11), "speed"))],
        timestamp: 0,
    };
    let out = handle_append_message(&mut state, &current, peer(1), append, block_hash, &vec![true, true, true], true, 0);
    assert_eq!(out.response, Ok(metadata(block_hash)));
    assert!(!out.request_view_change);
    assert!(out.buffered_commit.is_none());
    assert_eq!(state.phase(), Phase::Append);

    let commit = Commit { metadata: metadata(block_hash), ackappend_signatures: signatures(&[2, 3, 4]) };
    let out = handle_commit_message(&mut state, &current, peer(1), commit, &vec![true, true, true], 0);
    assert_eq!(out.response, Ok(()));
    let (committed_hash, block): (BlockHash, Block) = out.committed.unwrap();
    assert_eq!(committed_hash, block_hash);
    assert_eq!(block.body.height, BlockNumber(0));
    assert_eq!(block.body.transactions.len(), 1);
    assert_eq!(state.block_number, BlockNumber(1));
    assert_eq!(state.last_block_hash, block_hash);
    assert_eq!(state.phase(), Phase::Waiting);

    apply_block_effects(&mut queue, &mut references, committed_hash, &block);
    assert!(queue.is_empty());
    assert_eq!(references.get().block_number, BlockNumber(1));
    assert_eq!(references.get().last_block_hash, block_hash);
}

#[test]
fn misbehaving_leaders_request_a_view_change() {
    let current = world_state();
    let mut state = State::new(&current);
    let block_hash = hash(5);
    let append = |transactions: Vec<SignedTransaction>, invalid: Vec<(usize, SignedTransaction)>, sigs: &[u64]| Append {
        metadata: metadata(block_hash),
        ackprepare_signatures: signatures(sigs),
        valid_transactions: transactions,
        invalid_transactions: invalid,
        timestamp: 0,
    };

    let out = handle_append_message(&mut state, &current, peer(1), append(vec![key_value(peer(10), "a")], vec![], &[1, 2, 3]), hash(6), &vec![true; 3], true, 0);
    assert_eq!(out.response, Err(Error::BlockNotMatchingHash));
    assert!(out.request_view_change);

    let out = handle_append_message(&mut state, &current, peer(1), append(vec![key_value(peer(10), "a")], vec![], &[1, 2]), block_hash, &vec![true; 2], true, 0);
    assert_eq!(out.response, Err(Error::NotEnoughSignatures));
    assert!(out.request_view_change);
    // The hash stays accepted for the round.
    assert_eq!(state.phase(), Phase::Prepare);

    let out = handle_append_message(&mut state, &current, peer(1), append(vec![], vec![], &[1, 2, 3]), block_hash, &vec![true; 3], true, 0);
    assert_eq!(out.response, Err(Error::EmptyBlock));

    let out = handle_append_message(&mut state, &current, peer(1), append(vec![key_value(peer(10), "a")], vec![(0, key_value(peer(10), "b"))], &[1, 2, 3]), block_hash, &vec![true; 3], true, 0);
    assert_eq!(out.response, Err(Error::CensorshipDetected(0)));
    assert!(out.request_view_change);

    let out = handle_append_message(&mut state, &current, peer(1), append(vec![key_value(peer(11), "a")], vec![], &[1, 2, 3]), block_hash, &vec![true; 3], true, 0);
    assert_eq!(out.response, Err(Error::Permission(PermissionError::WriteDenied(peer(11)))));

    let out = handle_append_message(&mut state, &current, peer(1), append(vec![key_value(peer(10), "a")], vec![], &[1, 1, 2]), block_hash, &vec![true; 3], true, 0);
    assert_eq!(out.response, Err(Error::DuplicateSignatures));

    let out = handle_append_message(&mut state, &current, peer(1), append(vec![key_value(peer(10), "a")], vec![], &[1, 2, 10]), block_hash, &vec![true; 3], true, 0);
    assert_eq!(out.response, Err(Error::Permission(PermissionError::NotAnRPU(peer(10)))));

    let out = handle_append_message(&mut state, &current, peer(1), append(vec![key_value(peer(10), "a")], vec![], &[1, 2, 3]), block_hash, &vec![true, false, true], true, 0);
    assert_eq!(out.response, Err(Error::InvalidSignature));
}

#[test]
fn stateful_validation_checks_positions() {
    let current = world_state();
    let valid = vec![key_value(peer(10), "a"), key_value(peer(10), "b")];
    assert_eq!(stateful_validate(&current, &valid, &vec![(1, key_value(peer(11), "x"))], true, 0), Ok(()));
    assert_eq!(stateful_validate(&current, &valid, &vec![(3, key_value(peer(11), "x"))], true, 0), Err(Error::BadInvalidTransactionIndex(2)));
    assert_eq!(stateful_validate(&current, &valid, &vec![], false, 0), Err(Error::InvalidSignature));
}

#[test]
fn commits_before_the_append_are_buffered() {
    let current = world_state();
    let mut state = State::new(&current);
    let block_hash = hash(5);
    let commit = Commit { metadata: metadata(block_hash), ackappend_signatures: signatures(&[2, 3, 4]) };
    let out = handle_commit_message(&mut state, &current, peer(1), commit, &vec![true; 3], 0);
    assert_eq!(out.response, Ok(()));
    assert!(out.committed.is_none());
    assert!(state.buffered_commit_message.is_some());

    let commit = Commit { metadata: metadata(hash(6)), ackappend_signatures: signatures(&[2, 3, 4]) };
    let out = handle_commit_message(&mut state, &current, peer(1), commit, &vec![true; 3], 0);
    assert_eq!(out.response, Err(Error::ChangedBlockHash));

    let append = Append {
        metadata: metadata(block_hash),
        ackprepare_signatures: signatures(&[1, 2, 3]),
        valid_transactions: vec![key_value(peer(10), "a")],
        invalid_transactions: vec![],
        timestamp: 0,
    };
    let out = handle_append_message(&mut state, &current, peer(1), append, block_hash, &vec![true; 3], true, 0);
    assert_eq!(out.response, Ok(metadata(block_hash)));
    let buffered = out.buffered_commit.unwrap();
    let out = handle_commit_message(&mut state, &current, peer(1), buffered, &vec![true; 3], 0);
    assert_eq!(out.response, Ok(()));
    assert!(out.committed.is_some());
    assert_eq!(state.block_number, BlockNumber(1));
}

#[test]
fn view_change_votes() {
    let current = world_state();
    let mut votes = view_change::State::new(view_change::RING_BUFFER_SIZE);
    let out = handle_view_change(&mut votes, &current, peer(1), signature(1), LeaderTerm(1));
    assert_eq!(out.response, Ok(()));
    assert!(!out.broadcast_view_change && !out.reached_supermajority);
    // A second vote of the same peer counts once.
    let out = handle_view_change(&mut votes, &current, peer(1), signature(1), LeaderTerm(1));
    assert!(!out.broadcast_view_change && !out.reached_supermajority);
    let out = handle_view_change(&mut votes, &current, peer(2), signature(2), LeaderTerm(1));
    assert!(out.broadcast_view_change && !out.reached_supermajority);
    let out = handle_view_change(&mut votes, &current, peer(3), signature(3), LeaderTerm(1));
    assert!(!out.broadcast_view_change && out.reached_supermajority);
    assert_eq!(votes.leader_term, LeaderTerm(1));
    assert!(votes.new_view_time.is_some());

    let out = handle_view_change(&mut votes, &current, peer(3), signature(3), LeaderTerm(1));
    assert_eq!(out.response, Err(Error::LeaderTermTooSmall(LeaderTerm(1))));
    let out = handle_view_change(&mut votes, &current, peer(3), signature(3), LeaderTerm(100));
    assert_eq!(out.response, Err(Error::LeaderTermTooBig(LeaderTerm(100))));

    // Only the leader of term 1 (peer 2) gets the `NewView` message, once.
    assert!(votes.get_new_view_message(&current, peer(1), BlockNumber(0)).is_none());
    let message = votes.get_new_view_message(&current, peer(2), BlockNumber(0)).unwrap();
    assert_eq!(message.leader_term, LeaderTerm(1));
    assert_eq!(message.view_change_signatures.len(), 3);
    assert!(votes.get_new_view_message(&current, peer(2), BlockNumber(0)).is_none());

    assert!(!votes.new_view_received(LeaderTerm(2)));
    assert!(votes.new_view_received(LeaderTerm(1)));
    assert!(votes.new_view_time.is_none());
    assert_eq!(votes.next_leader_term(), LeaderTerm(2));
    assert_eq!(new_view_time_left(400_000_000), Some(600_000_000));
    assert_eq!(new_view_time_left(1_000_000_001), None);
}

#[test]
fn new_views_change_the_leader_term() {
    let current = world_state();
    let mut state = State::new(&current);
    let mut votes = view_change::State::new(view_change::RING_BUFFER_SIZE);
    let new_view = |term: u64, sigs: &[u64]| NewView {
        leader_term: LeaderTerm(term),
        view_change_signatures: signatures(sigs),
        current_block_number: BlockNumber(0),
    };
    let out = handle_new_view_message(&mut state, &mut votes, &current, peer(1), new_view(0, &[1, 2, 3]), BlockOrder::Equal, &vec![true; 3], 0);
    assert_eq!(out.response, Err(Error::LeaderTermTooSmall(LeaderTerm(0))));
    let out = handle_new_view_message(&mut state, &mut votes, &current, peer(3), new_view(1, &[1, 2, 3]), BlockOrder::Equal, &vec![true; 3], 0);
    assert_eq!(out.response, Err(Error::WrongLeader(peer(3))));
    let out = handle_new_view_message(&mut state, &mut votes, &current, peer(2), new_view(1, &[1, 2]), BlockOrder::Equal, &vec![true; 2], 0);
    assert_eq!(out.response, Err(Error::NotEnoughSignatures));
    let out = handle_new_view_message(&mut state, &mut votes, &current, peer(2), new_view(1, &[1, 2, 3]), BlockOrder::Less, &vec![true; 3], 0);
    assert_eq!(out.request_view_change, Some(LeaderTerm(1)));
    assert_eq!(state.leader_term, LeaderTerm(0));
    let out = handle_new_view_message(&mut state, &mut votes, &current, peer(2), new_view(1, &[1, 2, 3]), BlockOrder::Equal, &vec![true; 3], 0);
    assert_eq!(out.response, Ok(()));
    assert!(out.notify_leader);
    assert!(!out.notify_new_view);
    assert_eq!(state.leader_term, LeaderTerm(1));
    assert!(state.rollback_possible);
    assert_eq!(compare_block_numbers(BlockNumber(3), BlockNumber(4)), BlockOrder::Less);
    assert_eq!(compare_block_numbers(BlockNumber(5), BlockNumber(4)), BlockOrder::Greater);
}

#[test]
fn synchronization_decisions() {
    let current = world_state();
    let state = State::new(&current);
    assert!(!is_synchronization_needed(&state, LeaderTerm(0), BlockNumber(2)));
    assert!(is_synchronization_needed(&state, LeaderTerm(0), BlockNumber(3)));
    assert!(is_synchronization_needed(&state, LeaderTerm(1), BlockNumber(0)));
    for _ in 0..20 {
        let address = choose_synchronization_peer(&current, peer(1));
        assert_ne!(address, "127.0.0.1:2481");
        assert!(address.starts_with("127.0.0.1:248"));
    }
    assert_eq!(peer_address(&current, peer(3)), Ok("127.0.0.1:2483".to_string()));
    assert_eq!(peer_address(&current, peer(9)), Err(Error::InvalidPeer(peer(9))));

    let request = SynchronizationRequest { leader_term: LeaderTerm(0), block_number: BlockNumber(3), block_hash: hash(2) };
    assert!(synchronization_new_view(&state, &request).is_none());
    assert_eq!(synchronization_start(&request), BlockNumber(2));
    let request0 = SynchronizationRequest { leader_term: LeaderTerm(4), block_number: BlockNumber(0), block_hash: hash(2) };
    assert_eq!(synchronization_start(&request0), BlockNumber(0));
    assert_eq!(synchronization_new_view(&state, &request0).unwrap().0, LeaderTerm(0));
    assert_eq!(synchronization_blocks(&request, Vec::new(), hash(2)).len(), 0);
}

#[test]
fn leaders_build_blocks_from_the_queue() {
    let mut queue = Queue::new();
    assert!(!take_transactions(&mut queue, vec![key_value(peer(10), "a"), key_value(peer(10), "b")]));
    let taken = take_block_transactions(&mut queue);
    assert_eq!(taken.len(), 2);
    assert!(queue.is_empty());
    assert_eq!(min_block_size(false), MAX_TRANSACTIONS_PER_BLOCK);
    assert_eq!(min_block_size(true), 1);

    let mut leader = Leader::new();
    let prepare = leader.prepare(hash(1));
    assert_eq!(prepare.metadata, metadata(hash(1)));
    let body = leader.body_with(taken);
    assert_eq!(body.transactions.len(), 2);
    leader.committed(hash(1));
    assert_eq!(leader.block_number, BlockNumber(1));
    assert_eq!(leader.last_block_hash, hash(1));
    let current = world_state();
    assert!(leader.is_current_leader(&current, peer(1)));
    leader.end_leader_term();
    assert!(leader.is_current_leader(&current, peer(2)));
}

#[test]
fn view_change_vote_for_term_zero_is_counted() {
    let current = world_state();
    let mut votes = view_change::State::new(view_change::RING_BUFFER_SIZE);
    let out = handle_view_change(&mut votes, &current, peer(1), signature(1), LeaderTerm(0));
    assert_eq!(out.response, Ok(()));
    assert!(!out.broadcast_view_change && !out.reached_supermajority);
    assert_eq!(votes.leader_term, LeaderTerm(0));
}

#[test]
fn leaders_repeat_after_a_round() {
    let world_state = world_state();
    for term in 0..8u64 {
        assert_eq!(leader(&world_state, LeaderTerm(term + 4)), leader(&world_state, LeaderTerm(term)));
    }
}

#[test]
fn early_refusals_need_no_quorum() {
    // With two peers no quorum can be counted, but a message refused before
    // the signature check is answered all the same.
    let mut small = WorldState::new();
    for n in 1..=2 {
        small.insert_account(peer(n), rpu());
        small.add_peer((peer(n), format!("127.0.0.1:{}", 2480 + n)));
    }
    let mut state = State::new(&small);
    let mut votes = view_change::State::new(view_change::RING_BUFFER_SIZE);
    let message = NewView { leader_term: LeaderTerm(0), view_change_signatures: signatures(&[1, 2]), current_block_number: BlockNumber(0) };
    let out = handle_new_view_message(&mut state, &mut votes, &small, peer(1), message, BlockOrder::Equal, &vec![true; 2], 0);
    assert_eq!(out.response, Err(Error::LeaderTermTooSmall(LeaderTerm(0))));
    let out = handle_view_change(&mut votes, &small, peer(1), signature(1), LeaderTerm(100));
    assert_eq!(out.response, Err(Error::LeaderTermTooBig(LeaderTerm(100))));
}

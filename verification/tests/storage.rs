use prellblock::block::{Block, Body};
use prellblock::block_storage::{
    block_key, check_next_block, map_bound, map_range_bound, select_series, system_times_from_bytes,
    system_times_to_bytes, time_series_name, Bound, Error, Query, Span,
};
use prellblock::signature_list::SignatureList;
use prellblock::time::{split_timestamp, system_time_from_bytes, system_time_to_bytes};
use prellblock::types::{BlockHash, BlockNumber, Bytes32, LeaderTerm, PeerId};

fn block(height: u64, prev: BlockHash) -> Block {
    Block {
        body: Body {
            leader_term: LeaderTerm(0),
            height: BlockNumber(height),
            prev_block_hash: prev,
            transactions: Vec::new(),
        },
        signatures: SignatureList::default(),
    }
}

fn hash(n: u64) -> BlockHash {
    BlockHash(Bytes32(n, n, n, n))
}

#[test]
fn first_block_follows_the_empty_chain() {
    assert_eq!(check_next_block(None, &block(0, BlockHash::default())), Ok(()));
    assert_eq!(check_next_block(None, &block(1, BlockHash::default())), Err(Error::BlockHeightDoesNotFit));
    assert_eq!(check_next_block(None, &block(0, hash(1))), Err(Error::BlockHashDoesNotMatch));
}

#[test]
fn next_block_follows_the_last_one() {
    let last = Some((hash(7), BlockNumber(4)));
    assert_eq!(check_next_block(last, &block(5, hash(7))), Ok(()));
    assert_eq!(check_next_block(last, &block(6, hash(7))), Err(Error::BlockHeightDoesNotFit));
    assert_eq!(check_next_block(last, &block(5, hash(8))), Err(Error::BlockHashDoesNotMatch));
}

#[test]
fn blocks_are_keyed_by_big_endian_number() {
    assert_eq!(block_key(&block(0x0102, hash(0))), [0, 0, 0, 0, 0, 0, 1, 2]);
}

#[test]
fn time_series_names_join_peer_and_key() {
    let peer = PeerId(Bytes32(1, 2, 3, 4));
    let name = time_series_name(&peer, b"speed");
    assert_eq!(name.len(), 32 + 1 + 5);
    assert_eq!(&name[0..8], &[0, 0, 0, 0, 0, 0, 0, 1]);
    assert_eq!(&name[24..32], &[0, 0, 0, 0, 0, 0, 0, 4]);
    assert_eq!(name[32], 0);
    assert_eq!(&name[33..], b"speed");
    assert_eq!(Bytes32::from_bytes(&name[0..32]), Bytes32(1, 2, 3, 4));
}

#[test]
fn system_times_roundtrip() {
    let bytes = system_times_to_bytes(-5, 1_600_000_000_000_000_000);
    assert_eq!(bytes.len(), 16);
    assert_eq!(&bytes[0..8], &[0xff, 0xff, 0xff, 0xff, 0xff, 0xff, 0xff, 0xfb]);
    assert_eq!(system_times_from_bytes(&bytes), (-5, 1_600_000_000_000_000_000));
    assert_eq!(system_time_from_bytes(&system_time_to_bytes(i64::MIN)), i64::MIN);
    assert_eq!(system_time_to_bytes(1), [0, 0, 0, 0, 0, 0, 0, 1]);
}

#[test]
fn timestamps_split_at_the_epoch() {
    assert_eq!(split_timestamp(5), (false, 5));
    assert_eq!(split_timestamp(-5), (true, 5));
    assert_eq!(split_timestamp(i64::MIN), (true, 1u64 << 63));
}

#[test]
fn current_value_is_the_newest() {
    let keys = vec![10, 20, 30];
    assert_eq!(select_series(&keys, &Query::CurrentValue, 0), [2]);
    assert_eq!(select_series(&Vec::new(), &Query::CurrentValue, 0), Vec::<usize>::new());
}

#[test]
fn all_values_are_selected() {
    let keys = vec![10, 20, 30];
    assert_eq!(select_series(&keys, &Query::AllValues, 0), [0, 1, 2]);
}

#[test]
fn range_of_a_count_from_the_end() {
    let keys = vec![10, 20, 30, 40, 50];
    let query = Query::Range { span: Span::Count(2), end: Span::Count(1), skip: None };
    assert_eq!(select_series(&keys, &query, 0), [3, 2]);
    let query = Query::Range { span: Span::Count(10), end: Span::Count(0), skip: Some(Span::Count(1)) };
    assert_eq!(select_series(&keys, &query, 0), [4, 2, 0]);
    let query = Query::Range { span: Span::Count(2), end: Span::Count(9), skip: None };
    assert_eq!(select_series(&keys, &query, 0), Vec::<usize>::new());
}

#[test]
fn range_back_to_a_time() {
    let keys = vec![10, 20, 30, 40, 50];
    let query = Query::Range { span: Span::Time(20), end: Span::Time(45), skip: None };
    assert_eq!(select_series(&keys, &query, 0), [3, 2, 1]);
    let query = Query::Range { span: Span::Time(0), end: Span::Duration(15), skip: None };
    assert_eq!(select_series(&keys, &query, 50), [2, 1, 0]);
}

#[test]
fn range_over_a_duration_with_skips() {
    let keys = vec![10, 20, 30, 40, 50];
    let query = Query::Range { span: Span::Duration(25), end: Span::Count(0), skip: None };
    assert_eq!(select_series(&keys, &query, 0), [4, 3, 2]);
    let query = Query::Range { span: Span::Count(5), end: Span::Count(0), skip: Some(Span::Duration(15)) };
    assert_eq!(select_series(&keys, &query, 0), [4, 2, 0]);
}

#[test]
fn bounds_are_mapped() {
    assert_eq!(map_bound(Bound::Included(2), |v: u32| v * 10), Bound::Included(20));
    assert_eq!(map_bound(Bound::Excluded(3), |v: u32| v + 1), Bound::Excluded(4));
    assert_eq!(map_bound(Bound::<u32>::Unbounded, |v: u32| v), Bound::Unbounded);
    let (start, end) = (5u64, 9u64);
    let mapped = map_range_bound(Bound::Included(&start), Bound::Excluded(&end), |v: &u64| v.to_be_bytes());
    assert_eq!(mapped, (Bound::Included(5u64.to_be_bytes()), Bound::Excluded(9u64.to_be_bytes())));
}

#[test]
fn time_keys_order_as_the_times() {
    let times: [i64; 6] = [0, 1, 255, 256, 65_536, 1_600_000_000_000_000_000];
    for a in times {
        for b in times {
            let (ka, kb) = (system_time_to_bytes(a), system_time_to_bytes(b));
            assert_eq!(ka.len(), 8);
            assert_eq!(a < b, ka < kb);
            assert_eq!(a == b, ka == kb);
        }
    }
}

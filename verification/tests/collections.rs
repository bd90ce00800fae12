use prellblock::flatten_vec::FlattenVec;
use prellblock::queue::Queue;
use prellblock::ring_buffer::{Error as RingError, RingBuffer};
use prellblock::signature_list::SignatureList;
use prellblock::types::{Bytes32, PeerId, Signature};

#[test]
fn queue_removes_first_match_and_keeps_order() {
    let mut queue = Queue::default();
    queue.insert(4);
    queue.insert(1);
    queue.insert(3);
    queue.insert(2);

    let removed = queue.remove(&3).unwrap();
    assert_eq!(*removed.item(), 3);
    assert!(queue.remove(&3).is_none());

    let _ = queue.peek().unwrap().inserted().elapsed();

    let mut data = Vec::new();
    while let Some(item) = queue.next() {
        data.push(item);
    }
    assert_eq!(data, [4, 1, 2]);
}

#[test]
fn queue_is_first_in_first_out() {
    let mut queue = Queue::new();
    assert!(queue.is_empty());
    queue.extend(vec![10, 20]);
    queue.insert(30);
    assert_eq!(queue.len(), 3);
    assert_eq!(*queue.peek().unwrap().item(), 10);
    assert_eq!(queue.next(), Some(10));
    assert_eq!(queue.next(), Some(20));
    assert_eq!(queue.next(), Some(30));
    assert_eq!(queue.next(), None);
}

#[test]
fn queue_remove_all_reports_found_entries() {
    let mut queue = Queue::new();
    queue.extend(vec![1, 2, 3, 2]);
    let removed = queue.remove_all(&vec![2, 5, 2]);
    let removed: Vec<i32> = removed.into_iter().map(|entry| entry.into_item()).collect();
    assert_eq!(removed, [2, 2]);
    assert_eq!(queue.len(), 2);
    assert_eq!(queue.next(), Some(1));
    assert_eq!(queue.next(), Some(3));
}

#[test]
fn ring_buffer_windows() {
    let mut buffer = RingBuffer::new(0u32, 3, 5);
    assert_eq!(buffer.start(), 5);
    assert_eq!(buffer.end(), 8);
    assert_eq!(buffer.get(4), Err(RingError::RingbufferUnderflow(4)));
    assert_eq!(buffer.get(8), Err(RingError::RingbufferOverflow(8)));
    *buffer.get_mut(6).unwrap() = 66;
    assert_eq!(buffer.get(6), Ok(&66));
    assert!(buffer.get_mut(9).is_err());
}

#[test]
fn ring_buffer_decrement_undoes_increment() {
    let mut buffer = RingBuffer::new(0u32, 3, 0);
    *buffer.get_mut(0).unwrap() = 10;
    *buffer.get_mut(1).unwrap() = 11;
    *buffer.get_mut(2).unwrap() = 12;
    let first = buffer.increment(13);
    assert_eq!(first, 10);
    assert_eq!(buffer.start(), 1);
    assert_eq!(buffer.get(3), Ok(&13));
    let last = buffer.decrement(first);
    assert_eq!(last, 13);
    assert_eq!(buffer.start(), 0);
    assert_eq!(buffer.get(0), Ok(&10));
    assert_eq!(buffer.get(1), Ok(&11));
    assert_eq!(buffer.get(2), Ok(&12));
}

#[test]
fn ring_buffer_increment_to_fills_new_indices() {
    let mut buffer = RingBuffer::new(0u32, 4, 0);
    *buffer.get_mut(2).unwrap() = 2;
    *buffer.get_mut(3).unwrap() = 3;
    buffer.increment_to(2, 9);
    assert_eq!(buffer.start(), 2);
    assert_eq!(buffer.get(2), Ok(&2));
    assert_eq!(buffer.get(3), Ok(&3));
    assert_eq!(buffer.get(4), Ok(&9));
    assert_eq!(buffer.get(5), Ok(&9));
    buffer.increment_to(1, 7);
    assert_eq!(buffer.start(), 2);
}

#[test]
fn flatten_vec_yields_in_order() {
    let mut vec = FlattenVec::new();
    vec.push(vec![1, 2]);
    vec.push(vec![]);
    vec.push(vec![3]);
    assert_eq!(vec.len(), 3);
    assert_eq!(vec.next(), Some(1));
    assert_eq!(vec.len(), 2);
    assert_eq!(vec.next(), Some(2));
    assert_eq!(vec.next(), Some(3));
    assert_eq!(vec.next(), None);
    assert_eq!(vec.len(), 0);
}

fn peer(n: u64) -> PeerId {
    PeerId(Bytes32(n, 0, 0, 0))
}

fn signature(n: u64) -> Signature {
    Signature(Bytes32(n, 1, 2, 3), Bytes32(0, 0, 0, n))
}

#[test]
fn signature_list_replaces_second_signature_of_a_peer() {
    let mut list = SignatureList::default();
    assert_eq!(list.insert(peer(1), signature(1)), None);
    assert_eq!(list.insert(peer(2), signature(2)), None);
    assert_eq!(list.insert(peer(1), signature(3)), Some(signature(1)));
    assert_eq!(list.len(), 2);
    assert_eq!(list.get(0), (peer(1), signature(3)));
    assert!(list.contains(&peer(2)));
    assert!(!list.contains(&peer(3)));
    assert!(list.is_unique());
    list.push((peer(2), signature(4)));
    assert!(!list.is_unique());
}

#[test]
fn queue_len_counts_added_minus_taken() {
    let mut queue = Queue::new();
    queue.insert(1u64);
    queue.extend(vec![2, 3, 4]);
    assert_eq!(queue.len(), 4);
    assert_eq!(queue.next(), Some(1));
    assert!(queue.remove(&3).is_some());
    assert!(queue.remove(&9).is_none());
    assert_eq!(queue.remove_all(&vec![2, 7]).len(), 1);
    assert_eq!(queue.len(), 1);
    assert!(!queue.is_empty());
    assert_eq!(queue.next(), Some(4));
    assert!(queue.is_empty());
}

#[test]
fn ring_buffer_window_keeps_its_size() {
    let mut buffer = RingBuffer::new(0u64, 3, 5);
    assert_eq!(buffer.end() - buffer.start(), 3);
    buffer.increment(1);
    buffer.increment_to(9, 2);
    buffer.decrement(3);
    *buffer.get_mut(9).unwrap() = 4;
    assert_eq!(buffer.start(), 8);
    assert_eq!(buffer.end() - buffer.start(), 3);
}

#[test]
fn flatten_vec_skips_empty_vectors() {
    let mut v = FlattenVec::new();
    v.push(vec![1u64, 2]);
    v.push(vec![]);
    assert_eq!(v.next(), Some(1));
    v.push(vec![3]);
    assert_eq!(v.len(), 2);
    assert_eq!(v.next(), Some(2));
    assert_eq!(v.next(), Some(3));
    assert_eq!(v.len(), 0);
    assert_eq!(v.next(), None);
}

use seqtools::flatmap::FlatMap;
use seqtools::lru_cache::LRUCache;
use seqtools::min_queue::MinQueue;
use seqtools::mpsc::{channel, Channel, ReceiveError};

#[test]
fn flatmap_insert_get_and_replace() {
    let mut map: FlatMap<&str> = FlatMap::new();
    assert!(map.is_empty());
    assert_eq!(map.insert(3, "three"), None);
    assert_eq!(map.insert(1, "one"), None);
    assert_eq!(map.insert(2, "two"), None);
    assert_eq!(map.len(), 3);
    assert!(!map.is_empty());
    assert!(map.capacity() >= 3);
    assert_eq!(map.get(2), Some(&"two"));
    assert_eq!(map.get(4), None);
    assert_eq!(map.insert(2, "deux"), Some("two"));
    assert_eq!(map.len(), 3);
    assert_eq!(map.get(2), Some(&"deux"));
}

#[test]
fn flatmap_keeps_entries_sorted() {
    let mut map: FlatMap<u32> = FlatMap::new();
    map.insert(30, 1);
    map.insert(10, 2);
    map.insert(20, 3);
    let keys: Vec<u64> = map.as_slice().iter().map(|e| e.0).collect();
    assert_eq!(keys, vec![10, 20, 30]);
}

#[test]
fn flatmap_remove_and_remove_entry() {
    let mut map: FlatMap<u32> = FlatMap::new();
    map.insert(1, 11);
    map.insert(2, 22);
    assert_eq!(map.remove(3), None);
    assert_eq!(map.remove(1), Some(11));
    assert_eq!(map.len(), 1);
    assert_eq!(map.remove_entry(2), Some((2, 22)));
    assert!(map.is_empty());
    assert_eq!(map.remove_entry(2), None);
}

#[test]
fn lru_cache_evicts_least_recently_used() {
    let mut cache: LRUCache<&str> = LRUCache::new(2);
    assert_eq!(cache.insert(1, "one"), None);
    assert_eq!(cache.insert(2, "two"), None);
    // touch 1, so 2 becomes the least recently used
    assert_eq!(cache.get(1), Some(&"one"));
    assert_eq!(cache.insert(3, "three"), None);
    assert_eq!(cache.get(2), None);
    assert_eq!(cache.get(1), Some(&"one"));
    assert_eq!(cache.get(3), Some(&"three"));
}

#[test]
fn lru_cache_insert_returns_the_old_value() {
    let mut cache: LRUCache<u32> = LRUCache::new(3);
    assert_eq!(cache.insert(7, 70), None);
    assert_eq!(cache.insert(7, 71), Some(70));
    assert_eq!(cache.get(7), Some(&71));
    assert_eq!(cache.get(8), None);
}

#[test]
fn min_queue_tracks_the_minimum() {
    let mut q = MinQueue::new();
    assert!(q.is_empty());
    assert_eq!(q.min(), None);
    assert_eq!(q.front(), None);
    assert_eq!(q.pop(), None);
    q.push(4);
    q.push(2);
    q.push(7);
    assert_eq!(q.len(), 3);
    assert_eq!(q.front(), Some(4));
    assert_eq!(q.min(), Some(2));
    assert_eq!(q.pop(), Some(4));
    assert_eq!(q.min(), Some(2));
    assert_eq!(q.pop(), Some(2));
    assert_eq!(q.min(), Some(7));
    assert_eq!(q.pop(), Some(7));
    assert_eq!(q.pop(), None);
    assert!(q.is_empty());
}

#[test]
fn channel_delivers_in_order() {
    let mut ch: Channel<u32> = channel();
    assert!(!ch.is_closed());
    assert!(ch.send(1).is_ok());
    assert!(ch.send(2).is_ok());
    assert_eq!(ch.recv(), Ok(1));
    assert_eq!(ch.recv(), Ok(2));
    assert_eq!(ch.recv(), Err(ReceiveError::Empty));
}

#[test]
fn channel_send_after_close_fails_with_the_value() {
    let mut ch: Channel<u32> = channel();
    assert!(ch.send(1).is_ok());
    ch.close();
    assert!(ch.is_closed());
    let err = ch.send(2).unwrap_err();
    assert_eq!(err.value, 2);
    // what was queued before the close is still delivered
    assert_eq!(ch.recv(), Ok(1));
    assert_eq!(ch.recv(), Err(ReceiveError::Closed));
}

#[test]
fn channel_reports_closed_once_no_sender_is_left() {
    let mut ch: Channel<u32> = channel();
    assert_eq!(ch.recv(), Err(ReceiveError::Empty));
    ch.sender_attached();
    ch.sender_detached();
    assert_eq!(ch.recv(), Err(ReceiveError::Empty));
    ch.sender_detached();
    assert_eq!(ch.recv(), Err(ReceiveError::Closed));
}

#[test]
fn flatmap_from_vec_and_back() {
    let map = FlatMap::from_vec(vec![(2, "b"), (1, "a"), (2, "c")]);
    assert_eq!(map.len(), 2);
    assert_eq!(map.get(2), Some(&"c"));
    assert_eq!(map.into_vec(), vec![(1, "a"), (2, "c")]);
}

#[test]
fn flatmap_extend_with_overrides_in_order() {
    let mut map: FlatMap<u32> = FlatMap::new();
    map.insert(5, 50);
    map.extend_with(vec![(4, 40), (5, 51)]);
    assert_eq!(map.get(4), Some(&40));
    assert_eq!(map.get(5), Some(&51));
}

#[test]
fn channel_counts_its_senders() {
    let mut ch: Channel<u8> = channel();
    assert_eq!(ch.senders(), 1);
    ch.sender_attached();
    assert_eq!(ch.senders(), 2);
    ch.sender_detached();
    ch.sender_detached();
    ch.sender_detached();
    assert_eq!(ch.senders(), 0);
}

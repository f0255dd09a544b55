use chat_feed::message::InboundMessage;
use chat_feed::message::MessageRecord;
use chat_feed::message::Timestamp;
use chat_feed::store::MessageStore;
use chat_feed::store::DEFAULT_CAPACITY;
use chat_feed::store::MAX_CAPACITY;

fn record(id: u64) -> MessageRecord {
    MessageRecord::from_inbound(&InboundMessage {
        id,
        author: format!("author{}", id),
        channel_id: 1,
        channel_name: None,
        content: format!("message {}", id),
        created_at: Timestamp::new(1_000 + id as i64, 0).unwrap(),
        edited_at: None,
        permalink: format!("https://chat.example/{}", id),
    })
}

fn ids(records: &Vec<MessageRecord>) -> Vec<String> {
    records.iter().map(|r| r.id().to_string()).collect()
}

fn numerals(from: u64, to: u64) -> Vec<String> {
    (from..to).map(|n| n.to_string()).collect()
}

#[test]
fn new_store_is_empty_with_default_capacity() {
    let store = MessageStore::new();
    assert_eq!(DEFAULT_CAPACITY, 32);
    assert_eq!(store.capacity(), 32);
    assert!(store.snapshot().is_empty());
}

#[test]
fn capacity_must_be_a_power_of_two_in_range() {
    for capacity in [1usize, 2, 4, 8, 32, 1024, 65_536] {
        let store = MessageStore::with_capacity(capacity).unwrap();
        assert_eq!(store.capacity(), capacity);
        assert!(store.snapshot().is_empty());
    }
    assert_eq!(MAX_CAPACITY, 65_536);
    for capacity in [0usize, 3, 5, 6, 7, 12, 31, 33, 100, 65_535, 65_537, 131_072, usize::MAX] {
        assert!(MessageStore::with_capacity(capacity).is_none());
    }
}

#[test]
fn push_below_capacity_keeps_everything_in_order() {
    let mut store = MessageStore::with_capacity(4).unwrap();
    store.push(record(1));
    store.push(record(2));
    store.push(record(3));
    assert_eq!(ids(&store.snapshot()), numerals(1, 4));
    assert_eq!(store.capacity(), 4);
}

#[test]
fn bounded_eviction_keeps_the_latest_capacity_records() {
    for capacity in [1usize, 2, 4, 8] {
        for k in 0..10u64 {
            let mut store = MessageStore::with_capacity(capacity).unwrap();
            let total = capacity as u64 + k;
            for id in 0..total {
                store.push(record(id));
            }
            let kept = store.snapshot();
            assert_eq!(kept.len(), capacity);
            assert_eq!(ids(&kept), numerals(k, total));
            assert_eq!(store.capacity(), capacity);
        }
    }
}

#[test]
fn eviction_removes_one_record_at_a_time() {
    let mut store = MessageStore::with_capacity(2).unwrap();
    store.push(record(1));
    assert_eq!(ids(&store.snapshot()), numerals(1, 2));
    store.push(record(2));
    assert_eq!(ids(&store.snapshot()), numerals(1, 3));
    store.push(record(3));
    assert_eq!(ids(&store.snapshot()), numerals(2, 4));
    store.push(record(4));
    assert_eq!(ids(&store.snapshot()), numerals(3, 5));
}

#[test]
fn default_store_keeps_thirty_two() {
    let mut store = MessageStore::new();
    for id in 0..40 {
        store.push(record(id));
    }
    assert_eq!(ids(&store.snapshot()), numerals(8, 40));
}

#[test]
fn extend_pushes_in_order() {
    let mut store = MessageStore::with_capacity(4).unwrap();
    store.push(record(1));
    store.extend(vec![record(2), record(3)]);
    assert_eq!(ids(&store.snapshot()), numerals(1, 4));
    store.extend((4..10).map(record).collect());
    assert_eq!(ids(&store.snapshot()), numerals(6, 10));
    store.extend(Vec::new());
    assert_eq!(ids(&store.snapshot()), numerals(6, 10));
}

#[test]
fn snapshot_is_an_independent_copy() {
    let mut store = MessageStore::with_capacity(2).unwrap();
    store.push(record(1));
    store.push(record(2));
    let before = store.snapshot();
    store.push(record(3));
    store.push(record(4));
    assert_eq!(ids(&before), numerals(1, 3));
    assert_eq!(ids(&store.snapshot()), numerals(3, 5));
    let mut taken = store.snapshot();
    taken.clear();
    assert_eq!(ids(&store.snapshot()), numerals(3, 5));
}

#[test]
fn snapshot_holds_whole_records() {
    let mut store = MessageStore::new();
    store.push(record(5));
    let kept = store.snapshot();
    let expected = record(5);
    assert_eq!(kept.len(), 1);
    assert_eq!(kept[0].id(), expected.id());
    assert_eq!(kept[0].author(), "author5");
    assert_eq!(kept[0].channel_name(), "Unknown Channel");
    assert_eq!(kept[0].content(), "<pre>message 5</pre>");
    assert_eq!(kept[0].created_at(), expected.created_at());
    assert_eq!(kept[0].edited_at(), expected.created_at());
    assert_eq!(kept[0].permalink(), "https://chat.example/5");
}

#[test]
fn snapshots_between_pushes_are_states_of_the_push_sequence() {
    let mut store = MessageStore::with_capacity(4).unwrap();
    for pushed in 0..12u64 {
        let seen = ids(&store.snapshot());
        let first = pushed.saturating_sub(4);
        assert_eq!(seen, numerals(first, pushed));
        store.push(record(pushed));
    }
}

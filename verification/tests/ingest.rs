use chat_feed::ingest::IngestionAdapter;
use chat_feed::ingest::BACKLOG_LIMIT;
use chat_feed::message::InboundMessage;
use chat_feed::message::MessageRecord;
use chat_feed::message::Timestamp;
use chat_feed::store::MessageStore;

fn inbound(id: u64, channel_id: u64) -> InboundMessage {
    InboundMessage {
        id,
        author: "alice".to_string(),
        channel_id,
        channel_name: None,
        content: format!("message {}", id),
        created_at: Timestamp::new(id as i64, 0).unwrap(),
        edited_at: None,
        permalink: format!("https://chat.example/{}/{}", channel_id, id),
    }
}

fn ids(records: &Vec<MessageRecord>) -> Vec<String> {
    records.iter().map(|r| r.id().to_string()).collect()
}

#[test]
fn backlog_limit_is_twenty() {
    assert_eq!(BACKLOG_LIMIT, 20);
}

#[test]
fn adapter_keeps_its_channel() {
    assert_eq!(IngestionAdapter::new(77).channel_id(), 77);
    assert_eq!(IngestionAdapter::new(u64::MAX).channel_id(), u64::MAX);
}

#[test]
fn message_of_the_configured_channel_is_recorded() {
    let adapter = IngestionAdapter::new(7);
    let message = inbound(5, 7);
    assert!(adapter.accepts(&message));
    let record = adapter.on_message(&message).unwrap();
    assert_eq!(record.id(), "5");
    assert_eq!(record.content(), "<pre>message 5</pre>");
    assert_eq!(record.channel_name(), "Unknown Channel");
    assert_eq!(record.permalink(), "https://chat.example/7/5");
}

#[test]
fn message_of_another_channel_is_ignored() {
    let adapter = IngestionAdapter::new(7);
    let message = inbound(5, 8);
    assert!(!adapter.accepts(&message));
    assert!(adapter.on_message(&message).is_none());
    assert!(adapter.on_message(&inbound(5, 0)).is_none());
}

#[test]
fn backlog_is_pushed_oldest_first() {
    let adapter = IngestionAdapter::new(7);
    let newest_first = vec![inbound(30, 7), inbound(20, 7), inbound(10, 7)];
    let records = adapter.on_ready(&newest_first);
    assert_eq!(ids(&records), vec!["10", "20", "30"]);
    let mut store = MessageStore::new();
    store.extend(records);
    assert_eq!(ids(&store.snapshot()), vec!["10", "20", "30"]);
}

#[test]
fn empty_backlog_gives_no_records() {
    let adapter = IngestionAdapter::new(7);
    assert!(adapter.on_ready(&Vec::new()).is_empty());
}

#[test]
fn backlog_after_reconnect_adds_to_what_is_kept() {
    let adapter = IngestionAdapter::new(7);
    let mut store = MessageStore::with_capacity(4).unwrap();
    store.extend(adapter.on_ready(&vec![inbound(2, 7), inbound(1, 7)]));
    if let Some(record) = adapter.on_message(&inbound(3, 7)) {
        store.push(record);
    }
    if let Some(record) = adapter.on_message(&inbound(99, 8)) {
        store.push(record);
    }
    store.extend(adapter.on_ready(&vec![inbound(5, 7), inbound(4, 7), inbound(3, 7)]));
    assert_eq!(ids(&store.snapshot()), vec!["3", "3", "4", "5"]);
}

#[test]
fn full_backlog_fits_the_default_store() {
    let adapter = IngestionAdapter::new(7);
    let newest_first: Vec<InboundMessage> =
        (0..BACKLOG_LIMIT).rev().map(|id| inbound(id, 7)).collect();
    let mut store = MessageStore::new();
    store.extend(adapter.on_ready(&newest_first));
    let expected: Vec<String> = (0..BACKLOG_LIMIT).map(|id| id.to_string()).collect();
    assert_eq!(ids(&store.snapshot()), expected);
}

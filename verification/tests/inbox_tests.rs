use swarm::inbox::{format_time_ago, InboxItem, Sender};
use swarm::imessage;
use swarm::imessage::{IMessageSource, MessageRecord};

#[test]
fn test_inbox_item_creation() {
    let sender = Sender::new("Steven", "+1234567890");
    let item = InboxItem::new("msg_123", "imessage", "Hello world", sender);

    assert_eq!(item.id, "msg_123");
    assert_eq!(item.source, "imessage");
    assert_eq!(item.content, "Hello world");
    assert!(!item.read);
}

#[test]
fn test_sender_label_regular() {
    let sender = Sender::new("Steven", "+1234567890");
    let item = InboxItem::new("msg_123", "imessage", "Hello", sender);

    assert_eq!(item.sender_label(), "Steven");
}

#[test]
fn test_sender_label_group() {
    let sender = Sender::new("Steven", "+1234567890");
    let mut item = InboxItem::new("msg_123", "imessage", "Hello", sender);
    item.metadata.is_group = true;
    item.metadata.group_name = Some("Engineering".to_string());

    assert_eq!(item.sender_label(), "Group: Engineering");
}

#[test]
fn test_preview_truncation() {
    let sender = Sender::new("Steven", "+1234567890");
    let item = InboxItem::new(
        "msg_123",
        "imessage",
        "This is a very long message that should be truncated",
        sender,
    );

    assert_eq!(item.preview(20), "This is a very lo...");
    assert_eq!(
        item.preview(100),
        "This is a very long message that should be truncated"
    );
}

#[test]
fn test_format_time_ago() {
    let now: i64 = 1_700_000_000;

    assert_eq!(imessage::format_time_ago(now, now), "just now");

    let five_mins_ago = now - 5 * 60;
    assert_eq!(imessage::format_time_ago(five_mins_ago, now), "5 minutes ago");

    let one_hour_ago = now - 3600;
    assert_eq!(imessage::format_time_ago(one_hour_ago, now), "1 hour ago");

    let two_days_ago = now - 2 * 86400;
    assert_eq!(imessage::format_time_ago(two_days_ago, now), "2 days ago");
}

#[test]
fn test_format_time_ago_compact() {
    let now: i64 = 1_700_000_000;
    assert_eq!(format_time_ago(now - 30, now), "just now");
    assert_eq!(format_time_ago(now - 120, now), "2m ago");
    assert_eq!(format_time_ago(now - 7200, now), "2h ago");
    assert_eq!(format_time_ago(now - 3 * 86400, now), "3d ago");
}

#[test]
fn test_item_context_lookup() {
    let sender = Sender::new("Steven", "+1234567890");
    let item = InboxItem::new("msg_1", "imessage", "Hi", sender)
        .with_context("handle", "+1234567890")
        .with_context("handle", "+1999");
    assert_eq!(item.context_str("handle"), Some("+1999".to_string()));
    assert_eq!(item.context_str("missing"), None);
}

#[test]
fn test_message_to_item_basic() {
    let source = IMessageSource::new("/usr/local/bin/imsg");
    let msg = MessageRecord {
        guid: "g1".to_string(),
        text: Some("Hello".to_string()),
        sender: Some("+15550001111".to_string()),
        is_from_me: false,
        created_at: Some(1_700_000_000),
        chat_id: 42,
    };
    let item = source.message_to_item(msg, None, 1_700_000_500).unwrap();
    assert_eq!(item.id, "g1");
    assert_eq!(item.content, "Hello");
    assert_eq!(item.timestamp, 1_700_000_000);
    assert_eq!(item.sender.display_name, "+15550001111");
    assert!(!item.metadata.is_group);
    assert_eq!(item.context_str("chat_id"), Some("42".to_string()));
    assert_eq!(item.context_str("handle"), Some("+15550001111".to_string()));
}

#[test]
fn test_message_to_item_skips() {
    let source = IMessageSource::new("/usr/local/bin/imsg")
        .with_blocked_contacts(vec!["+1666".to_string()]);
    let from_me = MessageRecord {
        guid: "g2".to_string(),
        text: Some("mine".to_string()),
        sender: Some("+1555".to_string()),
        is_from_me: true,
        created_at: None,
        chat_id: 1,
    };
    assert!(source.message_to_item(from_me, None, 0).is_none());
    let empty = MessageRecord {
        guid: "g3".to_string(),
        text: Some(String::new()),
        sender: Some("+1555".to_string()),
        is_from_me: false,
        created_at: None,
        chat_id: 1,
    };
    assert!(source.message_to_item(empty, None, 0).is_none());
    let blocked = MessageRecord {
        guid: "g4".to_string(),
        text: Some("spam".to_string()),
        sender: Some("+1666".to_string()),
        is_from_me: false,
        created_at: None,
        chat_id: 1,
    };
    assert!(source.message_to_item(blocked, None, 0).is_none());
}

#[test]
fn test_message_to_item_group() {
    let source = IMessageSource::new("/usr/local/bin/imsg");
    let msg = MessageRecord {
        guid: "g5".to_string(),
        text: Some("Hi all".to_string()),
        sender: Some("+1555".to_string()),
        is_from_me: false,
        created_at: None,
        chat_id: 7,
    };
    let chat = "Engineering".to_string();
    let item = source.message_to_item(msg, Some(&chat), 123).unwrap();
    assert_eq!(item.timestamp, 123);
    assert!(item.metadata.is_group);
    assert_eq!(item.sender_label(), "Group: Engineering");
    assert_eq!(item.sender.display_name, "Engineering");
    assert_eq!(item.sender.identifier, "+1555");
}

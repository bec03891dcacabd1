use swarm::inbox::{InboxItem, Sender};
use swarm::inbox_storage::InboxStorage;

fn setup_test_storage() -> InboxStorage {
    InboxStorage::new("/tmp/swarm-test")
}

#[test]
fn test_save_and_load_item() {
    let mut storage = setup_test_storage();

    let sender = Sender::new("Steven", "+1234567890");
    let item = InboxItem::new("msg_123", "imessage", "Hello world", sender);

    storage.save_item(&item);
    let loaded = storage.load_item("msg_123").unwrap();

    assert_eq!(loaded.id, "msg_123");
    assert_eq!(loaded.content, "Hello world");
}

#[test]
fn test_delete_item() {
    let mut storage = setup_test_storage();

    let sender = Sender::new("Steven", "+1234567890");
    let item = InboxItem::new("msg_456", "imessage", "Test", sender);

    storage.save_item(&item);
    assert!(storage.item_exists("msg_456"));

    storage.delete_item("msg_456");
    assert!(!storage.item_exists("msg_456"));
}

#[test]
fn test_list_items_sorted() {
    let mut storage = setup_test_storage();

    let sender = Sender::new("Steven", "+1234567890");

    let older = InboxItem::new("msg_1", "imessage", "Older", Sender::new("Steven", "+1234567890"))
        .with_timestamp(1000);
    let newer = InboxItem::new("msg_2", "imessage", "Newer", sender).with_timestamp(2000);

    storage.save_item(&older);
    storage.save_item(&newer);

    let items = storage.list_items();
    assert_eq!(items.len(), 2);
    assert_eq!(items[0].id, "msg_2");
    assert_eq!(items[1].id, "msg_1");
}

#[test]
fn test_source_state() {
    let mut storage = setup_test_storage();

    let now: i64 = 1_700_000_000;
    storage.update_last_fetch("imessage", now);

    let last_fetch = storage.get_last_fetch("imessage");
    assert!(last_fetch.is_some());
}

#[test]
fn test_count_unread() {
    let mut storage = setup_test_storage();

    let item1 = InboxItem::new("msg_1", "imessage", "Unread", Sender::new("Steven", "+1234567890"));
    let mut item2 = InboxItem::new("msg_2", "imessage", "Read", Sender::new("Steven", "+1234567890"));
    item2.read = true;

    storage.save_item(&item1);
    storage.save_item(&item2);

    assert_eq!(storage.count_unread(), 1);
}

#[test]
fn test_mark_read() {
    let mut storage = setup_test_storage();
    let item = InboxItem::new("msg_9", "imessage", "Hi", Sender::new("S", "+1"));
    storage.save_item(&item);
    assert_eq!(storage.count_unread(), 1);
    storage.mark_read("msg_9").unwrap();
    assert_eq!(storage.count_unread(), 0);
    assert!(storage.mark_read("missing").is_err());
}

#[test]
fn test_item_path_sanitized() {
    let storage = setup_test_storage();
    let p = storage.item_path("../evil/../../id");
    assert_eq!(p, "/tmp/swarm-test/inbox/__evil_____id.json");
    let sp = storage.state_path("imessage");
    assert_eq!(sp, "/tmp/swarm-test/inbox/.state/imessage.json");
}

#[test]
fn test_save_items_batch() {
    let mut storage = setup_test_storage();
    let items = vec![
        InboxItem::new("a", "imessage", "one", Sender::new("S", "+1")),
        InboxItem::new("b", "imessage", "two", Sender::new("S", "+1")),
    ];
    storage.save_items(&items);
    assert!(storage.item_exists("a"));
    assert!(storage.item_exists("b"));
}

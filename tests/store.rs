use snitch::message::{Message, MessageKey};
use snitch::store::{MessageStore, MAX_MESSAGES, MESSAGE_TTL};
use snitch::user::UserID;

fn message(hostname: &str, title: &str, timestamp: i64) -> Message {
    Message {
        hostname: hostname.to_string(),
        title: title.to_string(),
        body: "body".to_string(),
        timestamp,
    }
}

fn key(user: &str, hostname: &str) -> MessageKey {
    MessageKey {
        user_id: UserID::from(user.to_string()),
        hostname: hostname.to_string(),
    }
}

#[test]
fn redis_test_add_messages() {
    let mut db = MessageStore::new();
    let user_id = UserID::from("user".to_string());
    let n_hostnames = 3;
    for i in 0..n_hostnames {
        let test_message = message(&format!("testhostname-{}", i), "t", 0);
        let key = MessageKey {
            user_id: user_id.clone(),
            hostname: test_message.hostname.clone(),
        };
        db.add_message(&key, &test_message, 0);
        assert_eq!(db.find_messages(&key, MAX_MESSAGES, 0).len(), 1);
    }
    let hostnames = db.get_hostnames_of_user(&user_id, 0);
    assert_eq!(hostnames.len(), n_hostnames);
}

#[test]
fn appended_messages_come_back_in_order() {
    let mut store = MessageStore::new();
    let k = key("a", "h1");
    let sent: Vec<Message> = (0..5).map(|i| message("h1", &format!("m{i}"), 100 + i)).collect();
    for (i, m) in sent.iter().enumerate() {
        store.add_message(&k, m, 100 + i as i64);
    }
    assert_eq!(store.find_messages(&k, 5, 105), sent);
    assert_eq!(store.find_messages(&k, 2, 105), sent[..2].to_vec());
    assert_eq!(store.find_messages(&k, 100, 105), sent);
}

#[test]
fn unknown_key_lists_nothing() {
    let store = MessageStore::new();
    assert!(store.find_messages(&key("a", "never"), 10, 0).is_empty());
    assert!(store.get_hostnames_of_user(&UserID::from("a".to_string()), 0).is_empty());
}

#[test]
fn stream_expires_after_ttl_and_restarts() {
    let mut store = MessageStore::new();
    let k = key("a", "h1");
    store.add_message(&k, &message("h1", "old", 0), 0);
    assert_eq!(store.find_messages(&k, 10, MESSAGE_TTL - 1).len(), 1);
    assert!(store.find_messages(&k, 10, MESSAGE_TTL).is_empty());
    assert!(store.get_hostnames_of_user(&UserID::from("a".to_string()), MESSAGE_TTL).is_empty());
    let fresh = message("h1", "new", MESSAGE_TTL);
    store.add_message(&k, &fresh, MESSAGE_TTL);
    assert_eq!(store.find_messages(&k, 10, MESSAGE_TTL), vec![fresh]);
}

#[test]
fn append_renews_the_lifetime() {
    let mut store = MessageStore::new();
    let k = key("a", "h1");
    store.add_message(&k, &message("h1", "one", 0), 0);
    store.add_message(&k, &message("h1", "two", 1000), 1000);
    assert_eq!(store.find_messages(&k, 10, MESSAGE_TTL + 999).len(), 2);
    assert!(store.find_messages(&k, 10, MESSAGE_TTL + 1000).is_empty());
}

#[test]
fn listing_is_capped() {
    let mut store = MessageStore::new();
    let k = key("a", "h1");
    for i in 0..(MAX_MESSAGES + 5) {
        store.add_message(&k, &message("h1", "x", i as i64), 0);
    }
    let listed = store.find_messages(&k, MAX_MESSAGES + 5, 0);
    assert_eq!(listed.len(), MAX_MESSAGES);
    assert_eq!(listed[0].timestamp, 0);
    assert_eq!(store.find_messages(&k, 0, 0).len(), 0);
}

#[test]
fn hostnames_are_per_account_and_distinct() {
    let mut store = MessageStore::new();
    store.add_message(&key("a", "h1"), &message("h1", "x", 0), 0);
    store.add_message(&key("a", "h1"), &message("h1", "y", 0), 0);
    store.add_message(&key("a", "h2"), &message("h2", "x", 0), 0);
    store.add_message(&key("b", "h3"), &message("h3", "x", 0), 0);
    let mut hostnames = store.get_hostnames_of_user(&UserID::from("a".to_string()), 0);
    hostnames.sort();
    assert_eq!(hostnames, vec!["h1".to_string(), "h2".to_string()]);
}

#[test]
fn message_key_default() {
    let k = MessageKey::default();
    assert_eq!(k.user_id.as_str(), "00000000-0000-0000-0000-000000000000");
    assert_eq!(k.hostname, "default_hostname");
}

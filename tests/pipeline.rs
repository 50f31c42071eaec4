use snitch::channel::DecouplingChannel;
use snitch::errors::APIError;
use snitch::message::{Message, MessageKey, MessageRequest};
use snitch::pipeline::Backend;
use snitch::user::{User, UserID, Users};

fn request(hostname: &str, title: &str, body: &str) -> MessageRequest {
    MessageRequest {
        hostname: hostname.to_string(),
        title: title.to_string(),
        body: body.to_string(),
    }
}

fn drain(backend: &mut Backend, now: i64) -> usize {
    let mut dispatched = 0;
    while let Some(delivery) = backend.consume_and_store_at(now) {
        if delivery.dispatch.is_some() {
            dispatched += 1;
        }
    }
    dispatched
}

#[test]
fn scenario_ingest_persist_and_query() {
    let mut users = Users::new();
    let account = users.add_user(User::new("a@example.com".to_string(), "hash".to_string()));
    let a = account.user_id.clone();
    let mut backend = Backend::new(16);
    let t = backend.tokens.create_token_for_user_id(&a).unwrap();

    assert_eq!(backend.ingest(&t, &request("h1", "down", "ping failed"), 100), Ok(()));
    assert_eq!(drain(&mut backend, 101), 1);

    assert_eq!(backend.messages.get_hostnames_of_user(&a, 102), vec!["h1".to_string()]);
    let key = MessageKey {
        user_id: a.clone(),
        hostname: "h1".to_string(),
    };
    let listed = backend.messages.find_messages(&key, 10, 102);
    assert_eq!(listed.len(), 1);
    assert_eq!(listed[0].title, "down");
    assert_eq!(listed[0].body, "ping failed");
    assert_eq!(listed[0].timestamp, 100);
}

#[test]
fn scenario_two_messages_within_cooldown_notify_once() {
    let a = UserID::from("account-a".to_string());
    let mut backend = Backend::new(16);
    let t = backend.tokens.create_token_for_user_id(&a).unwrap();
    assert_eq!(backend.ingest(&t, &request("h1", "one", "b"), 100), Ok(()));
    assert_eq!(backend.ingest(&t, &request("h1", "two", "b"), 105), Ok(()));
    assert_eq!(drain(&mut backend, 110), 1);
    let key = MessageKey {
        user_id: a,
        hostname: "h1".to_string(),
    };
    let listed = backend.messages.find_messages(&key, 10, 110);
    assert_eq!(listed.len(), 2);
    assert_eq!(listed[0].title, "one");
    assert_eq!(listed[1].title, "two");
}

#[test]
fn scenario_revoked_token_is_rejected() {
    let a = UserID::from("account-a".to_string());
    let mut backend = Backend::new(16);
    let t = backend.tokens.create_token_for_user_id(&a).unwrap();
    assert_eq!(backend.tokens.delete_token(&t), Ok(()));
    assert_eq!(
        backend.ingest(&t, &request("h1", "down", "ping failed"), 100),
        Err(APIError::Unauthenticated)
    );
    assert_eq!(backend.channel.len(), 0);
    assert_eq!(drain(&mut backend, 101), 0);
    assert!(backend.messages.get_hostnames_of_user(&a, 101).is_empty());
}

#[test]
fn scenario_unknown_hostname_lists_nothing() {
    let a = UserID::from("account-a".to_string());
    let backend = Backend::new(16);
    let key = MessageKey {
        user_id: a,
        hostname: "never-written".to_string(),
    };
    assert!(backend.messages.find_messages(&key, 10, 0).is_empty());
}

#[test]
fn full_channel_is_unavailable() {
    let a = UserID::from("account-a".to_string());
    let mut backend = Backend::new(1);
    let t = backend.tokens.create_token_for_user_id(&a).unwrap();
    assert_eq!(backend.ingest(&t, &request("h1", "one", "b"), 0), Ok(()));
    assert_eq!(
        backend.ingest(&t, &request("h1", "two", "b"), 0),
        Err(APIError::Unavailable)
    );
    assert_eq!(drain(&mut backend, 0), 1);
    assert_eq!(backend.ingest(&t, &request("h1", "three", "b"), 0), Ok(()));
}

#[test]
fn dispatch_carries_settings_and_text() {
    let a = UserID::from("account-a".to_string());
    let mut backend = Backend::new(4);
    let t = backend.tokens.create_token_for_user_id(&a).unwrap();
    backend.ingest(&t, &request("h1", "down", "ping failed"), 0).unwrap();
    let delivery = backend.consume_and_store_at(0).unwrap();
    assert_eq!(delivery.user_id, a);
    assert_eq!(delivery.message.title, "down");
    let dispatch = delivery.dispatch.unwrap();
    assert_eq!(dispatch.notification.title, "down");
    assert_eq!(dispatch.notification.body, "ping failed\n\nh1");
    assert!(dispatch.settings.channels().is_empty());
    assert!(backend.consume_and_store_at(0).is_none());
}

#[test]
fn consumer_with_clock_handles_entries() {
    let a = UserID::from("account-a".to_string());
    let mut backend = Backend::new(1);
    let t = backend.tokens.create_token_for_user_id(&a).unwrap();
    assert_eq!(
        backend.add_message(&"unknown".to_string(), &request("h1", "x", "y")),
        Err(APIError::Unauthenticated)
    );
    backend.add_message(&t, &request("h1", "x", "y")).unwrap();
    assert_eq!(
        backend.add_message(&t, &request("h1", "z", "y")),
        Err(APIError::Unavailable)
    );
    let delivery = backend.consume_and_store().unwrap();
    assert_eq!(delivery.message.hostname, "h1");
    assert!(delivery.dispatch.is_some());
    assert!(backend.consume_and_store().is_none());
    assert_eq!(backend.messages.get_hostnames_of_user(&a, 0), vec!["h1".to_string()]);
    let key = MessageKey {
        user_id: a.clone(),
        hostname: "h1".to_string(),
    };
    assert_eq!(backend.messages.find_messages(&key, 10, 0), vec![delivery.message]);
}

#[test]
fn channel_is_first_in_first_out_until_acknowledged() {
    let mut channel = DecouplingChannel::new(3);
    let a = UserID::from("a".to_string());
    let m = |t: &str| Message {
        hostname: "h".to_string(),
        title: t.to_string(),
        body: String::new(),
        timestamp: 0,
    };
    channel.publish(&a, &m("1")).unwrap();
    channel.publish(&a, &m("2")).unwrap();
    assert_eq!(channel.poll().unwrap().message.title, "1");
    assert_eq!(channel.poll().unwrap().message.title, "1");
    channel.acknowledge();
    assert_eq!(channel.poll().unwrap().message.title, "2");
    channel.acknowledge();
    assert!(channel.poll().is_none());
    channel.acknowledge();
    assert_eq!(channel.len(), 0);
}

#[test]
fn per_stream_order_is_kept_across_interleaving() {
    let a = UserID::from("account-a".to_string());
    let b = UserID::from("account-b".to_string());
    let mut backend = Backend::new(16);
    let ta = backend.tokens.create_token_for_user_id(&a).unwrap();
    let tb = backend.tokens.create_token_for_user_id(&b).unwrap();
    backend.ingest(&ta, &request("h", "a1", ""), 0).unwrap();
    backend.ingest(&tb, &request("h", "b1", ""), 0).unwrap();
    backend.ingest(&ta, &request("h", "a2", ""), 0).unwrap();
    backend.ingest(&tb, &request("h", "b2", ""), 0).unwrap();
    assert_eq!(drain(&mut backend, 1), 2);
    let titles = |user: &UserID| -> Vec<String> {
        let key = MessageKey {
            user_id: user.clone(),
            hostname: "h".to_string(),
        };
        backend
            .messages
            .find_messages(&key, 10, 1)
            .into_iter()
            .map(|m| m.title)
            .collect()
    };
    assert_eq!(titles(&a), vec!["a1".to_string(), "a2".to_string()]);
    assert_eq!(titles(&b), vec!["b1".to_string(), "b2".to_string()]);
}

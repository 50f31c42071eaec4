use snitch::dispatch::{
    conclude, Channel, DeliveryAttempt, DispatchOutcome, NotificationSettings, SettingsStore, Slack,
    Telegram,
};
use snitch::message::Message;
use snitch::user::UserID;

fn attempt(channel: Channel, error: Option<&str>) -> DeliveryAttempt {
    DeliveryAttempt {
        channel,
        error: error.map(|e| e.to_string()),
    }
}

#[test]
fn all_accepted_is_delivered() {
    let r = conclude(&vec![attempt(Channel::Telegram, None), attempt(Channel::Slack, None)]);
    assert!(matches!(r, DispatchOutcome::Delivered(2)));
    assert!(r.is_success());
}

#[test]
fn some_failed_is_partial() {
    let r = conclude(&vec![
        attempt(Channel::Telegram, Some("timeout")),
        attempt(Channel::Email, None),
    ]);
    match &r {
        DispatchOutcome::PartialDeliveryFailure(1, f) => {
            assert_eq!(f.len(), 1);
            assert_eq!(f[0].channel, Channel::Telegram);
            assert_eq!(f[0].error, "timeout");
        }
        other => panic!("unexpected {other:?}"),
    }
    assert!(r.is_success());
}

#[test]
fn none_accepted_is_failed_with_every_error() {
    let r = conclude(&vec![
        attempt(Channel::Telegram, Some("a")),
        attempt(Channel::Slack, Some("b")),
    ]);
    match &r {
        DispatchOutcome::Failed(f) => {
            assert_eq!(f.len(), 2);
            assert_eq!(f[1].channel, Channel::Slack);
            assert_eq!(f[1].error, "b");
        }
        other => panic!("unexpected {other:?}"),
    }
    assert!(!r.is_success());
}

#[test]
fn no_channel_is_failed() {
    let r = conclude(&vec![]);
    assert!(matches!(&r, DispatchOutcome::Failed(f) if f.is_empty()));
}

#[test]
fn channels_in_order() {
    let settings = NotificationSettings {
        telegram: Some(Telegram {
            bot_token: "t".to_string(),
            chat_id: 1,
        }),
        slack: Some(Slack {
            webhook_url: "https://hooks.example/x".to_string(),
            channel: "#c".to_string(),
        }),
        email: None,
    };
    assert_eq!(settings.channels(), vec![Channel::Telegram, Channel::Slack]);
    assert!(NotificationSettings::default().channels().is_empty());
}

#[test]
fn settings_store_defaults_and_replaces() {
    let mut store = SettingsStore::new();
    let a = UserID::from("a".to_string());
    assert!(store.get_notification_settings(&a).channels().is_empty());
    let settings = NotificationSettings {
        telegram: Some(Telegram {
            bot_token: "t".to_string(),
            chat_id: 7,
        }),
        slack: None,
        email: None,
    };
    store.set_notification_settings(&a, settings);
    let got = store.get_notification_settings(&a);
    assert_eq!(got.telegram.unwrap().chat_id, 7);
}

#[test]
fn notification_text() {
    let m = Message {
        hostname: "h1".to_string(),
        title: "down".to_string(),
        body: "ping failed".to_string(),
        timestamp: 0,
    };
    let n = m.notification();
    assert_eq!(n.title, "down");
    assert_eq!(n.body, "ping failed\n\nh1");
}

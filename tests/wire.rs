use snitch::message::Message;
use snitch::wire::serialize_message;

#[test]
fn serialize_full_message() {
    let m = Message {
        hostname: "h1".to_string(),
        title: "down".to_string(),
        body: "ping failed".to_string(),
        timestamp: 1700000000,
    };
    assert_eq!(
        serialize_message(&m),
        vec![
            10, 2, 104, 49, 18, 4, 100, 111, 119, 110, 26, 11, 112, 105, 110, 103, 32, 102, 97,
            105, 108, 101, 100, 34, 6, 8, 128, 226, 207, 170, 6
        ]
    );
}

#[test]
fn serialize_empty_message() {
    let m = Message {
        hostname: String::new(),
        title: String::new(),
        body: String::new(),
        timestamp: 0,
    };
    assert_eq!(serialize_message(&m), vec![34, 0]);
}

#[test]
fn serialize_negative_seconds() {
    let m = Message {
        hostname: String::new(),
        title: String::new(),
        body: String::new(),
        timestamp: -1,
    };
    assert_eq!(
        serialize_message(&m),
        vec![34, 11, 8, 255, 255, 255, 255, 255, 255, 255, 255, 255, 1]
    );
}

use crate::table::KeyEq;
use crate::user::UserID;
use vstd::prelude::*;

verus! {

/// One status message from a reporting host. `timestamp` is in Unix seconds, set
/// by the ingesting side.
#[derive(Debug)]
pub struct Message {
    pub hostname: String,
    pub title: String,
    pub body: String,
    pub timestamp: i64,
}

impl Clone for Message {
    fn clone(&self) -> (r: Message)
        ensures
            r == *self,
    {
        Message {
            hostname: self.hostname.clone(),
            title: self.title.clone(),
            body: self.body.clone(),
            timestamp: self.timestamp,
        }
    }
}

impl PartialEq for Message {
    fn eq(&self, other: &Message) -> (r: bool) {
        self.hostname == other.hostname && self.title == other.title && self.body == other.body
            && self.timestamp == other.timestamp
    }
}

impl vstd::std_specs::cmp::PartialEqSpecImpl for Message {
    open spec fn obeys_eq_spec() -> bool {
        true
    }

    open spec fn eq_spec(&self, other: &Message) -> bool {
        &&& self.hostname@ == other.hostname@
        &&& self.title@ == other.title@
        &&& self.body@ == other.body@
        &&& self.timestamp == other.timestamp
    }
}

/// The text handed to the notification channels.
#[derive(Debug)]
pub struct Notification {
    pub title: String,
    pub body: String,
}

impl Message {
    /// The notification for this message: its title, and its body followed by a
    /// blank line and the host it came from.
    pub fn notification(&self) -> (r: Notification)
        ensures
            r.title@ == self.title@,
            r.body@ == self.body@ + "\n\n"@ + self.hostname@,
    {
        let body = self.body.clone().concat("\n\n").concat(self.hostname.as_str());
        Notification { title: self.title.clone(), body }
    }
}

/// The body of an ingestion request.
#[derive(Debug)]
pub struct MessageRequest {
    pub hostname: String,
    pub title: String,
    pub body: String,
}

impl MessageRequest {
    /// The message this request carries, stamped with `timestamp`.
    pub fn to_message(&self, timestamp: i64) -> (r: Message)
        ensures
            r.hostname == self.hostname,
            r.title == self.title,
            r.body == self.body,
            r.timestamp == timestamp,
    {
        Message {
            hostname: self.hostname.clone(),
            title: self.title.clone(),
            body: self.body.clone(),
            timestamp,
        }
    }
}

/// One stream of messages: an account and the host that reports for it.
#[derive(Debug)]
pub struct MessageKey {
    pub user_id: UserID,
    pub hostname: String,
}

impl View for MessageKey {
    type V = (Seq<char>, Seq<char>);

    open spec fn view(&self) -> (Seq<char>, Seq<char>) {
        (self.user_id@, self.hostname@)
    }
}

impl Clone for MessageKey {
    fn clone(&self) -> (r: MessageKey)
        ensures
            r == *self,
    {
        MessageKey { user_id: self.user_id.clone(), hostname: self.hostname.clone() }
    }
}

impl PartialEq for MessageKey {
    fn eq(&self, other: &MessageKey) -> (r: bool) {
        self.user_id == other.user_id && self.hostname == other.hostname
    }
}

impl vstd::std_specs::cmp::PartialEqSpecImpl for MessageKey {
    open spec fn obeys_eq_spec() -> bool {
        true
    }

    open spec fn eq_spec(&self, other: &MessageKey) -> bool {
        self@ == other@
    }
}

impl KeyEq for MessageKey {
    fn key_eq(&self, other: &Self) -> (r: bool) {
        self.user_id == other.user_id && self.hostname == other.hostname
    }
}

impl Default for MessageKey {
    fn default() -> (r: MessageKey)
        ensures
            r.user_id@ == "00000000-0000-0000-0000-000000000000"@,
            r.hostname@ == "default_hostname"@,
    {
        MessageKey { user_id: UserID::default(), hostname: String::from_str("default_hostname") }
    }
}

} // verus!

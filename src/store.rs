use crate::message::{Message, MessageKey};
use crate::table::Table;
use crate::token::string_views;
use crate::user::UserID;
use vstd::prelude::*;

verus! {

/// Seconds a stream stays observable after its latest append.
pub const MESSAGE_TTL: i64 = 86400;

/// Most messages that one listing returns.
pub const MAX_MESSAGES: usize = 1000;

/// The view of a [`MessageKey`]: account and hostname.
pub type KeyView = (Seq<char>, Seq<char>);

/// Per stream: its messages, oldest first, and the instant at which it expires.
pub type StreamView = (Seq<Message>, i64);

/// When a stream appended to at `now` expires.
pub open spec fn expiry(now: i64) -> i64 {
    if now <= i64::MAX - MESSAGE_TTL {
        (now + MESSAGE_TTL) as i64
    } else {
        i64::MAX
    }
}

/// Whether stream `k` is observable at `now`.
pub open spec fn is_live(m: Map<KeyView, StreamView>, k: KeyView, now: i64) -> bool {
    m.contains_key(k) && now < m[k].1
}

/// The messages of stream `k` observable at `now`: none once it has expired.
pub open spec fn live_messages(m: Map<KeyView, StreamView>, k: KeyView, now: i64) -> Seq<Message> {
    if is_live(m, k, now) {
        m[k].0
    } else {
        Seq::empty()
    }
}

/// The store after `msg` is appended to stream `k` at `now`: the message goes to
/// the tail of what is observable, and the stream's lifetime starts anew.
pub open spec fn appended(
    m: Map<KeyView, StreamView>,
    k: KeyView,
    msg: Message,
    now: i64,
) -> Map<KeyView, StreamView> {
    m.insert(k, (live_messages(m, k, now).push(msg), expiry(now)))
}

/// What a listing of at most `limit` messages of stream `k` at `now` returns.
pub open spec fn listed(m: Map<KeyView, StreamView>, k: KeyView, limit: usize, now: i64) -> Seq<
    Message,
> {
    let s = live_messages(m, k, now);
    let n = if limit <= MAX_MESSAGES {
        limit as int
    } else {
        MAX_MESSAGES as int
    };
    if n < s.len() {
        s.take(n)
    } else {
        s
    }
}

/// The hostnames with an observable stream for account `a` at `now`.
pub open spec fn live_hostnames(m: Map<KeyView, StreamView>, a: Seq<char>, now: i64) -> Set<
    Seq<char>,
> {
    Set::new(|h: Seq<char>| is_live(m, (a, h), now))
}

/// The store after appending `msgs[i]` at `times[i]`, one after another.
pub open spec fn appended_all(
    m: Map<KeyView, StreamView>,
    k: KeyView,
    msgs: Seq<Message>,
    times: Seq<i64>,
) -> Map<KeyView, StreamView>
    decreases msgs.len(),
{
    if msgs.len() == 0 {
        m
    } else {
        appended(
            appended_all(m, k, msgs.drop_last(), times.drop_last()),
            k,
            msgs.last(),
            times[msgs.len() - 1],
        )
    }
}

/// After a run of appends to a stream that held nothing observable at the first
/// one, each within the lifetime left by the one before, the stream holds exactly
/// the appended messages and expires a lifetime after the last append.
proof fn lemma_appended_all_stream(
    m: Map<KeyView, StreamView>,
    k: KeyView,
    msgs: Seq<Message>,
    times: Seq<i64>,
)
    requires
        msgs.len() == times.len(),
        msgs.len() > 0,
        live_messages(m, k, times[0]).len() == 0,
        forall|i: int| 0 < i < times.len() ==> #[trigger] times[i] < expiry(times[i - 1]),
    ensures
        appended_all(m, k, msgs, times).contains_key(k),
        appended_all(m, k, msgs, times)[k] == (msgs, expiry(times[times.len() - 1])),
    decreases msgs.len(),
{
    let n = msgs.len();
    let prev = appended_all(m, k, msgs.drop_last(), times.drop_last());
    if n == 1 {
        assert(prev == m);
        assert(live_messages(m, k, times[0]) =~= Seq::<Message>::empty());
        assert(Seq::<Message>::empty().push(msgs.last()) =~= msgs);
    } else {
        let ts = times.drop_last();
        assert forall|i: int| 0 < i < ts.len() implies #[trigger] ts[i] < expiry(ts[i - 1]) by {
            assert(ts[i] == times[i] && ts[i - 1] == times[i - 1]);
        }
        lemma_appended_all_stream(m, k, msgs.drop_last(), ts);
        assert(times[n - 1] < expiry(times[n - 2]));
        assert(live_messages(prev, k, times[n - 1]) == msgs.drop_last());
        assert(msgs.drop_last().push(msgs.last()) =~= msgs);
    }
}

/// Appending N messages to a stream with nothing observable, then listing N of
/// them while the stream is still live, returns exactly those messages in the
/// order they were appended.
pub proof fn lemma_appended_messages_listed_in_order(
    m: Map<KeyView, StreamView>,
    k: KeyView,
    msgs: Seq<Message>,
    times: Seq<i64>,
    now: i64,
)
    requires
        msgs.len() == times.len(),
        0 < msgs.len() <= MAX_MESSAGES,
        live_messages(m, k, times[0]).len() == 0,
        forall|i: int| 0 < i < times.len() ==> #[trigger] times[i] < expiry(times[i - 1]),
        now < expiry(times[times.len() - 1]),
    ensures
        listed(appended_all(m, k, msgs, times), k, msgs.len() as usize, now) == msgs,
{
    lemma_appended_all_stream(m, k, msgs, times);
}

struct Stream {
    messages: Vec<Message>,
    expires_at: i64,
}

/// Streams of messages keyed by account and hostname. A stream expires, with all
/// its messages, when no message has been appended to it for [`MESSAGE_TTL`] seconds.
pub struct MessageStore {
    streams: Table<MessageKey, Stream>,
}

impl MessageStore {
    pub closed spec fn view(&self) -> Map<KeyView, StreamView> {
        self.streams.map().map_values(|s: Stream| (s.messages@, s.expires_at))
    }

    pub closed spec fn wf(&self) -> bool {
        self.streams.wf()
    }

    pub fn new() -> (r: MessageStore)
        ensures
            r.wf(),
            r.view() == Map::<KeyView, StreamView>::empty(),
    {
        let r = MessageStore { streams: Table::new() };
        assert(r.view() =~= Map::<KeyView, StreamView>::empty());
        r
    }

    /// Appends `message` to the tail of the stream `key` at `now` and renews the
    /// stream's lifetime. An expired stream starts over from this message.
    pub fn add_message(&mut self, key: &MessageKey, message: &Message, now: i64)
        requires
            old(self).wf(),
        ensures
            final(self).wf(),
            final(self).view() == appended(old(self).view(), key@, *message, now),
    {
        let expires_at = if now <= i64::MAX - MESSAGE_TTL {
            now + MESSAGE_TTL
        } else {
            i64::MAX
        };
        let mut messages = match self.streams.remove(key) {
            Some(stream) => if now < stream.expires_at {
                stream.messages
            } else {
                Vec::new()
            },
            None => Vec::new(),
        };
        messages.push(message.clone());
        let ghost kept = messages@;
        self.streams.insert(key.clone(), Stream { messages, expires_at });
        assert(kept == live_messages(old(self).view(), key@, now).push(*message));
        assert(self.view() =~= appended(old(self).view(), key@, *message, now));
    }

    /// At most `limit` (and never more than [`MAX_MESSAGES`]) messages of stream
    /// `key` observable at `now`, oldest first; empty for an unknown or expired stream.
    pub fn find_messages(&self, key: &MessageKey, limit: usize, now: i64) -> (r: Vec<Message>)
        requires
            self.wf(),
        ensures
            r@ == listed(self.view(), key@, limit, now),
    {
        let mut r: Vec<Message> = Vec::new();
        match self.streams.get(key) {
            Some(stream) => {
                if now < stream.expires_at {
                    let cap = if limit <= MAX_MESSAGES {
                        limit
                    } else {
                        MAX_MESSAGES
                    };
                    let n = if cap < stream.messages.len() {
                        cap
                    } else {
                        stream.messages.len()
                    };
                    let mut i: usize = 0;
                    while i < n
                        invariant
                            n <= stream.messages@.len(),
                            i <= n,
                            r@ == stream.messages@.take(i as int),
                        decreases n - i,
                    {
                        r.push(stream.messages[i].clone());
                        i = i + 1;
                        assert(r@ =~= stream.messages@.take(i as int));
                    }
                    assert(stream.messages@.take(stream.messages@.len() as int)
                        =~= stream.messages@);
                }
            },
            None => {},
        }
        r
    }

    /// The distinct hostnames with an observable stream for `user_id` at `now`.
    pub fn get_hostnames_of_user(&self, user_id: &UserID, now: i64) -> (r: Vec<String>)
        requires
            self.wf(),
        ensures
            string_views(r@).no_duplicates(),
            string_views(r@).to_set() == live_hostnames(self.view(), user_id@, now),
    {
        let n = self.streams.len();
        let mut r: Vec<String> = Vec::new();
        let mut i: usize = 0;
        while i < n
            invariant
                self.wf(),
                n == self.streams.keys@.len(),
                i <= n,
                string_views(r@).no_duplicates(),
                forall|h: Seq<char>|
                    #[trigger] string_views(r@).contains(h) <==> exists|j: int|
                        0 <= j < i && #[trigger] self.streams.key_view(j) == (user_id@, h)
                            && now < self.streams.vals@[j].expires_at,
            decreases n - i,
        {
            let ghost before = string_views(r@);
            let key = &self.streams.keys[i];
            if key.user_id == *user_id && now < self.streams.vals[i].expires_at {
                r.push(key.hostname.clone());
                proof {
                    let h_i = self.streams.key_view(i as int).1;
                    let after = string_views(r@);
                    assert(after =~= before.push(h_i));
                    assert forall|a: int, b: int|
                        0 <= a < after.len() && 0 <= b < after.len() && a != b implies after[a]
                            != after[b] by {
                        if a == after.len() - 1 || b == after.len() - 1 {
                            let o = if a == after.len() - 1 { b } else { a };
                            if after[o] == h_i {
                                assert(before.contains(after[o]));
                                let j = choose|j: int|
                                    0 <= j < i && #[trigger] self.streams.key_view(j) == (
                                        user_id@,
                                        after[o],
                                    ) && now < self.streams.vals@[j].expires_at;
                                assert(self.streams.key_view(j) != self.streams.key_view(
                                    i as int,
                                ));
                            }
                        }
                    }
                    assert forall|h: Seq<char>|
                        #[trigger] after.contains(h) <==> exists|j: int|
                            0 <= j < i + 1 && #[trigger] self.streams.key_view(j) == (user_id@, h)
                                && now < self.streams.vals@[j].expires_at by {
                        if after.contains(h) && h != h_i {
                            let k = choose|k: int| 0 <= k < after.len() && after[k] == h;
                            assert(before[k] == h);
                            assert(before.contains(h));
                        }
                        if exists|j: int|
                            0 <= j < i + 1 && #[trigger] self.streams.key_view(j) == (user_id@, h)
                                && now < self.streams.vals@[j].expires_at {
                            let j = choose|j: int|
                                0 <= j < i + 1 && #[trigger] self.streams.key_view(j) == (
                                    user_id@,
                                    h,
                                ) && now < self.streams.vals@[j].expires_at;
                            if j < i {
                                assert(before.contains(h));
                                let k = choose|k: int| 0 <= k < before.len() && before[k] == h;
                                assert(after[k] == h);
                            } else {
                                assert(after[after.len() - 1] == h);
                            }
                        }
                    }
                }
            } else {
                proof {
                    assert forall|h: Seq<char>|
                        #[trigger] before.contains(h) <==> exists|j: int|
                            0 <= j < i + 1 && #[trigger] self.streams.key_view(j) == (user_id@, h)
                                && now < self.streams.vals@[j].expires_at by {
                        if exists|j: int|
                            0 <= j < i + 1 && #[trigger] self.streams.key_view(j) == (user_id@, h)
                                && now < self.streams.vals@[j].expires_at {
                            let j = choose|j: int|
                                0 <= j < i + 1 && #[trigger] self.streams.key_view(j) == (
                                    user_id@,
                                    h,
                                ) && now < self.streams.vals@[j].expires_at;
                            assert(j != i);
                        }
                    }
                }
            }
            i = i + 1;
        }
        proof {
            let seen = string_views(r@);
            assert forall|h: Seq<char>|
                seen.to_set().contains(h) <==> live_hostnames(self.view(), user_id@, now).contains(
                    h,
                ) by {
                if seen.contains(h) {
                    let j = choose|j: int|
                        0 <= j < n && #[trigger] self.streams.key_view(j) == (user_id@, h) && now
                            < self.streams.vals@[j].expires_at;
                    assert(self.streams.map().contains_key(self.streams.key_view(j)));
                }
                if live_hostnames(self.view(), user_id@, now).contains(h) {
                    let j = choose|j: int|
                        0 <= j < self.streams.keys@.len() && #[trigger] self.streams.key_view(j)
                            == (user_id@, h);
                    assert(self.streams.map().contains_key(self.streams.key_view(j)));
                }
            }
            assert(seen.to_set() =~= live_hostnames(self.view(), user_id@, now));
        }
        r
    }
}

} // verus!

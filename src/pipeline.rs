use crate::channel::{DecouplingChannel, Envelope};
use crate::clock::unix_now;
use crate::dispatch::{settings_of, NotificationSettings, SettingsStore};
use crate::errors::APIError;
use crate::filter::{filter_step, NotificationFilter};
use crate::message::{Message, MessageKey, MessageRequest, Notification};
use crate::store::{appended, is_live, live_messages, KeyView, MessageStore, StreamView};
use crate::token::{account_of, TokenStore};
use crate::user::UserID;
use vstd::prelude::*;

verus! {

/// What the consumer asks its caller to send out for one persisted message.
#[derive(Debug)]
pub struct Dispatch {
    pub settings: NotificationSettings,
    pub notification: Notification,
}

/// One entry taken off the channel: persisted, passed through the cooldown filter and
/// acknowledged. `dispatch` is present when the filter let a notification through.
#[derive(Debug)]
pub struct Delivery {
    pub user_id: UserID,
    pub message: Message,
    pub dispatch: Option<Dispatch>,
}

/// The stream an entry of the channel belongs to.
pub open spec fn stream_of(e: Envelope) -> KeyView {
    (e.user_id@, e.message.hostname@)
}

/// The messages of `q` that belong to stream `k`, in the order of `q`.
pub open spec fn stream_entries(q: Seq<Envelope>, k: KeyView) -> Seq<Message>
    decreases q.len(),
{
    if q.len() == 0 {
        Seq::empty()
    } else {
        let rest = stream_entries(q.drop_last(), k);
        if stream_of(q.last()) == k {
            rest.push(q.last().message)
        } else {
            rest
        }
    }
}

/// The message store after the consumer has handled every entry of `q`, in order, at `now`.
pub open spec fn consumed_all(m: Map<KeyView, StreamView>, q: Seq<Envelope>, now: i64) -> Map<
    KeyView,
    StreamView,
>
    decreases q.len(),
{
    if q.len() == 0 {
        m
    } else {
        appended(consumed_all(m, q.drop_last(), now), stream_of(q.last()), q.last().message, now)
    }
}

/// Order is kept per stream: once the consumer has handled a run of channel entries,
/// a stream that held nothing observable holds that run's messages for it, in the
/// order in which they were published, whatever entries of other streams came between.
pub proof fn lemma_consumption_keeps_publication_order(
    m: Map<KeyView, StreamView>,
    q: Seq<Envelope>,
    k: KeyView,
    now: i64,
)
    requires
        !is_live(m, k, now),
        now < i64::MAX,
    ensures
        live_messages(consumed_all(m, q, now), k, now) == stream_entries(q, k),
    decreases q.len(),
{
    if q.len() > 0 {
        lemma_consumption_keeps_publication_order(m, q.drop_last(), k, now);
    }
}

/// The backend's state: the token store in front of ingestion, the channel, and
/// behind it the message store, the cooldown filter and the notification settings.
pub struct Backend {
    pub tokens: TokenStore,
    pub channel: DecouplingChannel,
    pub messages: MessageStore,
    pub filter: NotificationFilter,
    pub settings: SettingsStore,
}

impl Backend {
    pub open spec fn wf(&self) -> bool {
        &&& self.tokens.wf()
        &&& self.messages.wf()
        &&& self.filter.wf()
        &&& self.settings.wf()
    }

    /// An empty backend whose channel holds at most `capacity` unacknowledged entries.
    pub fn new(capacity: usize) -> (r: Backend)
        ensures
            r.wf(),
            r.tokens.view() == Map::<Seq<char>, UserID>::empty(),
            r.channel.view() == Seq::<Envelope>::empty(),
            r.channel.capacity() == capacity,
            r.messages.view() == Map::<(Seq<char>, Seq<char>), (Seq<Message>, i64)>::empty(),
            r.filter.view() == Map::<Seq<char>, i64>::empty(),
            r.settings.view() == Map::<Seq<char>, NotificationSettings>::empty(),
    {
        Backend {
            tokens: TokenStore::new(),
            channel: DecouplingChannel::new(capacity),
            messages: MessageStore::new(),
            filter: NotificationFilter::new(),
            settings: SettingsStore::new(),
        }
    }

    /// Ingests `request` sent with bearer `token` at `now`: an unknown token is
    /// refused with `Unauthenticated`; otherwise the message, stamped with `now`,
    /// is published for the token's account, which fails with `Unavailable` when
    /// the channel is full. Only the channel changes, and only on success.
    pub fn ingest(&mut self, token: &String, request: &MessageRequest, now: i64) -> (r: Result<
        (),
        APIError,
    >)
        requires
            old(self).wf(),
        ensures
            final(self).wf(),
            final(self).tokens == old(self).tokens,
            final(self).messages == old(self).messages,
            final(self).filter == old(self).filter,
            final(self).settings == old(self).settings,
            final(self).channel.capacity() == old(self).channel.capacity(),
            match account_of(old(self).tokens.view(), token@) {
                None => r == Err::<(), APIError>(APIError::Unauthenticated) && final(self).channel.view() == old(self).channel.view(),
                Some(u) => if old(self).channel.view().len() < old(self).channel.capacity() {
                    r is Ok && final(self).channel.view() == old(self).channel.view().push(
                        Envelope {
                            user_id: u,
                            message: Message {
                                hostname: request.hostname,
                                title: request.title,
                                body: request.body,
                                timestamp: now,
                            },
                        },
                    )
                } else {
                    r == Err::<(), APIError>(APIError::Unavailable) && final(self).channel.view()
                        == old(self).channel.view()
                },
            },
    {
        match self.tokens.get_user_id_of_token(token) {
            None => Err(APIError::Unauthenticated),
            Some(user_id) => {
                let message = request.to_message(now);
                self.channel.publish(&user_id, &message)
            },
        }
    }

    /// [`Backend::ingest`] stamped with the current time.
    pub fn add_message(&mut self, token: &String, request: &MessageRequest) -> (r: Result<
        (),
        APIError,
    >)
        requires
            old(self).wf(),
        ensures
            final(self).wf(),
            final(self).tokens == old(self).tokens,
            final(self).messages == old(self).messages,
            final(self).filter == old(self).filter,
            final(self).settings == old(self).settings,
            final(self).channel.capacity() == old(self).channel.capacity(),
            account_of(old(self).tokens.view(), token@) is None ==> r == Err::<(), APIError>(
                APIError::Unauthenticated,
            ),
            account_of(old(self).tokens.view(), token@) is Some ==> (r is Ok <==> old(
                self,
            ).channel.view().len() < old(self).channel.capacity()),
            account_of(old(self).tokens.view(), token@) is Some && r is Err ==> r == Err::<
                (),
                APIError,
            >(APIError::Unavailable),
            r is Err ==> final(self).channel.view() == old(self).channel.view(),
            r is Ok ==> exists|now: i64|
                final(self).channel.view() == old(self).channel.view().push(
                    Envelope {
                        user_id: account_of(old(self).tokens.view(), token@)->0,
                        message: Message {
                            hostname: request.hostname,
                            title: request.title,
                            body: request.body,
                            timestamp: now,
                        },
                    },
                ),
    {
        let now = unix_now();
        self.ingest(token, request, now)
    }

    /// Handles the oldest entry of the channel at `now`: appends its message to the
    /// stream of its account and hostname, asks the cooldown filter whether to notify,
    /// and acknowledges the entry only once it is stored. Returns `None`, changing
    /// nothing, when the channel is empty. An entry handed out again after a crash
    /// is stored again: duplicates are tolerated rather than filtered.
    pub fn consume_and_store_at(&mut self, now: i64) -> (r: Option<Delivery>)
        requires
            old(self).wf(),
        ensures
            final(self).wf(),
            final(self).tokens == old(self).tokens,
            final(self).settings == old(self).settings,
            old(self).channel.view().len() == 0 ==> r is None && final(self).channel == old(self).channel && final(self).messages == old(self).messages && final(self).filter == old(self).filter,
            old(self).channel.view().len() > 0 ==> ({
                let e = old(self).channel.view()[0];
                let step = filter_step(old(self).filter.view(), e.user_id@, now);
                &&& r is Some
                &&& r->0.user_id == e.user_id
                &&& r->0.message == e.message
                &&& final(self).channel.view() == old(self).channel.view().drop_first()
                &&& final(self).channel.capacity() == old(self).channel.capacity()
                &&& final(self).messages.view() == appended(
                    old(self).messages.view(),
                    (e.user_id@, e.message.hostname@),
                    e.message,
                    now,
                )
                &&& final(self).filter.view() == step.1
                &&& (r->0.dispatch is Some <==> step.0)
                &&& step.0 ==> r->0.dispatch->0.settings == settings_of(
                    old(self).settings.view(),
                    e.user_id@,
                )
                &&& step.0 ==> r->0.dispatch->0.notification.title@ == e.message.title@
                &&& step.0 ==> r->0.dispatch->0.notification.body@ == e.message.body@ + "\n\n"@
                    + e.message.hostname@
            }),
    {
        match self.channel.poll() {
            None => None,
            Some(entry) => {
                let key = MessageKey {
                    user_id: entry.user_id.clone(),
                    hostname: entry.message.hostname.clone(),
                };
                self.messages.add_message(&key, &entry.message, now);
                let notify = self.filter.notify_user_at(&entry.user_id, now);
                self.channel.acknowledge();
                let dispatch = if notify {
                    Some(
                        Dispatch {
                            settings: self.settings.get_notification_settings(&entry.user_id),
                            notification: entry.message.notification(),
                        },
                    )
                } else {
                    None
                };
                Some(Delivery { user_id: entry.user_id, message: entry.message, dispatch })
            },
        }
    }

    /// [`Backend::consume_and_store_at`] at the current time.
    pub fn consume_and_store(&mut self) -> (r: Option<Delivery>)
        requires
            old(self).wf(),
        ensures
            final(self).wf(),
            final(self).tokens == old(self).tokens,
            final(self).settings == old(self).settings,
            r is None <==> old(self).channel.view().len() == 0,
            r is None ==> final(self).channel == old(self).channel && final(self).messages == old(
                self,
            ).messages && final(self).filter == old(self).filter,
            r is Some ==> ({
                let e = old(self).channel.view()[0];
                &&& r->0.user_id == e.user_id
                &&& r->0.message == e.message
                &&& final(self).channel.view() == old(self).channel.view().drop_first()
                &&& final(self).channel.capacity() == old(self).channel.capacity()
                &&& exists|now: i64|
                    {
                        &&& final(self).messages.view() == #[trigger] appended(
                            old(self).messages.view(),
                            (e.user_id@, e.message.hostname@),
                            e.message,
                            now,
                        )
                        &&& final(self).filter.view() == filter_step(old(self).filter.view(), e.user_id@, now).1
                        &&& (r->0.dispatch is Some <==> filter_step(old(self).filter.view(), e.user_id@, now).0)
                        &&& filter_step(old(self).filter.view(), e.user_id@, now).0 ==> r->0.dispatch->0.settings == settings_of(
                            old(self).settings.view(),
                            e.user_id@,
                        )
                        &&& filter_step(old(self).filter.view(), e.user_id@, now).0 ==> r->0.dispatch->0.notification.title@ == e.message.title@
                        &&& filter_step(old(self).filter.view(), e.user_id@, now).0 ==> r->0.dispatch->0.notification.body@ == e.message.body@
                            + "\n\n"@ + e.message.hostname@
                    }
            }),
    {
        let now = unix_now();
        let r = self.consume_and_store_at(now);
        assert(r is Some ==> final(self).messages.view() == appended(
            old(self).messages.view(),
            (old(self).channel.view()[0].user_id@, old(self).channel.view()[0].message.hostname@),
            old(self).channel.view()[0].message,
            now,
        ));
        r
    }
}

} // verus!

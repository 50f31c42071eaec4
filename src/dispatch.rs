use crate::table::Table;
use crate::user::UserID;
use vstd::prelude::*;

verus! {

/// A Telegram bot and the chat it posts to.
#[derive(Debug)]
pub struct Telegram {
    pub bot_token: String,
    pub chat_id: u64,
}

/// A Slack incoming webhook and its channel.
#[derive(Debug)]
pub struct Slack {
    pub webhook_url: String,
    pub channel: String,
}

/// An SMTP account and the addresses a notification mail goes between.
#[derive(Debug)]
pub struct Email {
    pub smtp_user: String,
    pub smtp_password: String,
    pub smtp_server: String,
    pub smtp_port: u16,
    pub receiver_address: String,
    pub sender_address: String,
    pub sender_name: String,
}

impl Clone for Telegram {
    fn clone(&self) -> (r: Telegram)
        ensures
            r == *self,
    {
        Telegram { bot_token: self.bot_token.clone(), chat_id: self.chat_id }
    }
}

impl Clone for Slack {
    fn clone(&self) -> (r: Slack)
        ensures
            r == *self,
    {
        Slack { webhook_url: self.webhook_url.clone(), channel: self.channel.clone() }
    }
}

impl Clone for Email {
    fn clone(&self) -> (r: Email)
        ensures
            r == *self,
    {
        Email {
            smtp_user: self.smtp_user.clone(),
            smtp_password: self.smtp_password.clone(),
            smtp_server: self.smtp_server.clone(),
            smtp_port: self.smtp_port,
            receiver_address: self.receiver_address.clone(),
            sender_address: self.sender_address.clone(),
            sender_name: self.sender_name.clone(),
        }
    }
}

/// The channels an account wants to be notified on; any of them may be absent.
#[derive(Debug)]
pub struct NotificationSettings {
    pub telegram: Option<Telegram>,
    pub slack: Option<Slack>,
    pub email: Option<Email>,
}

impl Clone for NotificationSettings {
    fn clone(&self) -> (r: NotificationSettings)
        ensures
            r == *self,
    {
        NotificationSettings {
            telegram: match &self.telegram {
                Some(t) => Some(t.clone()),
                None => None,
            },
            slack: match &self.slack {
                Some(s) => Some(s.clone()),
                None => None,
            },
            email: match &self.email {
                Some(e) => Some(e.clone()),
                None => None,
            },
        }
    }
}

impl Default for NotificationSettings {
    /// No channel configured.
    fn default() -> (r: NotificationSettings)
        ensures
            r.telegram is None,
            r.slack is None,
            r.email is None,
    {
        NotificationSettings { telegram: None, slack: None, email: None }
    }
}

/// A kind of notification channel.
#[derive(Debug, Clone, Copy, PartialEq, Eq, Structural)]
pub enum Channel {
    Telegram,
    Email,
    Slack,
}

/// The configured channels of `s`, in the order they are tried.
pub open spec fn configured_channels(s: NotificationSettings) -> Seq<Channel> {
    let a = if s.telegram is Some {
        seq![Channel::Telegram]
    } else {
        Seq::empty()
    };
    let b = if s.email is Some {
        a.push(Channel::Email)
    } else {
        a
    };
    if s.slack is Some {
        b.push(Channel::Slack)
    } else {
        b
    }
}

impl NotificationSettings {
    /// The configured channels, in the order they are tried: Telegram, email, Slack.
    pub fn channels(&self) -> (r: Vec<Channel>)
        ensures
            r@ == configured_channels(*self),
    {
        let mut r: Vec<Channel> = Vec::new();
        if self.telegram.is_some() {
            r.push(Channel::Telegram);
        }
        if self.email.is_some() {
            r.push(Channel::Email);
        }
        if self.slack.is_some() {
            r.push(Channel::Slack);
        }
        assert(r@ =~= configured_channels(*self));
        r
    }
}

/// What became of one delivery attempt: `error` is `None` when the channel accepted it.
#[derive(Debug)]
pub struct DeliveryAttempt {
    pub channel: Channel,
    pub error: Option<String>,
}

/// A channel that did not accept the notification, and why.
#[derive(Debug)]
pub struct ChannelFailure {
    pub channel: Channel,
    pub error: String,
}

/// The result of one dispatch over all configured channels.
#[derive(Debug)]
pub enum DispatchOutcome {
    /// Every channel accepted; the count of them.
    Delivered(usize),
    /// Some channels accepted (the count) and the others failed.
    PartialDeliveryFailure(usize, Vec<ChannelFailure>),
    /// No channel accepted; the failures of those tried.
    Failed(Vec<ChannelFailure>),
}

impl DispatchOutcome {
    /// Whether at least one channel accepted the notification.
    pub fn is_success(&self) -> (r: bool)
        ensures
            r == !(self is Failed),
    {
        match self {
            DispatchOutcome::Failed(_) => false,
            _ => true,
        }
    }
}

/// How many of the attempts were accepted.
pub open spec fn accepted_count(a: Seq<DeliveryAttempt>) -> nat
    decreases a.len(),
{
    if a.len() == 0 {
        0
    } else {
        accepted_count(a.drop_last()) + if a.last().error is None {
            1nat
        } else {
            0nat
        }
    }
}

/// The failed attempts, in order, as channel and error text.
pub open spec fn failures_of(a: Seq<DeliveryAttempt>) -> Seq<(Channel, Seq<char>)>
    decreases a.len(),
{
    if a.len() == 0 {
        Seq::empty()
    } else {
        let rest = failures_of(a.drop_last());
        match a.last().error {
            Some(e) => rest.push((a.last().channel, e@)),
            None => rest,
        }
    }
}

pub open spec fn failure_views(f: Seq<ChannelFailure>) -> Seq<(Channel, Seq<char>)> {
    f.map_values(|x: ChannelFailure| (x.channel, x.error@))
}

/// Sums up independent attempts on each channel: success when at least one channel
/// accepted, with every failure reported.
pub fn conclude(attempts: &Vec<DeliveryAttempt>) -> (r: DispatchOutcome)
    ensures
        match r {
            DispatchOutcome::Delivered(n) => n == accepted_count(attempts@) && n > 0
                && failures_of(attempts@).len() == 0,
            DispatchOutcome::PartialDeliveryFailure(n, f) => n == accepted_count(attempts@) && n
                > 0 && failure_views(f@) == failures_of(attempts@) && f@.len() > 0,
            DispatchOutcome::Failed(f) => accepted_count(attempts@) == 0 && failure_views(f@)
                == failures_of(attempts@),
        },
{
    let mut accepted: usize = 0;
    let mut failures: Vec<ChannelFailure> = Vec::new();
    let mut i: usize = 0;
    while i < attempts.len()
        invariant
            i <= attempts@.len(),
            accepted == accepted_count(attempts@.take(i as int)),
            accepted <= i,
            failure_views(failures@) == failures_of(attempts@.take(i as int)),
        decreases attempts@.len() - i,
    {
        let ghost before = failures@;
        assert(attempts@.take(i + 1).drop_last() =~= attempts@.take(i as int));
        match &attempts[i].error {
            Some(e) => {
                failures.push(ChannelFailure { channel: attempts[i].channel, error: e.clone() });
                assert(failure_views(failures@) =~= failure_views(before).push(
                    (attempts@[i as int].channel, e@),
                ));
            },
            None => {
                accepted = accepted + 1;
            },
        }
        i = i + 1;
    }
    assert(attempts@.take(attempts@.len() as int) =~= attempts@);
    if accepted == 0 {
        DispatchOutcome::Failed(failures)
    } else if failures.len() == 0 {
        DispatchOutcome::Delivered(accepted)
    } else {
        DispatchOutcome::PartialDeliveryFailure(accepted, failures)
    }
}

/// The notification settings of each account.
pub struct SettingsStore {
    settings: Table<UserID, NotificationSettings>,
}

/// The settings that apply to account `a`: none configured when it has not set any.
pub open spec fn settings_of(m: Map<Seq<char>, NotificationSettings>, a: Seq<char>) -> NotificationSettings {
    if m.contains_key(a) {
        m[a]
    } else {
        NotificationSettings { telegram: None, slack: None, email: None }
    }
}

impl SettingsStore {
    pub closed spec fn view(&self) -> Map<Seq<char>, NotificationSettings> {
        self.settings.map()
    }

    pub closed spec fn wf(&self) -> bool {
        self.settings.wf()
    }

    pub fn new() -> (r: SettingsStore)
        ensures
            r.wf(),
            r.view() == Map::<Seq<char>, NotificationSettings>::empty(),
    {
        SettingsStore { settings: Table::new() }
    }

    /// The settings of `user_id`; none configured when it has not set any.
    pub fn get_notification_settings(&self, user_id: &UserID) -> (r: NotificationSettings)
        requires
            self.wf(),
        ensures
            r == settings_of(self.view(), user_id@),
    {
        match self.settings.get(user_id) {
            Some(s) => s.clone(),
            None => NotificationSettings::default(),
        }
    }

    /// Replaces the settings of `user_id`.
    pub fn set_notification_settings(&mut self, user_id: &UserID, settings: NotificationSettings)
        requires
            old(self).wf(),
        ensures
            final(self).wf(),
            final(self).view() == old(self).view().insert(user_id@, settings),
    {
        self.settings.insert(user_id.clone(), settings);
    }
}

} // verus!

use crate::clock::unix_now;
use crate::table::Table;
use crate::user::UserID;
use vstd::prelude::*;

verus! {

/// Seconds during which further notifications for an account are suppressed.
pub const DEAD_TIME: i64 = 30;

/// When a cooldown started at `now` ends.
pub open spec fn cooldown_end(now: i64) -> i64 {
    if now <= i64::MAX - DEAD_TIME {
        (now + DEAD_TIME) as i64
    } else {
        i64::MAX
    }
}

/// The cooldowns still running at `now`.
pub open spec fn cleaned(m: Map<Seq<char>, i64>, now: i64) -> Map<Seq<char>, i64> {
    Map::new(|k: Seq<char>| m.contains_key(k) && now < m[k], |k: Seq<char>| m[k])
}

/// Whether a notification for account `k` is suppressed at `now`.
pub open spec fn suppressed(m: Map<Seq<char>, i64>, k: Seq<char>, now: i64) -> bool {
    m.contains_key(k) && now < m[k]
}

/// One decision of the filter for account `k` at `now`: whether to notify, and the
/// cooldowns afterwards.
pub open spec fn filter_step(m: Map<Seq<char>, i64>, k: Seq<char>, now: i64) -> (bool, Map<
    Seq<char>,
    i64,
>) {
    let c = cleaned(m, now);
    if c.contains_key(k) {
        (false, c)
    } else {
        (true, c.insert(k, cooldown_end(now)))
    }
}

/// Two decisions for an account within its cooldown window notify once; a decision
/// after the window has passed notifies again. A window started within `DEAD_TIME`
/// of `i64::MAX` ends at `i64::MAX`.
pub proof fn lemma_cooldown_suppresses_repeats(
    m: Map<Seq<char>, i64>,
    k: Seq<char>,
    t1: i64,
    t2: i64,
    t3: i64,
)
    requires
        !suppressed(m, k, t1),
        t2 < cooldown_end(t1),
        cooldown_end(t1) <= t3,
    ensures
        filter_step(m, k, t1).0,
        !filter_step(filter_step(m, k, t1).1, k, t2).0,
        filter_step(filter_step(filter_step(m, k, t1).1, k, t2).1, k, t3).0,
{
    let s1 = filter_step(m, k, t1);
    assert(!cleaned(m, t1).contains_key(k));
    assert(s1.1.contains_key(k) && s1.1[k] == cooldown_end(t1));
    let s2 = filter_step(s1.1, k, t2);
    assert(cleaned(s1.1, t2).contains_key(k));
    assert(s2.1[k] == cooldown_end(t1));
    assert(!cleaned(s2.1, t3).contains_key(k));
}

/// The per-account cooldown filter in front of the notification dispatcher.
pub struct NotificationFilter {
    last_notifications: Table<UserID, i64>,
}

impl NotificationFilter {
    /// Account to the instant its cooldown ends.
    pub closed spec fn view(&self) -> Map<Seq<char>, i64> {
        self.last_notifications.map()
    }

    pub closed spec fn wf(&self) -> bool {
        self.last_notifications.wf()
    }

    pub fn new() -> (r: NotificationFilter)
        ensures
            r.wf(),
            r.view() == Map::<Seq<char>, i64>::empty(),
    {
        NotificationFilter { last_notifications: Table::new() }
    }

    /// Drops the cooldowns that have ended by `now`.
    pub fn cleanup(&mut self, now: i64)
        requires
            old(self).wf(),
        ensures
            final(self).wf(),
            final(self).view() == cleaned(old(self).view(), now),
    {
        let n = self.last_notifications.len();
        let mut kept: Table<UserID, i64> = Table::new();
        let mut i: usize = 0;
        while i < n
            invariant
                self.wf(),
                kept.wf(),
                n == self.last_notifications.keys@.len(),
                i <= n,
                forall|k: Seq<char>| #[trigger]
                    kept.map().contains_key(k) <==> exists|j: int|
                        0 <= j < i && #[trigger] self.last_notifications.key_view(j) == k && now
                            < self.last_notifications.vals@[j],
                forall|k: Seq<char>| #[trigger]
                    kept.map().contains_key(k) ==> kept.map()[k] == self.view()[k],
            decreases n - i,
        {
            let expires = self.last_notifications.vals[i];
            proof {
                assert(self.last_notifications.map().contains_key(
                    self.last_notifications.key_view(i as int),
                ));
            }
            if now < expires {
                let key = self.last_notifications.keys[i].clone();
                kept.insert(key, expires);
            }
            proof {
                assert forall|k: Seq<char>| #[trigger]
                    kept.map().contains_key(k) <==> exists|j: int|
                        0 <= j < i + 1 && #[trigger] self.last_notifications.key_view(j) == k
                            && now < self.last_notifications.vals@[j] by {
                    if exists|j: int|
                        0 <= j < i + 1 && #[trigger] self.last_notifications.key_view(j) == k && now
                            < self.last_notifications.vals@[j] {
                        let j = choose|j: int|
                            0 <= j < i + 1 && #[trigger] self.last_notifications.key_view(j) == k
                                && now < self.last_notifications.vals@[j];
                        if j < i {
                            assert(kept.map().contains_key(k));
                        }
                    }
                }
            }
            i = i + 1;
        }
        proof {
            assert forall|k: Seq<char>|
                kept.map().contains_key(k) <==> cleaned(self.view(), now).contains_key(k) by {
                if kept.map().contains_key(k) {
                    let j = choose|j: int|
                        0 <= j < n && #[trigger] self.last_notifications.key_view(j) == k && now
                            < self.last_notifications.vals@[j];
                    assert(self.last_notifications.map().contains_key(
                        self.last_notifications.key_view(j),
                    ));
                }
                if cleaned(self.view(), now).contains_key(k) {
                    let j = choose|j: int|
                        0 <= j < self.last_notifications.keys@.len()
                            && #[trigger] self.last_notifications.key_view(j) == k;
                    assert(self.last_notifications.map().contains_key(
                        self.last_notifications.key_view(j),
                    ));
                }
            }
            assert(kept.map() =~= cleaned(self.view(), now));
        }
        self.last_notifications = kept;
    }

    /// Decides at `now` whether to notify account `key`: after dropping ended
    /// cooldowns, a running cooldown for `key` suppresses the notification;
    /// otherwise a cooldown starts and the notification goes ahead.
    pub fn notify_user_at(&mut self, key: &UserID, now: i64) -> (r: bool)
        requires
            old(self).wf(),
        ensures
            final(self).wf(),
            (r, final(self).view()) == filter_step(old(self).view(), key@, now),
            r == !suppressed(old(self).view(), key@, now),
    {
        self.cleanup(now);
        if self.last_notifications.find(key).is_some() {
            return false;
        }
        let until = if now <= i64::MAX - DEAD_TIME {
            now + DEAD_TIME
        } else {
            i64::MAX
        };
        self.last_notifications.insert(key.clone(), until);
        true
    }

    /// [`NotificationFilter::notify_user_at`] at the current time.
    pub fn notify_user(&mut self, key: &UserID) -> (r: bool)
        requires
            old(self).wf(),
        ensures
            final(self).wf(),
            exists|now: i64| (r, final(self).view()) == filter_step(old(self).view(), key@, now),
    {
        let now = unix_now();
        self.notify_user_at(key, now)
    }
}

} // verus!

//! Push notification system: notification channels, priorities, user preferences with
//! quiet hours, and a bounded delivery queue.
use vstd::prelude::*;
use crate::pipeline::fields::Fields;
use crate::types::{now_millis, EntityId};

verus! {

/// Notification priority level, from lowest to highest.
#[derive(Debug, Clone, Copy, PartialEq, Eq, PartialOrd, Ord, Hash, Structural)]
pub enum Priority {
    Low,
    Normal,
    High,
    Critical,
}

/// Notification channel.
#[derive(Debug, Clone, Copy, PartialEq, Eq, Hash, Structural)]
pub enum Channel {
    InApp,
    Push,
    Sms,
    Email,
    Voice,
}

/// Delivery status of a notification.
#[derive(Debug, Clone, Copy, PartialEq, Eq, Structural)]
pub enum DeliveryStatus {
    Pending,
    Sent,
    Delivered,
    Read,
    Failed,
    Expired,
}

/// The rank of a priority (the order of the variants).
pub open spec fn priority_rank(p: Priority) -> nat {
    match p {
        Priority::Low => 0,
        Priority::Normal => 1,
        Priority::High => 2,
        Priority::Critical => 3,
    }
}

fn rank(p: Priority) -> (r: u8)
    ensures
        r == priority_rank(p),
{
    match p {
        Priority::Low => 0,
        Priority::Normal => 1,
        Priority::High => 2,
        Priority::Critical => 3,
    }
}

/// A notification to be delivered.
#[derive(Debug)]
pub struct Notification {
    pub id: EntityId,
    pub title: String,
    pub body: String,
    pub priority: Priority,
    pub channel: Channel,
    pub status: DeliveryStatus,
    /// Creation time, in milliseconds since the Unix epoch.
    pub created_at_ms: i64,
    /// Delivery time, in milliseconds since the Unix epoch.
    pub delivered_at_ms: Option<i64>,
    /// Read time, in milliseconds since the Unix epoch.
    pub read_at_ms: Option<i64>,
    pub user_id: EntityId,
    pub metadata: Fields,
}

/// Two notifications agree on every field (strings and metadata by their contents).
pub open spec fn same_notification(a: Notification, b: Notification) -> bool {
    &&& a.id == b.id
    &&& a.title@ == b.title@
    &&& a.body@ == b.body@
    &&& a.priority == b.priority
    &&& a.channel == b.channel
    &&& a.status == b.status
    &&& a.created_at_ms == b.created_at_ms
    &&& a.delivered_at_ms == b.delivered_at_ms
    &&& a.read_at_ms == b.read_at_ms
    &&& a.user_id == b.user_id
    &&& a.metadata@ == b.metadata@
}

impl Notification {
    /// Create a pending notification with a fresh id, stamped with the current time.
    pub fn new(title: &str, body: &str, priority: Priority, channel: Channel, user_id: EntityId) -> (n: Self)
        ensures
            n.title@ == title@,
            n.body@ == body@,
            n.priority == priority,
            n.channel == channel,
            n.status == DeliveryStatus::Pending,
            n.delivered_at_ms is None,
            n.read_at_ms is None,
            n.user_id == user_id,
            n.metadata@ == Map::<Seq<char>, Seq<char>>::empty(),
    {
        Notification {
            id: EntityId::new(),
            title: title.to_owned(),
            body: body.to_owned(),
            priority,
            channel,
            status: DeliveryStatus::Pending,
            created_at_ms: now_millis(),
            delivered_at_ms: None,
            read_at_ms: None,
            user_id,
            metadata: Fields::new(),
        }
    }
}

impl Clone for Notification {
    /// A copy agreeing on every field.
    fn clone(&self) -> (c: Self)
        ensures
            same_notification(c, *self),
    {
        Notification {
            id: self.id,
            title: self.title.clone(),
            body: self.body.clone(),
            priority: self.priority,
            channel: self.channel,
            status: self.status,
            created_at_ms: self.created_at_ms,
            delivered_at_ms: self.delivered_at_ms,
            read_at_ms: self.read_at_ms,
            user_id: self.user_id,
            metadata: self.metadata.clone(),
        }
    }
}

/// User notification preferences.
#[derive(Debug, Clone)]
pub struct NotificationPreferences {
    pub user_id: EntityId,
    pub enabled_channels: Vec<Channel>,
    pub quiet_hours_start: Option<u8>,
    pub quiet_hours_end: Option<u8>,
    pub min_priority: Priority,
}

/// Whether `hour` falls in the quiet hours from `start` (inclusive) to `end` (exclusive),
/// which wrap past midnight when `start > end`.
pub open spec fn in_quiet_hours(start: u8, end: u8, hour: u8) -> bool {
    if start <= end {
        start <= hour && hour < end
    } else {
        hour >= start || hour < end
    }
}

/// What decides delivery in a set of preferences: the enabled channels, the quiet hours
/// and the minimum priority.
pub type PrefsView = (Seq<Channel>, Option<u8>, Option<u8>, Priority);

/// The deciding part of a set of preferences.
pub open spec fn prefs_view(p: NotificationPreferences) -> PrefsView {
    (p.enabled_channels@, p.quiet_hours_start, p.quiet_hours_end, p.min_priority)
}

/// The default preferences: in-app and push channels, no quiet hours, every priority.
pub open spec fn default_view() -> PrefsView {
    (seq![Channel::InApp, Channel::Push], None, None, Priority::Low)
}

/// Whether preferences let a notification through at `hour`: its priority reaches the
/// minimum, its channel is enabled, and outside quiet hours; inside them only critical
/// notifications pass.
pub open spec fn delivers(v: PrefsView, n: Notification, hour: u8) -> bool {
    &&& priority_rank(n.priority) >= priority_rank(v.3)
    &&& v.0.contains(n.channel)
    &&& match (v.1, v.2) {
        (Some(s), Some(e)) => in_quiet_hours(s, e, hour) ==> n.priority == Priority::Critical,
        _ => true,
    }
}

/// Whether the preferences `p` let `n` through at `hour`.
pub open spec fn spec_should_deliver(p: NotificationPreferences, n: Notification, hour: u8) -> bool {
    delivers(prefs_view(p), n, hour)
}

impl NotificationPreferences {
    /// The default preferences: in-app and push channels, no quiet hours, every priority.
    pub fn default_for(user_id: EntityId) -> (p: Self)
        ensures
            p.user_id == user_id,
            p.enabled_channels@ == seq![Channel::InApp, Channel::Push],
            p.quiet_hours_start is None,
            p.quiet_hours_end is None,
            p.min_priority == Priority::Low,
    {
        let mut channels: Vec<Channel> = Vec::new();
        channels.push(Channel::InApp);
        channels.push(Channel::Push);
        assert(channels@ =~= seq![Channel::InApp, Channel::Push]);
        NotificationPreferences {
            user_id,
            enabled_channels: channels,
            quiet_hours_start: None,
            quiet_hours_end: None,
            min_priority: Priority::Low,
        }
    }

    /// Whether a notification should be delivered at `current_hour`.
    pub fn should_deliver(&self, notification: &Notification, current_hour: u8) -> (b: bool)
        ensures
            b == spec_should_deliver(*self, *notification, current_hour),
    {
        if rank(notification.priority) < rank(self.min_priority) {
            return false;
        }
        let mut found = false;
        let mut i: usize = 0;
        while i < self.enabled_channels.len()
            invariant
                i <= self.enabled_channels@.len(),
                found == exists|j: int| 0 <= j < i && self.enabled_channels@[j] == notification.channel,
            decreases self.enabled_channels@.len() - i,
        {
            if self.enabled_channels[i] == notification.channel {
                found = true;
            }
            i = i + 1;
        }
        if !found {
            return false;
        }
        match (self.quiet_hours_start, self.quiet_hours_end) {
            (Some(start), Some(end)) => {
                let quiet = if start <= end {
                    current_hour >= start && current_hour < end
                } else {
                    current_hour >= start || current_hour < end
                };
                if quiet {
                    return notification.priority == Priority::Critical;
                }
                true
            },
            _ => true,
        }
    }
}

/// The preferences that apply to a user: the stored ones, or the defaults.
pub open spec fn prefs_for(prefs: Seq<NotificationPreferences>, user: EntityId) -> PrefsView {
    if exists|i: int| 0 <= i < prefs.len() && prefs[i].user_id == user {
        prefs_view(prefs[choose|i: int| 0 <= i < prefs.len() && prefs[i].user_id == user])
    } else {
        default_view()
    }
}

/// Whether a notification would be delivered now under the stored preferences.
pub open spec fn deliverable(prefs: Seq<NotificationPreferences>, hour: u8) -> spec_fn(Notification) -> bool {
    |n: Notification| delivers(prefs_for(prefs, n.user_id), n, hour)
}

/// Whether a notification would be held back now.
pub open spec fn held_back(prefs: Seq<NotificationPreferences>, hour: u8) -> spec_fn(Notification) -> bool {
    |n: Notification| !delivers(prefs_for(prefs, n.user_id), n, hour)
}

/// The position of the first queued notification of lower priority than `p`, if any.
pub open spec fn first_lower(q: Seq<Notification>, p: Priority) -> Option<int> {
    if exists|i: int| 0 <= i < q.len() && priority_rank(q[i].priority) < priority_rank(p) {
        Some(
            choose|i: int|
                0 <= i < q.len() && priority_rank(q[i].priority) < priority_rank(p) && forall|j: int|
                    0 <= j < i ==> priority_rank(q[j].priority) >= priority_rank(p),
        )
    } else {
        None
    }
}

/// No two preference records are for the same user.
pub open spec fn users_distinct(p: Seq<NotificationPreferences>) -> bool {
    forall|a: int, b: int| 0 <= a < p.len() && 0 <= b < p.len() && a != b ==> p[a].user_id != p[b].user_id
}

/// The predicate "for this user and not read".
pub open spec fn unread_of(user: EntityId) -> spec_fn(Notification) -> bool {
    |n: Notification| n.user_id == user && n.status != DeliveryStatus::Read
}

/// The predicate "for this user".
pub open spec fn of_user(user: EntityId) -> spec_fn(Notification) -> bool {
    |n: Notification| n.user_id == user
}

/// Notification dispatcher: a bounded queue, the delivered notifications, and user
/// preferences.
pub struct NotificationDispatcher {
    queue: Vec<Notification>,
    delivered: Vec<Notification>,
    preferences: Vec<NotificationPreferences>,
    max_queue_size: usize,
}

impl NotificationDispatcher {
    #[verifier::type_invariant]
    spec fn inv(self) -> bool {
        users_distinct(self.preferences@)
    }

    /// The queued notifications, in order.
    pub closed spec fn spec_queue(&self) -> Seq<Notification> {
        self.queue@
    }

    /// The delivered notifications, in delivery order.
    pub closed spec fn spec_delivered(&self) -> Seq<Notification> {
        self.delivered@
    }

    /// The stored preferences, at most one per user.
    pub closed spec fn spec_prefs(&self) -> Seq<NotificationPreferences> {
        self.preferences@
    }

    /// The queue bound.
    pub closed spec fn spec_max(&self) -> usize {
        self.max_queue_size
    }

    /// A dispatcher with empty queues and no stored preferences.
    pub fn new(max_queue_size: usize) -> (d: Self)
        ensures
            d.spec_queue().len() == 0,
            d.spec_delivered().len() == 0,
            d.spec_prefs().len() == 0,
            d.spec_max() == max_queue_size,
    {
        let preferences: Vec<NotificationPreferences> = Vec::new();
        NotificationDispatcher { queue: Vec::new(), delivered: Vec::new(), preferences, max_queue_size }
    }

    /// Store a user's preferences, replacing earlier ones for that user.
    pub fn set_preferences(&mut self, prefs: NotificationPreferences)
        ensures
            prefs_for(final(self).spec_prefs(), prefs.user_id) == prefs_view(prefs),
            forall|u: EntityId| u != prefs.user_id ==> prefs_for(final(self).spec_prefs(), u)
                == prefs_for(old(self).spec_prefs(), u),
            final(self).spec_queue() == old(self).spec_queue(),
            final(self).spec_delivered() == old(self).spec_delivered(),
            final(self).spec_max() == old(self).spec_max(),
    {
        proof {
            use_type_invariant(&*self);
        }
        let ghost p0 = self.preferences@;
        let mut found: Option<usize> = None;
        let mut i: usize = 0;
        while i < self.preferences.len()
            invariant
                p0 == self.preferences@,
                i <= p0.len(),
                match found {
                    Some(k) => k < i && p0[k as int].user_id == prefs.user_id,
                    None => forall|j: int| 0 <= j < i ==> p0[j].user_id != prefs.user_id,
                },
            decreases p0.len() - i,
        {
            if self.preferences[i].user_id == prefs.user_id {
                found = Some(i);
            }
            i = i + 1;
        }
        let mut all: Vec<NotificationPreferences> = Vec::new();
        std::mem::swap(&mut all, &mut self.preferences);
        let ghost user = prefs.user_id;
        match found {
            Some(k) => {
                all.set(k, prefs);
                proof {
                    let p1 = all@;
                    assert(users_distinct(p1)) by {
                        assert forall|a: int, b: int|
                            0 <= a < p1.len() && 0 <= b < p1.len() && a != b implies p1[a].user_id
                            != p1[b].user_id by {
                            if a != k && b != k {
                                assert(p1[a] == p0[a] && p1[b] == p0[b]);
                            } else if a == k {
                                assert(p1[b] == p0[b]);
                            } else {
                                assert(p1[a] == p0[a]);
                            }
                        }
                    }
                    lemma_prefs_for_at(p1, k as int);
                    assert forall|u: EntityId| u != user implies prefs_for(p1, u) == prefs_for(p0, u) by {
                        lemma_prefs_for_other(p0, k as int, prefs, u);
                    }
                }
            },
            None => {
                all.push(prefs);
                proof {
                    let p1 = all@;
                    assert(users_distinct(p1)) by {
                        assert forall|a: int, b: int|
                            0 <= a < p1.len() && 0 <= b < p1.len() && a != b implies p1[a].user_id
                            != p1[b].user_id by {
                            if a < p0.len() && b < p0.len() {
                                assert(p1[a] == p0[a] && p1[b] == p0[b]);
                            } else if a < p0.len() {
                                assert(p1[a] == p0[a]);
                            } else {
                                assert(p1[b] == p0[b]);
                            }
                        }
                    }
                    lemma_prefs_for_at(p1, p0.len() as int);
                    assert forall|u: EntityId| u != user implies prefs_for(p1, u) == prefs_for(p0, u) by {
                        lemma_prefs_for_push(p0, prefs, u);
                    }
                }
            },
        }
        self.preferences = all;
    }

    /// Enqueue a notification. When the queue is full the first queued notification of
    /// lower priority makes room; without one the notification is refused.
    pub fn enqueue(&mut self, notification: Notification) -> (ok: bool)
        ensures
            final(self).spec_delivered() == old(self).spec_delivered(),
            final(self).spec_prefs() == old(self).spec_prefs(),
            final(self).spec_max() == old(self).spec_max(),
            old(self).spec_queue().len() < old(self).spec_max() ==> ok && final(self).spec_queue()
                == old(self).spec_queue().push(notification),
            old(self).spec_queue().len() >= old(self).spec_max() ==> match first_lower(
                old(self).spec_queue(),
                notification.priority,
            ) {
                Some(p) => ok && final(self).spec_queue() == old(self).spec_queue().remove(p).push(
                    notification,
                ),
                None => !ok && final(self).spec_queue() == old(self).spec_queue(),
            },
    {
        proof {
            use_type_invariant(&*self);
        }
        let ghost q0 = self.queue@;
        let mut queue: Vec<Notification> = Vec::new();
        std::mem::swap(&mut queue, &mut self.queue);
        if queue.len() >= self.max_queue_size {
            let pr = rank(notification.priority);
            let mut pos: Option<usize> = None;
            let mut i: usize = 0;
            while i < queue.len() && pos.is_none()
                invariant
                    queue@ == q0,
                    i <= q0.len(),
                    pr == priority_rank(notification.priority),
                    match pos {
                        Some(k) => k < q0.len() && priority_rank(q0[k as int].priority) < pr
                            && forall|j: int| 0 <= j < k ==> priority_rank(q0[j].priority) >= pr,
                        None => forall|j: int| 0 <= j < i ==> priority_rank(q0[j].priority) >= pr,
                    },
                decreases q0.len() - i + (if pos is None { 1int } else { 0int }),
            {
                if rank(queue[i].priority) < pr {
                    pos = Some(i);
                } else {
                    i = i + 1;
                }
            }
            match pos {
                Some(k) => {
                    proof {
                        let c = choose|j: int|
                            0 <= j < q0.len() && priority_rank(q0[j].priority) < pr && forall|m: int|
                                0 <= m < j ==> priority_rank(q0[m].priority) >= pr;
                        assert(c == k) by {
                            if c < k {
                                assert(priority_rank(q0[c].priority) >= pr);
                            } else if c > k {
                                assert(priority_rank(q0[k as int].priority) >= pr);
                            }
                        }
                    }
                    let _evicted = queue.remove(k);
                },
                None => {
                    self.queue = queue;
                    return false;
                },
            }
        }
        queue.push(notification);
        self.queue = queue;
        true
    }

    fn lookup_prefs(&self, user: EntityId) -> (p: NotificationPreferences)
        ensures
            prefs_view(p) == prefs_for(self.spec_prefs(), user),
    {
        proof {
            use_type_invariant(self);
        }
        let ghost ps = self.preferences@;
        let mut i: usize = 0;
        while i < self.preferences.len()
            invariant
                ps == self.preferences@,
                users_distinct(ps),
                i <= ps.len(),
                forall|j: int| 0 <= j < i ==> ps[j].user_id != user,
            decreases ps.len() - i,
        {
            if self.preferences[i].user_id == user {
                proof {
                    lemma_prefs_for_at(ps, i as int);
                }
                let p = &self.preferences[i];
                return NotificationPreferences {
                    user_id: p.user_id,
                    enabled_channels: p.enabled_channels.clone(),
                    quiet_hours_start: p.quiet_hours_start,
                    quiet_hours_end: p.quiet_hours_end,
                    min_priority: p.min_priority,
                };
            }
            i = i + 1;
        }
        let d = NotificationPreferences::default_for(user);
        d
    }

    /// Deliver the queued notifications that the preferences let through now, in queue
    /// order, stamped as delivered; the others stay queued, marked expired. Returns how
    /// many were delivered and how many held back.
    pub fn process(&mut self, current_hour: u8) -> (counts: (usize, usize))
        ensures
            ({
                let q = old(self).spec_queue();
                let go = q.filter(deliverable(old(self).spec_prefs(), current_hour));
                let stay = q.filter(held_back(old(self).spec_prefs(), current_hour));
                let d0 = old(self).spec_delivered();
                &&& counts.0 == go.len()
                &&& counts.1 == stay.len()
                &&& final(self).spec_delivered().len() == d0.len() + go.len()
                &&& final(self).spec_delivered().take(d0.len() as int) == d0
                &&& forall|i: int|
                    0 <= i < go.len() ==> ({
                        let n = #[trigger] final(self).spec_delivered()[d0.len() + i];
                        &&& same_notification(
                            n,
                            Notification {
                                status: DeliveryStatus::Delivered,
                                delivered_at_ms: n.delivered_at_ms,
                                ..go[i]
                            },
                        )
                        &&& n.delivered_at_ms is Some
                    })
                &&& final(self).spec_queue().len() == stay.len()
                &&& forall|i: int|
                    0 <= i < stay.len() ==> same_notification(
                        #[trigger] final(self).spec_queue()[i],
                        Notification { status: DeliveryStatus::Expired, ..stay[i] },
                    )
            }),
            final(self).spec_prefs() == old(self).spec_prefs(),
            final(self).spec_max() == old(self).spec_max(),
    {
        proof {
            use_type_invariant(&*self);
        }
        let ghost q = self.queue@;
        let ghost d0 = self.delivered@;
        let ghost fd = deliverable(self.preferences@, current_hour);
        let ghost fh = held_back(self.preferences@, current_hour);
        let mut queue: Vec<Notification> = Vec::new();
        std::mem::swap(&mut queue, &mut self.queue);
        let mut delivered: Vec<Notification> = Vec::new();
        std::mem::swap(&mut delivered, &mut self.delivered);
        let mut remaining: Vec<Notification> = Vec::new();
        let mut delivered_count: usize = 0;
        let mut skipped_count: usize = 0;
        proof {
            reveal(Seq::filter);
            assert(q.take(0) =~= Seq::<Notification>::empty());
        }
        let queue_len = queue.len();
        for notif in it: queue
            invariant
                it.seq() == q,
                q.len() == queue_len,
                it.index() <= q.len(),
                fd == deliverable(self.preferences@, current_hour),
                fh == held_back(self.preferences@, current_hour),
                delivered_count == q.take(it.index() as int).filter(fd).len(),
                skipped_count == q.take(it.index() as int).filter(fh).len(),
                delivered_count + skipped_count == it.index(),
                delivered@.len() == d0.len() + delivered_count,
                delivered@.take(d0.len() as int) == d0,
                forall|i: int|
                    0 <= i < delivered_count ==> ({
                        let n = #[trigger] delivered@[d0.len() + i];
                        &&& same_notification(
                            n,
                            Notification {
                                status: DeliveryStatus::Delivered,
                                delivered_at_ms: n.delivered_at_ms,
                                ..q.take(it.index() as int).filter(fd)[i]
                            },
                        )
                        &&& n.delivered_at_ms is Some
                    }),
                remaining@.len() == skipped_count,
                forall|i: int|
                    0 <= i < skipped_count ==> same_notification(
                        #[trigger] remaining@[i],
                        Notification {
                            status: DeliveryStatus::Expired,
                            ..q.take(it.index() as int).filter(fh)[i]
                        },
                    ),
        {
            let ghost k = it.index() as int;
            let ghost n0 = q[k];
            proof {
                assert(q.take(k + 1) =~= q.take(k).push(q[k]));
                q.take(k).lemma_filter_push(q[k], fd);
                q.take(k).lemma_filter_push(q[k], fh);
            }
            let prefs = self.lookup_prefs(notif.user_id);
            let go = prefs.should_deliver(&notif, current_hour);
            let mut n = notif;
            if go {
                n.status = DeliveryStatus::Delivered;
                n.delivered_at_ms = Some(now_millis());
                let ghost dl = delivered@;
                delivered.push(n);
                proof {
                    assert(delivered@.take(d0.len() as int) =~= dl.take(d0.len() as int));
                }
                delivered_count = delivered_count + 1;
            } else {
                n.status = DeliveryStatus::Expired;
                remaining.push(n);
                skipped_count = skipped_count + 1;
            }
        }
        proof {
            assert(q.take(q.len() as int) =~= q);
        }
        self.queue = remaining;
        self.delivered = delivered;
        (delivered_count, skipped_count)
    }

    /// Copies of the delivered notifications of a user, in delivery order.
    pub fn delivered_for_user(&self, user_id: EntityId) -> (r: Vec<Notification>)
        ensures
            r@.len() == self.spec_delivered().filter(of_user(user_id)).len(),
            forall|i: int|
                0 <= i < r@.len() ==> same_notification(
                    #[trigger] r@[i],
                    self.spec_delivered().filter(of_user(user_id))[i],
                ),
    {
        let ghost s = self.delivered@;
        let ghost f = of_user(user_id);
        let mut out: Vec<Notification> = Vec::new();
        let mut i: usize = 0;
        proof {
            reveal(Seq::filter);
            assert(s.take(0) =~= Seq::<Notification>::empty());
        }
        while i < self.delivered.len()
            invariant
                s == self.delivered@,
                f == of_user(user_id),
                i <= s.len(),
                out@.len() == s.take(i as int).filter(f).len(),
                forall|j: int|
                    0 <= j < out@.len() ==> same_notification(
                        #[trigger] out@[j],
                        s.take(i as int).filter(f)[j],
                    ),
            decreases s.len() - i,
        {
            proof {
                assert(s.take(i + 1) =~= s.take(i as int).push(s[i as int]));
                s.take(i as int).lemma_filter_push(s[i as int], f);
            }
            if self.delivered[i].user_id == user_id {
                out.push(self.delivered[i].clone());
            }
            i = i + 1;
        }
        proof {
            assert(s.take(i as int) =~= s);
        }
        out
    }

    /// Mark the first delivered notification with this id as read; false when there is
    /// none.
    pub fn mark_read(&mut self, notification_id: EntityId) -> (found: bool)
        ensures
            found == exists|i: int|
                0 <= i < old(self).spec_delivered().len() && old(self).spec_delivered()[i].id
                    == notification_id,
            final(self).spec_delivered().len() == old(self).spec_delivered().len(),
            forall|i: int|
                0 <= i < old(self).spec_delivered().len() ==> {
                    let o = old(self).spec_delivered()[i];
                    let n = #[trigger] final(self).spec_delivered()[i];
                    if o.id == notification_id && forall|j: int|
                        0 <= j < i ==> old(self).spec_delivered()[j].id != notification_id {
                        &&& n.status == DeliveryStatus::Read
                        &&& n.read_at_ms is Some
                        &&& same_notification(
                            n,
                            Notification { status: DeliveryStatus::Read, read_at_ms: n.read_at_ms, ..o },
                        )
                    } else {
                        n == o
                    }
                },
            final(self).spec_queue() == old(self).spec_queue(),
            final(self).spec_prefs() == old(self).spec_prefs(),
            final(self).spec_max() == old(self).spec_max(),
    {
        proof {
            use_type_invariant(&*self);
        }
        let ghost d0 = self.delivered@;
        let mut i: usize = 0;
        let mut found = false;
        while i < self.delivered.len() && !found
            invariant
                d0 == self.delivered@,
                i <= d0.len(),
                found ==> i < d0.len() && d0[i as int].id == notification_id,
                forall|j: int| 0 <= j < i ==> d0[j].id != notification_id,
            decreases d0.len() - i + (if found { 0int } else { 1int }),
        {
            if self.delivered[i].id == notification_id {
                found = true;
            } else {
                i = i + 1;
            }
        }
        if !found {
            return false;
        }
        let mut delivered: Vec<Notification> = Vec::new();
        std::mem::swap(&mut delivered, &mut self.delivered);
        let mut n = delivered.remove(i);
        n.status = DeliveryStatus::Read;
        n.read_at_ms = Some(now_millis());
        delivered.insert(i, n);
        proof {
            assert forall|j: int| 0 <= j < d0.len() && j != i implies delivered@[j] == d0[j] by {}
        }
        self.delivered = delivered;
        true
    }

    /// Number of queued notifications.
    pub fn queue_len(&self) -> (n: usize)
        ensures
            n == self.spec_queue().len(),
    {
        self.queue.len()
    }

    /// Number of delivered notifications.
    pub fn delivered_count(&self) -> (n: usize)
        ensures
            n == self.spec_delivered().len(),
    {
        self.delivered.len()
    }

    /// Number of delivered, unread notifications of a user.
    pub fn unread_count(&self, user_id: EntityId) -> (n: usize)
        ensures
            n == self.spec_delivered().filter(unread_of(user_id)).len(),
    {
        let ghost s = self.delivered@;
        let ghost f = unread_of(user_id);
        let mut count: usize = 0;
        let mut i: usize = 0;
        proof {
            reveal(Seq::filter);
            assert(s.take(0) =~= Seq::<Notification>::empty());
        }
        while i < self.delivered.len()
            invariant
                s == self.delivered@,
                f == unread_of(user_id),
                i <= s.len(),
                count == s.take(i as int).filter(f).len(),
                count <= i,
            decreases s.len() - i,
        {
            proof {
                assert(s.take(i + 1) =~= s.take(i as int).push(s[i as int]));
                s.take(i as int).lemma_filter_push(s[i as int], f);
            }
            if self.delivered[i].user_id == user_id && self.delivered[i].status
                != DeliveryStatus::Read {
                count = count + 1;
            }
            i = i + 1;
        }
        proof {
            assert(s.take(i as int) =~= s);
        }
        count
    }
}

/// With distinct users, the preferences stored at position `k` are the ones that apply
/// to their user.
proof fn lemma_prefs_for_at(p: Seq<NotificationPreferences>, k: int)
    requires
        users_distinct(p),
        0 <= k < p.len(),
    ensures
        prefs_for(p, p[k].user_id) == prefs_view(p[k]),
{
    let u = p[k].user_id;
    let c = choose|i: int| 0 <= i < p.len() && p[i].user_id == u;
    assert(c == k);
}

proof fn lemma_prefs_for_other(p: Seq<NotificationPreferences>, k: int, x: NotificationPreferences, u: EntityId)
    requires
        users_distinct(p),
        0 <= k < p.len(),
        p[k].user_id == x.user_id,
        u != x.user_id,
        users_distinct(p.update(k, x)),
    ensures
        prefs_for(p.update(k, x), u) == prefs_for(p, u),
{
    let q = p.update(k, x);
    if exists|i: int| 0 <= i < p.len() && p[i].user_id == u {
        let i = choose|i: int| 0 <= i < p.len() && p[i].user_id == u;
        assert(i != k);
        assert(q[i] == p[i]);
        lemma_prefs_for_at(p, i);
        lemma_prefs_for_at(q, i);
    } else {
        assert forall|i: int| 0 <= i < q.len() implies q[i].user_id != u by {
            if i != k {
                assert(q[i] == p[i]);
            }
        }
    }
}

proof fn lemma_prefs_for_push(p: Seq<NotificationPreferences>, x: NotificationPreferences, u: EntityId)
    requires
        users_distinct(p),
        u != x.user_id,
        users_distinct(p.push(x)),
    ensures
        prefs_for(p.push(x), u) == prefs_for(p, u),
{
    let q = p.push(x);
    if exists|i: int| 0 <= i < p.len() && p[i].user_id == u {
        let i = choose|i: int| 0 <= i < p.len() && p[i].user_id == u;
        assert(q[i] == p[i]);
        lemma_prefs_for_at(p, i);
        lemma_prefs_for_at(q, i);
    } else {
        assert forall|i: int| 0 <= i < q.len() implies q[i].user_id != u by {
            if i < p.len() {
                assert(q[i] == p[i]);
            }
        }
    }
}

/// Quiet hours never hold back a critical notification that passes the priority and
/// channel checks.
pub proof fn law_critical_bypasses_quiet_hours(p: NotificationPreferences, n: Notification, hour: u8)
    requires
        n.priority == Priority::Critical,
        p.enabled_channels@.contains(n.channel),
    ensures
        spec_should_deliver(p, n, hour),
{
}

/// Every processed notification is accounted for: those delivered and those held back
/// add up to the queue that was processed.
pub proof fn law_process_accounts_for_all(q: Seq<Notification>, prefs: Seq<NotificationPreferences>, hour: u8)
    ensures
        q.filter(deliverable(prefs, hour)).len() + q.filter(held_back(prefs, hour)).len() == q.len(),
    decreases q.len(),
{
    reveal(Seq::filter);
    if q.len() > 0 {
        law_process_accounts_for_all(q.drop_last(), prefs, hour);
    }
}

} // verus!

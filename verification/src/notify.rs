//! Notification queue and lifecycle management.
//!
//! A state machine for toast-style notifications: incoming messages are
//! routed through rules, shown in a bounded number of display slots or
//! queued, expire after their display duration (unless pinned), and queued
//! messages are promoted, oldest first, as slots free up.
//!
//! Every operation of [`NotifyQueue`] is stated as a transition of its view,
//! a [`QueueState`]; the laws of the queue are proved over those transitions
//! in `crate::laws`.

use vstd::prelude::*;
use std::collections::VecDeque;
use crate::message::{Message, MessageSource, Severity};
use crate::time::{Duration, Instant, MAX_DURATION_NANOS, fits_after, point_after, span_since};

verus! {

/// Maximum number of notifications visible at once, unless configured otherwise.
pub const DEFAULT_MAX_VISIBLE: usize = 5;

/// A notification that is currently being displayed.
#[derive(Debug)]
pub struct ActiveNotification {
    /// The message being displayed.
    pub message: Message,
    /// When this notification was first shown.
    pub shown_at: Instant,
    /// When this notification should auto-dismiss.
    pub dismiss_at: Instant,
    /// Whether the user has pinned this notification (prevents auto-dismiss).
    pub pinned: bool,
}

/// `message` as shown at `now`: unpinned, dismissed after its display duration.
pub open spec fn shown_now(message: Message, now: Instant) -> ActiveNotification {
    ActiveNotification {
        message,
        shown_at: now,
        dismiss_at: point_after(now, message.shown_for()),
        pinned: false,
    }
}

impl ActiveNotification {
    /// Whether the notification has run out its time at `now`.
    pub open spec fn expired_at(self, now: Instant) -> bool {
        !self.pinned && now@ >= self.dismiss_at@
    }

    /// Time left before auto-dismiss at `now`; the longest span when pinned.
    pub open spec fn remaining_at(self, now: Instant) -> Duration {
        if self.pinned {
            Duration { nanos: MAX_DURATION_NANOS }
        } else {
            span_since(self.dismiss_at, now)
        }
    }

    /// Create a new active notification from a message, shown at `now`.
    pub fn new(message: Message, now: Instant) -> (n: ActiveNotification)
        requires
            fits_after(now, message.shown_for()),
        ensures
            n == shown_now(message, now),
    {
        let duration = message.effective_duration();
        ActiveNotification { dismiss_at: now + duration, shown_at: now, message, pinned: false }
    }

    /// Check if this notification has expired at the given time.
    pub fn is_expired(&self, now: Instant) -> (expired: bool)
        ensures
            expired == self.expired_at(now),
    {
        !self.pinned && now.as_nanos() >= self.dismiss_at.as_nanos()
    }

    /// Remaining time before auto-dismiss.
    pub fn remaining(&self, now: Instant) -> (left: Duration)
        ensures
            left == self.remaining_at(now),
    {
        if self.pinned {
            Duration::maximum()
        } else {
            self.dismiss_at.saturating_duration_since(now)
        }
    }

    /// Pin this notification to prevent auto-dismiss.
    pub fn pin(&mut self)
        ensures
            *final(self) == (ActiveNotification { pinned: true, ..*old(self) }),
    {
        self.pinned = true;
    }

    /// Unpin and reset the dismiss timer from now.
    pub fn unpin(&mut self, now: Instant)
        requires
            fits_after(now, old(self).message.shown_for()),
        ensures
            *final(self) == (ActiveNotification {
                pinned: false,
                dismiss_at: point_after(now, old(self).message.shown_for()),
                ..*old(self)
            }),
    {
        self.pinned = false;
        self.dismiss_at = now + self.message.effective_duration();
    }
}

/// Rule for routing messages from a particular source.
#[derive(Debug, Clone)]
pub struct RouteRule {
    /// Source pattern to match.
    pub source: MessageSource,
    /// Override the severity for matched messages.
    pub override_severity: Option<Severity>,
    /// Override the display duration.
    pub override_duration: Option<Duration>,
    /// If true, suppress (don't display) messages from this source.
    pub suppress: bool,
}

/// What `rule` makes of a message it matches: `None` when it suppresses it,
/// otherwise the message with the rule's overrides applied.
pub open spec fn rule_outcome(rule: RouteRule, m: Message) -> Option<Message> {
    if rule.suppress {
        None
    } else {
        Some(
            Message {
                severity: match rule.override_severity {
                    Some(s) => s,
                    None => m.severity,
                },
                duration: match rule.override_duration {
                    Some(d) => Some(d),
                    None => m.duration,
                },
                ..m
            },
        )
    }
}

/// A message after passing through `rules` in order: each rule whose source
/// equals the message's source is applied to the result of the earlier ones;
/// `None` once a matching rule suppresses it.
pub open spec fn routed(rules: Seq<RouteRule>, m: Message) -> Option<Message>
    decreases rules.len(),
{
    if rules.len() == 0 {
        Some(m)
    } else if rules[0].source@ == m.source@ {
        match rule_outcome(rules[0], m) {
            None => None,
            Some(next) => routed(rules.drop_first(), next),
        }
    } else {
        routed(rules.drop_first(), m)
    }
}

impl RouteRule {
    /// Create a route rule for the given source.
    pub fn new(source: MessageSource) -> (rule: RouteRule)
        ensures
            rule == (RouteRule {
                source,
                override_severity: None,
                override_duration: None,
                suppress: false,
            }),
    {
        RouteRule { source, override_severity: None, override_duration: None, suppress: false }
    }

    /// Suppress messages from this source entirely.
    pub fn suppress(self) -> (rule: RouteRule)
        ensures
            rule == (RouteRule { suppress: true, ..self }),
    {
        let mut rule = self;
        rule.suppress = true;
        rule
    }

    /// Override the severity for matched messages.
    pub fn severity(self, severity: Severity) -> (rule: RouteRule)
        ensures
            rule == (RouteRule { override_severity: Some(severity), ..self }),
    {
        let mut rule = self;
        rule.override_severity = Some(severity);
        rule
    }

    /// Override the display duration for matched messages.
    pub fn duration(self, duration: Duration) -> (rule: RouteRule)
        ensures
            rule == (RouteRule { override_duration: Some(duration), ..self }),
    {
        let mut rule = self;
        rule.override_duration = Some(duration);
        rule
    }

    /// Apply this rule to a message, returning `None` if suppressed.
    fn apply(&self, message: Message) -> (out: Option<Message>)
        ensures
            out == rule_outcome(*self, message),
    {
        if self.suppress {
            return None;
        }
        let mut message = message;
        if let Some(severity) = self.override_severity {
            message.severity = severity;
        }
        if let Some(duration) = self.override_duration {
            message.duration = Some(duration);
        }
        Some(message)
    }
}

/// The notifications of `s` that are still shown at `now`, in order.
pub open spec fn still_shown(s: Seq<ActiveNotification>, now: Instant) -> Seq<ActiveNotification> {
    s.filter(|n: ActiveNotification| !n.expired_at(now))
}

/// The ids of the notifications of `s` that have expired at `now`, in order.
pub open spec fn expired_ids(s: Seq<ActiveNotification>, now: Instant) -> Seq<u64> {
    s.filter(|n: ActiveNotification| n.expired_at(now)).map_values(
        |n: ActiveNotification| n.message.id,
    )
}

/// The notifications of `s` whose message id is not `id`.
pub open spec fn active_without(s: Seq<ActiveNotification>, id: u64) -> Seq<ActiveNotification> {
    s.filter(|n: ActiveNotification| n.message.id != id)
}

/// The messages of `s` whose id is not `id`.
pub open spec fn pending_without(s: Seq<Message>, id: u64) -> Seq<Message> {
    s.filter(|m: Message| m.id != id)
}

/// `i` is the first position in `s` whose message has id `id`.
pub open spec fn first_at(s: Seq<ActiveNotification>, id: u64, i: int) -> bool {
    &&& 0 <= i < s.len()
    &&& s[i].message.id == id
    &&& forall|j: int| 0 <= j < i ==> s[j].message.id != id
}

/// The first position in `s` whose message has id `id`, or -1.
pub open spec fn slot_of(s: Seq<ActiveNotification>, id: u64) -> int {
    if exists|i: int| first_at(s, id, i) {
        choose|i: int| first_at(s, id, i)
    } else {
        -1
    }
}

/// The least remaining time among the unpinned notifications of `s` at `now`
/// (the earliest one when several are equal); `None` when all are pinned.
pub open spec fn soonest(s: Seq<ActiveNotification>, now: Instant) -> Option<Duration>
    decreases s.len(),
{
    if s.len() == 0 {
        None
    } else {
        let earlier = soonest(s.drop_last(), now);
        let n = s.last();
        if n.pinned {
            earlier
        } else {
            let d = n.remaining_at(now);
            match earlier {
                None => Some(d),
                Some(e) => if e@ <= d@ {
                    Some(e)
                } else {
                    Some(d)
                },
            }
        }
    }
}

/// The notification queue as a mathematical value.
pub struct QueueState {
    /// Notifications on screen, oldest first.
    pub active: Seq<ActiveNotification>,
    /// Messages waiting for a display slot, oldest first.
    pub pending: Seq<Message>,
    /// Number of display slots.
    pub max_visible: nat,
    /// Routing rules, applied in order.
    pub routes: Seq<RouteRule>,
    /// Number of messages accepted so far.
    pub total_pushed: nat,
    /// Number of notifications dismissed so far.
    pub total_dismissed: nat,
}

/// The state of a newly created queue.
pub open spec fn fresh_queue() -> QueueState {
    QueueState {
        active: seq![],
        pending: seq![],
        max_visible: DEFAULT_MAX_VISIBLE as nat,
        routes: seq![],
        total_pushed: 0,
        total_dismissed: 0,
    }
}

impl QueueState {
    /// The queue always has at least one display slot.
    pub open spec fn wf(self) -> bool {
        self.max_visible >= 1
    }

    /// The queue with `max` display slots (at least one).
    pub open spec fn with_max_visible(self, max: nat) -> QueueState {
        QueueState { max_visible: if max == 0 { 1 } else { max }, ..self }
    }

    /// The queue with `rule` appended to its routes.
    pub open spec fn with_route(self, rule: RouteRule) -> QueueState {
        QueueState { routes: self.routes.push(rule), ..self }
    }

    /// What the queue's routes make of `m`.
    pub open spec fn admitted(self, m: Message) -> Option<Message> {
        routed(self.routes, m)
    }

    /// Pushing `m` at `now` stays within the counters and the clock.
    pub open spec fn can_push(self, m: Message, now: Instant) -> bool {
        match self.admitted(m) {
            None => true,
            Some(r) => {
                &&& self.total_pushed < u64::MAX
                &&& self.active.len() < self.max_visible ==> fits_after(now, r.shown_for())
            },
        }
    }

    /// The queue after pushing `m` at `now`: a suppressed message changes nothing;
    /// an admitted one is shown if a slot is free, else queued last.
    pub open spec fn after_push(self, m: Message, now: Instant) -> QueueState {
        match self.admitted(m) {
            None => self,
            Some(r) => if self.active.len() < self.max_visible {
                QueueState {
                    active: self.active.push(shown_now(r, now)),
                    total_pushed: self.total_pushed + 1,
                    ..self
                }
            } else {
                QueueState {
                    pending: self.pending.push(r),
                    total_pushed: self.total_pushed + 1,
                    ..self
                }
            },
        }
    }

    /// What push answers: the id of the admitted message, `None` if suppressed.
    pub open spec fn push_result(self, m: Message) -> Option<u64> {
        match self.admitted(m) {
            None => None,
            Some(r) => Some(r.id),
        }
    }

    /// Number of queued messages a tick at `now` promotes.
    pub open spec fn promoted_count(self, now: Instant) -> nat {
        let left = still_shown(self.active, now).len();
        if left >= self.max_visible {
            0
        } else if self.max_visible - left <= self.pending.len() {
            (self.max_visible - left) as nat
        } else {
            self.pending.len()
        }
    }

    /// A tick at `now` stays within the counters and the clock.
    pub open spec fn can_tick(self, now: Instant) -> bool {
        &&& self.total_dismissed + expired_ids(self.active, now).len() <= u64::MAX
        &&& forall|i: int|
            0 <= i < self.promoted_count(now) ==> fits_after(now, #[trigger] self.pending[i].shown_for())
    }

    /// The queue after a tick at `now`: expired notifications leave, and the
    /// oldest queued messages fill the free slots, shown from `now`.
    pub open spec fn after_tick(self, now: Instant) -> QueueState {
        let k = self.promoted_count(now) as int;
        QueueState {
            active: still_shown(self.active, now) + self.pending.take(k).map_values(
                |m: Message| shown_now(m, now),
            ),
            pending: self.pending.skip(k),
            total_dismissed: self.total_dismissed + expired_ids(self.active, now).len(),
            ..self
        }
    }

    /// Some notification on screen has message id `id`.
    pub open spec fn has_active(self, id: u64) -> bool {
        exists|i: int| 0 <= i < self.active.len() && self.active[i].message.id == id
    }

    /// Some queued message has id `id`.
    pub open spec fn has_pending(self, id: u64) -> bool {
        exists|i: int| 0 <= i < self.pending.len() && self.pending[i].id == id
    }

    /// Dismissing `id` stays within the counters.
    pub open spec fn can_dismiss(self, id: u64) -> bool {
        self.has_active(id) ==> self.total_dismissed < u64::MAX
    }

    /// The queue after dismissing `id`: every notification on screen with that
    /// id leaves (counted as one dismissal); only when none was on screen are
    /// the queued messages with that id dropped.
    pub open spec fn after_dismiss(self, id: u64) -> QueueState {
        if self.has_active(id) {
            QueueState {
                active: active_without(self.active, id),
                total_dismissed: self.total_dismissed + 1,
                ..self
            }
        } else {
            QueueState { pending: pending_without(self.pending, id), ..self }
        }
    }

    /// Dismissing `id` found something.
    pub open spec fn dismiss_result(self, id: u64) -> bool {
        self.has_active(id) || self.has_pending(id)
    }

    /// Dismissing everything stays within the counters.
    pub open spec fn can_dismiss_all(self) -> bool {
        self.total_dismissed + self.active.len() <= u64::MAX
    }

    /// The queue after dismissing everything.
    pub open spec fn after_dismiss_all(self) -> QueueState {
        QueueState {
            active: seq![],
            pending: seq![],
            total_dismissed: self.total_dismissed + self.active.len(),
            ..self
        }
    }

    /// The queue after pinning the first notification on screen with id `id`.
    pub open spec fn after_pin(self, id: u64) -> QueueState {
        let i = slot_of(self.active, id);
        if i >= 0 {
            QueueState {
                active: self.active.update(i, ActiveNotification { pinned: true, ..self.active[i] }),
                ..self
            }
        } else {
            self
        }
    }

    /// Unpinning `id` at `now` stays within the clock.
    pub open spec fn can_unpin(self, id: u64, now: Instant) -> bool {
        let i = slot_of(self.active, id);
        i >= 0 ==> fits_after(now, self.active[i].message.shown_for())
    }

    /// The queue after unpinning the first notification on screen with id `id`
    /// at `now`: its timer restarts from `now`.
    pub open spec fn after_unpin(self, id: u64, now: Instant) -> QueueState {
        let i = slot_of(self.active, id);
        if i >= 0 {
            QueueState {
                active: self.active.update(
                    i,
                    ActiveNotification {
                        pinned: false,
                        dismiss_at: point_after(now, self.active[i].message.shown_for()),
                        ..self.active[i]
                    },
                ),
                ..self
            }
        } else {
            self
        }
    }
}

/// The notification state machine.
///
/// Manages a queue of pending notifications and a set of active (visible)
/// notification slots. Call [`NotifyQueue::tick`] periodically to expire
/// old notifications and promote queued ones.
#[derive(Debug)]
pub struct NotifyQueue {
    /// Notifications currently visible on screen.
    active: Vec<ActiveNotification>,
    /// Pending notifications waiting for a display slot.
    pending: VecDeque<Message>,
    /// Maximum number of simultaneously visible notifications.
    max_visible: usize,
    /// Routing rules applied to incoming messages.
    routes: Vec<RouteRule>,
    /// Total number of messages ever pushed (for stats).
    total_pushed: u64,
    /// Total number of messages dismissed.
    total_dismissed: u64,
}

impl View for NotifyQueue {
    type V = QueueState;

    closed spec fn view(&self) -> QueueState {
        QueueState {
            active: self.active@,
            pending: self.pending@,
            max_visible: self.max_visible as nat,
            routes: self.routes@,
            total_pushed: self.total_pushed as nat,
            total_dismissed: self.total_dismissed as nat,
        }
    }
}

proof fn lemma_filter_step<A>(s: Seq<A>, p: spec_fn(A) -> bool, i: int)
    requires
        0 <= i < s.len(),
    ensures
        s.take(i + 1).filter(p) == if p(s[i]) {
            s.take(i).filter(p).push(s[i])
        } else {
            s.take(i).filter(p)
        },
{
    reveal_with_fuel(Seq::filter, 1);
    assert(s.take(i + 1).drop_last() =~= s.take(i));
}

proof fn lemma_filter_len<A>(s: Seq<A>, p: spec_fn(A) -> bool)
    ensures
        s.filter(p).len() <= s.len(),
        s.filter(p).len() == s.len() <==> forall|i: int| 0 <= i < s.len() ==> p(#[trigger] s[i]),
    decreases s.len(),
{
    reveal_with_fuel(Seq::filter, 1);
    if s.len() > 0 {
        lemma_filter_len(s.drop_last(), p);
        if forall|i: int| 0 <= i < s.len() ==> p(#[trigger] s[i]) {
            assert forall|i: int| 0 <= i < s.drop_last().len() implies p(
                #[trigger] s.drop_last()[i],
            ) by {
                assert(s.drop_last()[i] == s[i]);
            }
        } else {
            let w = choose|i: int| 0 <= i < s.len() && !p(#[trigger] s[i]);
            if w < s.len() - 1 {
                assert(s.drop_last()[w] == s[w]);
            }
        }
    }
}

proof fn lemma_filter_all<A>(s: Seq<A>, p: spec_fn(A) -> bool)
    requires
        forall|i: int| 0 <= i < s.len() ==> p(#[trigger] s[i]),
    ensures
        s.filter(p) == s,
    decreases s.len(),
{
    reveal_with_fuel(Seq::filter, 1);
    if s.len() > 0 {
        assert forall|i: int| 0 <= i < s.drop_last().len() implies p(#[trigger] s.drop_last()[i]) by {
            assert(s.drop_last()[i] == s[i]);
        }
        lemma_filter_all(s.drop_last(), p);
        assert(s.drop_last().push(s.last()) =~= s);
    }
}

impl NotifyQueue {
    /// Create a new notification queue with default settings.
    pub fn new() -> (q: NotifyQueue)
        ensures
            q@ == fresh_queue(),
    {
        NotifyQueue {
            active: Vec::new(),
            pending: VecDeque::new(),
            max_visible: DEFAULT_MAX_VISIBLE,
            routes: Vec::new(),
            total_pushed: 0,
            total_dismissed: 0,
        }
    }

    /// Set the maximum number of simultaneously visible notifications (at least one).
    pub fn max_visible(self, max: usize) -> (q: NotifyQueue)
        ensures
            q@ == self@.with_max_visible(max as nat),
    {
        let mut q = self;
        q.max_visible = if max >= 1 { max } else { 1 };
        q
    }

    /// Add a routing rule.
    pub fn add_route(&mut self, rule: RouteRule)
        ensures
            final(self)@ == old(self)@.with_route(rule),
    {
        self.routes.push(rule);
    }

    /// Apply routing rules to a message.
    fn apply_routes(&self, message: Message) -> (out: Option<Message>)
        ensures
            out == routed(self@.routes, message),
    {
        let ghost rules = self.routes@;
        let ghost incoming = message;
        let mut msg = message;
        let mut i: usize = 0;
        proof {
            assert(rules.skip(0) =~= rules);
        }
        while i < self.routes.len()
            invariant
                rules == self.routes@,
                incoming == message,
                i <= rules.len(),
                routed(rules, incoming) == routed(rules.skip(i as int), msg),
            decreases rules.len() - i,
        {
            proof {
                assert(rules.skip(i as int)[0] == rules[i as int]);
                assert(rules.skip(i as int).drop_first() =~= rules.skip(i + 1));
            }
            let ghost cur = msg;
            if self.routes[i].source == msg.source {
                assert(rules[i as int].source@ == cur.source@);
                match self.routes[i].apply(msg) {
                    Some(next) => {
                        msg = next;
                    },
                    None => {
                        assert(routed(rules.skip(i as int), cur) is None);
                        return None;
                    },
                }
            }
            i = i + 1;
        }
        proof {
            assert(rules.skip(i as int) =~= Seq::<RouteRule>::empty());
        }
        Some(msg)
    }

    /// Push a new message into the notification system.
    ///
    /// The message is routed through any matching rules, then either
    /// immediately displayed (if slots are available) or queued.
    ///
    /// Returns the message ID if the message was accepted (not suppressed).
    pub fn push(&mut self, message: Message, now: Instant) -> (id: Option<u64>)
        requires
            old(self)@.can_push(message, now),
        ensures
            final(self)@ == old(self)@.after_push(message, now),
            id == old(self)@.push_result(message),
    {
        let routed = self.apply_routes(message);
        let message = match routed {
            Some(m) => m,
            None => {
                return None;
            },
        };
        let id = message.id;
        self.total_pushed = self.total_pushed + 1;
        if self.active.len() < self.max_visible {
            self.active.push(ActiveNotification::new(message, now));
        } else {
            self.pending.push_back(message);
        }
        Some(id)
    }

    /// Tick the notification system: expire old notifications, promote pending ones.
    ///
    /// Returns the IDs of notifications that were dismissed this tick.
    pub fn tick(&mut self, now: Instant) -> (dismissed: Vec<u64>)
        requires
            old(self)@.can_tick(now),
        ensures
            final(self)@ == old(self)@.after_tick(now),
            dismissed@ == expired_ids(old(self)@.active, now),
    {
        let ghost q0 = self@;
        let ghost orig = self.active@;
        let ghost keep = |n: ActiveNotification| !n.expired_at(now);
        let ghost gone = |n: ActiveNotification| n.expired_at(now);
        let ghost ids = |n: ActiveNotification| n.message.id;
        let mut dismissed: Vec<u64> = Vec::new();
        let mut kept: Vec<ActiveNotification> = Vec::new();
        let n = self.active.len();
        let mut i: usize = 0;
        proof {
            reveal_with_fuel(Seq::filter, 1);
            assert(orig.take(0) =~= Seq::<ActiveNotification>::empty());
            assert(orig.skip(0) =~= orig);
        }
        while i < n
            invariant
                n == orig.len(),
                i <= n,
                self.active@ == orig.skip(i as int),
                self.pending@ == q0.pending,
                self.max_visible == q0.max_visible,
                self.routes@ == q0.routes,
                self.total_pushed == q0.total_pushed,
                self.total_dismissed == q0.total_dismissed,
                kept@ == orig.take(i as int).filter(keep),
                dismissed@ == orig.take(i as int).filter(gone).map_values(ids),
                keep == (|n: ActiveNotification| !n.expired_at(now)),
                gone == (|n: ActiveNotification| n.expired_at(now)),
                ids == (|n: ActiveNotification| n.message.id),
            decreases n - i,
        {
            let note = self.active.remove(0);
            proof {
                assert(note == orig[i as int]);
                assert(orig.skip(i as int).remove(0) =~= orig.skip(i + 1));
                lemma_filter_step(orig, keep, i as int);
                lemma_filter_step(orig, gone, i as int);
            }
            if note.is_expired(now) {
                proof {
                    assert(orig.take(i + 1).filter(gone).map_values(ids) =~= orig.take(
                        i as int,
                    ).filter(gone).map_values(ids).push(note.message.id));
                }
                dismissed.push(note.message.id);
            } else {
                kept.push(note);
            }
            i = i + 1;
        }
        proof {
            assert(orig.take(n as int) =~= orig);
            lemma_filter_len(orig, gone);
        }
        self.active = kept;
        let ghost left = self.active@;
        assert(left == still_shown(orig, now));
        assert(dismissed@ == expired_ids(orig, now));
        self.total_dismissed = self.total_dismissed + dismissed.len() as u64;

        let ghost k = q0.promoted_count(now) as int;
        let mut j: usize = 0;
        proof {
            assert(q0.pending.take(0).map_values(|m: Message| shown_now(m, now)) =~= Seq::<
                ActiveNotification,
            >::empty());
            assert(left + Seq::<ActiveNotification>::empty() =~= left);
            assert(q0.pending.skip(0) =~= q0.pending);
        }
        while self.active.len() < self.max_visible && self.pending.len() > 0
            invariant
                j <= k,
                k == q0.promoted_count(now),
                left == still_shown(q0.active, now),
                q0.can_tick(now),
                self.active@ == left + q0.pending.take(j as int).map_values(
                    |m: Message| shown_now(m, now),
                ),
                self.pending@ == q0.pending.skip(j as int),
                self.max_visible == q0.max_visible,
                self.routes@ == q0.routes,
                self.total_pushed == q0.total_pushed,
                self.total_dismissed == q0.total_dismissed + expired_ids(q0.active, now).len(),
            decreases self.pending@.len(),
        {
            if let Some(message) = self.pending.pop_front() {
                proof {
                    assert(message == q0.pending[j as int]);
                    assert(j < k);
                }
                self.active.push(ActiveNotification::new(message, now));
                proof {
                    assert(q0.pending.take(j + 1).map_values(|m: Message| shown_now(m, now))
                        =~= q0.pending.take(j as int).map_values(|m: Message| shown_now(m, now)).push(
                        shown_now(message, now),
                    ));
                    assert(q0.pending.skip(j as int).subrange(1, q0.pending.skip(j as int).len() as int)
                        =~= q0.pending.skip(j + 1));
                }
                j = j + 1;
            }
        }
        proof {
            assert(j == k);
            assert(self@ =~= q0.after_tick(now));
        }
        dismissed
    }

    /// Dismiss a specific notification by ID.
    ///
    /// Returns `true` if the notification was found and dismissed.
    pub fn dismiss(&mut self, id: u64) -> (found: bool)
        requires
            old(self)@.can_dismiss(id),
        ensures
            final(self)@ == old(self)@.after_dismiss(id),
            found == old(self)@.dismiss_result(id),
    {
        let ghost q0 = self@;
        let ghost orig = self.active@;
        let ghost keep = |n: ActiveNotification| n.message.id != id;
        let len_before = self.active.len();
        let mut kept: Vec<ActiveNotification> = Vec::new();
        let mut i: usize = 0;
        proof {
            reveal_with_fuel(Seq::filter, 1);
            assert(orig.take(0) =~= Seq::<ActiveNotification>::empty());
            assert(orig.skip(0) =~= orig);
        }
        while i < len_before
            invariant
                len_before == orig.len(),
                i <= len_before,
                self.active@ == orig.skip(i as int),
                self.pending@ == q0.pending,
                self.max_visible == q0.max_visible,
                self.routes@ == q0.routes,
                self.total_pushed == q0.total_pushed,
                self.total_dismissed == q0.total_dismissed,
                kept@ == orig.take(i as int).filter(keep),
                keep == (|n: ActiveNotification| n.message.id != id),
            decreases len_before - i,
        {
            let note = self.active.remove(0);
            proof {
                assert(note == orig[i as int]);
                assert(orig.skip(i as int).remove(0) =~= orig.skip(i + 1));
                lemma_filter_step(orig, keep, i as int);
            }
            if note.message.id != id {
                kept.push(note);
            }
            i = i + 1;
        }
        proof {
            assert(orig.take(len_before as int) =~= orig);
            lemma_filter_len(orig, keep);
        }
        self.active = kept;
        let removed = self.active.len() < len_before;
        if removed {
            self.total_dismissed = self.total_dismissed + 1;
            proof {
                assert(self@ =~= q0.after_dismiss(id));
            }
            return true;
        }
        proof {
            lemma_filter_all(orig, keep);
            assert(!q0.has_active(id)) by {
                if q0.has_active(id) {
                    let w = choose|w: int| 0 <= w < orig.len() && orig[w].message.id == id;
                    assert(!keep(orig[w]));
                }
            }
        }
        let ghost porig = self.pending@;
        let ghost pkeep = |m: Message| m.id != id;
        let plen = self.pending.len();
        let mut still: VecDeque<Message> = VecDeque::new();
        let mut j: usize = 0;
        proof {
            reveal_with_fuel(Seq::filter, 1);
            assert(porig.take(0) =~= Seq::<Message>::empty());
            assert(porig.skip(0) =~= porig);
        }
        while j < plen
            invariant
                plen == porig.len(),
                j <= plen,
                self.pending@ == porig.skip(j as int),
                porig == q0.pending,
                self.active@ == orig,
                orig == q0.active,
                self.max_visible == q0.max_visible,
                self.routes@ == q0.routes,
                self.total_pushed == q0.total_pushed,
                self.total_dismissed == q0.total_dismissed,
                still@ == porig.take(j as int).filter(pkeep),
                pkeep == (|m: Message| m.id != id),
            decreases plen - j,
        {
            if let Some(m) = self.pending.pop_front() {
                proof {
                    assert(m == porig[j as int]);
                    assert(porig.skip(j as int).subrange(1, porig.skip(j as int).len() as int)
                        =~= porig.skip(j + 1));
                    lemma_filter_step(porig, pkeep, j as int);
                }
                if m.id != id {
                    still.push_back(m);
                }
            }
            j = j + 1;
        }
        proof {
            assert(porig.take(plen as int) =~= porig);
            lemma_filter_len(porig, pkeep);
        }
        self.pending = still;
        let found = self.pending.len() < plen;
        proof {
            if q0.has_pending(id) {
                let w = choose|w: int| 0 <= w < porig.len() && porig[w].id == id;
                assert(!pkeep(porig[w]));
            }
            assert(self@ =~= q0.after_dismiss(id));
        }
        found
    }

    /// Dismiss all notifications (active and pending).
    pub fn dismiss_all(&mut self)
        requires
            old(self)@.can_dismiss_all(),
        ensures
            final(self)@ == old(self)@.after_dismiss_all(),
    {
        self.total_dismissed = self.total_dismissed + self.active.len() as u64;
        self.active.clear();
        self.pending.clear();
        proof {
            assert(self@.active =~= Seq::<ActiveNotification>::empty());
            assert(self@.pending =~= Seq::<Message>::empty());
        }
    }

    /// Position of the first notification on screen with message id `id`.
    fn find_active(&self, id: u64) -> (slot: Option<usize>)
        ensures
            match slot {
                Some(i) => slot_of(self@.active, id) == i as int,
                None => slot_of(self@.active, id) == -1,
            },
    {
        let ghost s = self@.active;
        let mut i: usize = 0;
        while i < self.active.len()
            invariant
                s == self.active@,
                i <= s.len(),
                forall|j: int| 0 <= j < i ==> s[j].message.id != id,
            decreases s.len() - i,
        {
            if self.active[i].message.id == id {
                proof {
                    assert(first_at(s, id, i as int));
                    let c = choose|c: int| first_at(s, id, c);
                    assert(c == i as int);
                }
                return Some(i);
            }
            i = i + 1;
        }
        assert(!exists|c: int| first_at(s, id, c));
        None
    }

    /// Pin a notification by ID (prevents auto-dismiss).
    pub fn pin(&mut self, id: u64) -> (found: bool)
        ensures
            final(self)@ == old(self)@.after_pin(id),
            found == (slot_of(old(self)@.active, id) >= 0),
    {
        match self.find_active(id) {
            Some(i) => {
                let ghost q0 = self@;
                self.active[i].pin();
                proof {
                    assert(self@ =~= q0.after_pin(id));
                }
                true
            },
            None => false,
        }
    }

    /// Unpin a notification by ID (resets the dismiss timer).
    pub fn unpin(&mut self, id: u64, now: Instant) -> (found: bool)
        requires
            old(self)@.can_unpin(id, now),
        ensures
            final(self)@ == old(self)@.after_unpin(id, now),
            found == (slot_of(old(self)@.active, id) >= 0),
    {
        match self.find_active(id) {
            Some(i) => {
                let ghost q0 = self@;
                self.active[i].unpin(now);
                proof {
                    assert(self@ =~= q0.after_unpin(id, now));
                }
                true
            },
            None => false,
        }
    }

    /// Get the currently active (visible) notifications.
    pub fn active(&self) -> (shown: &[ActiveNotification])
        ensures
            shown@ == self@.active,
    {
        self.active.as_slice()
    }

    /// Number of pending (queued) notifications.
    pub fn pending_count(&self) -> (count: usize)
        ensures
            count == self@.pending.len(),
    {
        self.pending.len()
    }

    /// Total number of messages ever pushed.
    pub fn total_pushed(&self) -> (count: u64)
        ensures
            count == self@.total_pushed,
    {
        self.total_pushed
    }

    /// Total number of messages dismissed.
    pub fn total_dismissed(&self) -> (count: u64)
        ensures
            count == self@.total_dismissed,
    {
        self.total_dismissed
    }

    /// Compute the time until the next notification expires.
    ///
    /// Returns `None` if there are no active unpinned notifications.
    pub fn next_expiry(&self, now: Instant) -> (next: Option<Duration>)
        ensures
            next == soonest(self@.active, now),
    {
        let ghost s = self@.active;
        let mut best: Option<Duration> = None;
        let mut i: usize = 0;
        proof {
            assert(s.take(0) =~= Seq::<ActiveNotification>::empty());
        }
        while i < self.active.len()
            invariant
                s == self.active@,
                i <= s.len(),
                best == soonest(s.take(i as int), now),
            decreases s.len() - i,
        {
            proof {
                assert(s.take(i + 1).drop_last() =~= s.take(i as int));
                assert(s.take(i + 1).last() == s[i as int]);
            }
            if !self.active[i].pinned {
                let d = self.active[i].remaining(now);
                best = match best {
                    None => Some(d),
                    Some(e) => if e.as_nanos() <= d.as_nanos() {
                        Some(e)
                    } else {
                        Some(d)
                    },
                };
            }
            i = i + 1;
        }
        proof {
            assert(s.take(s.len() as int) =~= s);
        }
        best
    }
}

} // verus!

verus! {

impl Default for NotifyQueue {
    fn default() -> (q: NotifyQueue)
        ensures
            q@ == fresh_queue(),
    {
        NotifyQueue::new()
    }
}

} // verus!

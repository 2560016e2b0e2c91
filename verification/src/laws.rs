//! Laws of the notification system, proved over the transitions that the
//! operations of `NotifyQueue` and `Message` are specified by.

use vstd::prelude::*;
use crate::message::{Message, Severity, id_after, widest};
use crate::notify::{
    ActiveNotification, QueueState, RouteRule, expired_ids, first_at, fresh_queue, routed, shown_now,
    slot_of, soonest, still_shown,
};
use crate::time::{Duration, Instant, fits_after};

verus! {

proof fn lemma_filter_split<A>(s: Seq<A>, p: spec_fn(A) -> bool)
    ensures
        s.filter(p).len() + s.filter(|a: A| !p(a)).len() == s.len(),
    decreases s.len(),
{
    reveal_with_fuel(Seq::filter, 1);
    if s.len() > 0 {
        lemma_filter_split(s.drop_last(), p);
    }
}

/// Every queue has at least one display slot: a new queue, and the queue after
/// any operation on a queue that has one.
pub proof fn law_queue_keeps_a_slot(
    q: QueueState,
    max: nat,
    rule: RouteRule,
    m: Message,
    now: Instant,
    id: u64,
)
    requires
        q.wf(),
    ensures
        fresh_queue().wf(),
        q.with_max_visible(max).wf(),
        q.with_route(rule).wf(),
        q.after_push(m, now).wf(),
        q.after_tick(now).wf(),
        q.after_dismiss(id).wf(),
        q.after_dismiss_all().wf(),
        q.after_pin(id).wf(),
        q.after_unpin(id, now).wf(),
{
}

/// A tick loses no message: what was on screen or queued before is, after the
/// tick, on screen, queued, or among the dismissed ids.
pub proof fn law_tick_conserves_messages(q: QueueState, now: Instant)
    requires
        q.wf(),
    ensures
        q.after_tick(now).active.len() + q.after_tick(now).pending.len() + expired_ids(
            q.active,
            now,
        ).len() == q.active.len() + q.pending.len(),
{
    let keep = |n: ActiveNotification| !n.expired_at(now);
    let gone = |n: ActiveNotification| n.expired_at(now);
    lemma_filter_split(q.active, gone);
    assert(q.active.filter(|a: ActiveNotification| !gone(a)) =~= q.active.filter(keep)) by {
        assert((|a: ActiveNotification| !gone(a)) =~= keep);
    }
}

/// A tick never dismisses a pinned notification.
pub proof fn law_tick_keeps_pinned(q: QueueState, now: Instant)
    ensures
        forall|i: int|
            0 <= i < q.active.len() && #[trigger] q.active[i].pinned ==> q.after_tick(
                now,
            ).active.contains(q.active[i]),
{
    let keep = |n: ActiveNotification| !n.expired_at(now);
    q.active.filter_lemma(keep);
    let s = still_shown(q.active, now);
    assert(s == q.active.filter(keep));
    assert forall|i: int|
        0 <= i < q.active.len() && #[trigger] q.active[i].pinned implies q.after_tick(
            now,
        ).active.contains(q.active[i]) by {
        assert(keep(q.active[i]));
        assert(s.contains(q.active[i]));
        let w = choose|w: int| 0 <= w < s.len() && s[w] == q.active[i];
        assert(q.after_tick(now).active[w] == q.active[i]);
    }
}

/// Display slots after a tick: a queue that was within its slots stays within
/// them, and no slot stays free while messages wait.
pub proof fn law_tick_fills_slots(q: QueueState, now: Instant)
    requires
        q.wf(),
    ensures
        q.active.len() <= q.max_visible ==> q.after_tick(now).active.len() <= q.max_visible,
        q.after_tick(now).pending.len() > 0 ==> q.after_tick(now).active.len() >= q.max_visible,
{
    let keep = |n: ActiveNotification| !n.expired_at(now);
    lemma_filter_split(q.active, keep);
}

/// A push never takes a queue past its display slots, and a message admitted
/// while a slot is free is shown at once.
pub proof fn law_push_respects_slots(q: QueueState, m: Message, now: Instant)
    ensures
        q.active.len() <= q.max_visible ==> q.after_push(m, now).active.len() <= q.max_visible,
        q.admitted(m) is Some && q.active.len() < q.max_visible ==> q.after_push(m, now).active.last()
            == crate::notify::shown_now(q.admitted(m).unwrap(), now),
{
}

/// A message that push accepted can be dismissed by the id push returned.
pub proof fn law_accepted_push_can_be_dismissed(q: QueueState, m: Message, now: Instant)
    ensures
        q.push_result(m) matches Some(id) ==> q.after_push(m, now).dismiss_result(id),
{
    if let Some(id) = q.push_result(m) {
        let r = q.admitted(m).unwrap();
        let p = q.after_push(m, now);
        if q.active.len() < q.max_visible {
            assert(p.active[q.active.len() as int].message.id == id);
            assert(p.has_active(id));
        } else {
            assert(p.pending[q.pending.len() as int].id == id);
            assert(p.has_pending(id));
        }
    }
}

/// After dismissing an id, no notification on screen has it; and when none had
/// it before, no queued message has it either.
pub proof fn law_dismiss_clears_id(q: QueueState, id: u64)
    ensures
        !q.after_dismiss(id).has_active(id),
        !q.has_active(id) ==> !q.after_dismiss(id).has_pending(id),
{
    let keep = |n: ActiveNotification| n.message.id != id;
    let pkeep = |m: Message| m.id != id;
    q.active.filter_lemma(keep);
    q.pending.filter_lemma(pkeep);
    if q.has_active(id) {
        let a = q.after_dismiss(id).active;
        assert forall|i: int| 0 <= i < a.len() implies a[i].message.id != id by {
            assert(keep(a[i]));
        }
    } else {
        let p = q.after_dismiss(id).pending;
        assert forall|i: int| 0 <= i < p.len() implies p[i].id != id by {
            assert(pkeep(p[i]));
        }
    }
}

/// A pinned notification is not dismissed by any later tick.
pub proof fn law_pinned_outlives_ticks(q: QueueState, id: u64, now: Instant)
    requires
        slot_of(q.active, id) >= 0,
    ensures
        q.after_pin(id).after_tick(now).active.contains(q.after_pin(id).active[slot_of(q.active, id)]),
{
    let p = q.after_pin(id);
    let i = slot_of(q.active, id);
    assert(p.active[i].pinned);
    law_tick_keeps_pinned(p, now);
}

/// Pinning twice is pinning once.
pub proof fn law_pin_idempotent(q: QueueState, id: u64)
    ensures
        q.after_pin(id).after_pin(id) == q.after_pin(id),
{
    let p = q.after_pin(id);
    let i = slot_of(q.active, id);
    if i >= 0 {
        assert(first_at(q.active, id, i));
        assert(first_at(p.active, id, i));
        let c = choose|c: int| first_at(p.active, id, c);
        assert(c == i);
        assert(p.active.update(i, ActiveNotification { pinned: true, ..p.active[i] }) =~= p.active);
    } else {
        assert(p == q);
    }
}

/// Unpinning restarts the timer: the notification expires exactly when its
/// display duration has passed since the unpin.
pub proof fn law_unpin_restarts_timer(q: QueueState, id: u64, now: Instant, later: Instant)
    requires
        slot_of(q.active, id) >= 0,
        q.can_unpin(id, now),
    ensures
        q.after_unpin(id, now).active[slot_of(q.active, id)].expired_at(later) <==> later@ >= now@
            + q.active[slot_of(q.active, id)].message.shown_for()@,
{
}

/// The next expiry is the least remaining time of the unpinned notifications,
/// and there is none exactly when every notification is pinned.
pub proof fn law_next_expiry_is_least(s: Seq<ActiveNotification>, now: Instant)
    ensures
        soonest(s, now) is None <==> forall|i: int| 0 <= i < s.len() ==> #[trigger] s[i].pinned,
        soonest(s, now) matches Some(d) ==> {
            &&& forall|i: int|
                0 <= i < s.len() && !#[trigger] s[i].pinned ==> d@ <= s[i].remaining_at(now)@
            &&& exists|i: int| 0 <= i < s.len() && !s[i].pinned && d == #[trigger] s[i].remaining_at(now)
        },
    decreases s.len(),
{
    if s.len() > 0 {
        let t = s.drop_last();
        let last = s.len() - 1;
        law_next_expiry_is_least(t, now);
        assert forall|i: int| 0 <= i < t.len() implies #[trigger] t[i] == s[i] by {}
        assert(s[last] == s.last());
        let e = soonest(t, now);
        if s.last().pinned {
            if e is Some {
                let w = choose|w: int|
                    0 <= w < t.len() && !t[w].pinned && e.unwrap() == #[trigger] t[w].remaining_at(now);
                assert(s[w] == t[w]);
                let x = e.unwrap();
                assert forall|i: int|
                    0 <= i < s.len() && !#[trigger] s[i].pinned implies x@ <= s[i].remaining_at(
                        now,
                    )@ by {
                    assert(i < last);
                    assert(!t[i].pinned);
                }
            } else {
                assert forall|i: int| 0 <= i < s.len() implies #[trigger] s[i].pinned by {
                    if i < last {
                        assert(t[i].pinned);
                    }
                }
            }
        } else {
            let d = s.last().remaining_at(now);
            assert(!s[last].pinned);
            if e is Some {
                let x = e.unwrap();
                let w = choose|w: int|
                    0 <= w < t.len() && !t[w].pinned && x == #[trigger] t[w].remaining_at(now);
                assert(s[w] == t[w]);
                let r = soonest(s, now).unwrap();
                assert forall|i: int|
                    0 <= i < s.len() && !#[trigger] s[i].pinned implies r@ <= s[i].remaining_at(
                        now,
                    )@ by {
                    if i < last {
                        assert(!t[i].pinned);
                        assert(x@ <= t[i].remaining_at(now)@);
                    }
                }
                if x@ <= d@ {
                    assert(r == s[w].remaining_at(now));
                } else {
                    assert(r == s[last].remaining_at(now));
                }
            } else {
                let r = soonest(s, now).unwrap();
                assert(r == s[last].remaining_at(now));
                assert forall|i: int|
                    0 <= i < s.len() && !#[trigger] s[i].pinned implies r@ <= s[i].remaining_at(
                        now,
                    )@ by {
                    if i < last {
                        assert(t[i].pinned);
                    }
                }
            }
        }
    }
}

/// Routing changes only a message's severity and display duration: its id,
/// content, source and title pass through unchanged.
pub proof fn law_routing_keeps_identity(rules: Seq<RouteRule>, m: Message)
    ensures
        routed(rules, m) matches Some(r) ==> {
            &&& r.id == m.id
            &&& r.content == m.content
            &&& r.source == m.source
            &&& r.title == m.title
        },
    decreases rules.len(),
{
    if rules.len() > 0 {
        if rules[0].source@ == m.source@ {
            if let Some(next) = crate::notify::rule_outcome(rules[0], m) {
                law_routing_keeps_identity(rules.drop_first(), next);
            }
        } else {
            law_routing_keeps_identity(rules.drop_first(), m);
        }
    }
}

/// The id handed out `k` calls after `id`.
pub open spec fn id_after_n(id: u64, k: nat) -> u64
    decreases k,
{
    if k == 0 {
        id
    } else {
        id_after(id_after_n(id, (k - 1) as nat))
    }
}

proof fn lemma_id_after_n(id: u64, k: nat)
    requires
        k < 0x1_0000_0000_0000_0000,
    ensures
        id_after_n(id, k) == if id + k <= u64::MAX {
            id + k
        } else {
            id + k - 0x1_0000_0000_0000_0000
        },
    decreases k,
{
    if k > 0 {
        lemma_id_after_n(id, (k - 1) as nat);
    }
}

/// Message ids do not repeat: an id source hands out 2^64 distinct ids before
/// an id comes back.
pub proof fn law_ids_do_not_repeat(id: u64, k: nat)
    requires
        0 < k < 0x1_0000_0000_0000_0000,
    ensures
        id_after_n(id, k) != id,
{
    lemma_id_after_n(id, k);
}

/// More severe messages stay longer: info 3 s, warnings 5 s, errors 8 s.
pub proof fn law_severity_durations_increase()
    ensures
        Severity::Info.default_span()@ < Severity::Warn.default_span()@,
        Severity::Warn.default_span()@ < Severity::Error.default_span()@,
{
}

/// A message always renders as at least one line, the first starting with the
/// severity icon, and its display width covers every rendered line.
pub proof fn law_render_shape(m: Message)
    ensures
        m.rendered().len() >= 1,
        m.rendered()[0].take(m.severity.icon_text().len() as int) == m.severity.icon_text(),
        forall|i: int| 0 <= i < m.rendered().len() ==> #[trigger] m.rendered()[i].len() <= widest(
            m.rendered(),
        ),
{
    let r = m.rendered();
    let icon = m.severity.icon_text();
    match m.title {
        Some(t) => {
            assert((icon + t@).take(icon.len() as int) =~= icon);
        },
        None => {
            let body = crate::text::text_lines(m.content@);
            if body.len() == 0 {
                assert((icon + "(empty)"@).take(icon.len() as int) =~= icon);
            } else {
                assert((icon + body[0]).take(icon.len() as int) =~= icon);
            }
        },
    }
    lemma_widest_bounds(r);
}

proof fn lemma_widest_bounds(lines: Seq<Seq<char>>)
    ensures
        forall|i: int| 0 <= i < lines.len() ==> #[trigger] lines[i].len() <= widest(lines),
    decreases lines.len(),
{
    if lines.len() > 0 {
        let t = lines.drop_last();
        lemma_widest_bounds(t);
        assert forall|i: int| 0 <= i < lines.len() implies #[trigger] lines[i].len() <= widest(lines) by {
            if i < lines.len() - 1 {
                assert(lines[i] == t[i]);
            }
        }
    }
}


/// Number of elements of `s` that satisfy `p`.
pub open spec fn count_where<A>(s: Seq<A>, p: spec_fn(A) -> bool) -> nat
    decreases s.len(),
{
    if s.len() == 0 {
        0
    } else {
        count_where(s.drop_last(), p) + if p(s.last()) {
            1nat
        } else {
            0nat
        }
    }
}

/// Keeping the elements of `s` that satisfy `p` places the `i`-th element, when
/// kept, right after the kept elements before it: at `i` minus the number of
/// dropped elements before it; and what is kept is `s` less the dropped ones.
proof fn lemma_keep_places<A>(s: Seq<A>, p: spec_fn(A) -> bool, drop: spec_fn(A) -> bool)
    requires
        forall|a: A| #[trigger] drop(a) == !p(a),
    ensures
        s.filter(p).len() == s.len() - count_where(s, drop),
        forall|i: int|
            0 <= i < s.len() && p(#[trigger] s[i]) ==> {
                &&& 0 <= i - count_where(s.take(i), drop) < s.filter(p).len()
                &&& s.filter(p)[i - count_where(s.take(i), drop)] == s[i]
            },
    decreases s.len(),
{
    reveal_with_fuel(Seq::filter, 1);
    if s.len() > 0 {
        let t = s.drop_last();
        lemma_keep_places(t, p, drop);
        let last = s.len() - 1;
        assert(s.take(last) =~= t);
        assert(s[last] == s.last());
        assert forall|i: int| 0 <= i < s.len() && p(#[trigger] s[i]) implies {
            &&& 0 <= i - count_where(s.take(i), drop) < s.filter(p).len()
            &&& s.filter(p)[i - count_where(s.take(i), drop)] == s[i]
        } by {
            if i < last {
                assert(s.take(i) =~= t.take(i));
                assert(s[i] == t[i]);
                assert(p(t[i]));
            } else {
                assert(t.take(t.len() as int) =~= t);
            }
        }
        assert(t.take(t.len() as int) =~= t);
    }
}

/// Routing through a single rule: a rule for another source leaves the message
/// as it is; a matching rule that suppresses drops it; a matching rule that does
/// not suppress gives it the rule's severity and duration where the rule has
/// them, keeps its own where the rule has none, and changes nothing else.
pub proof fn law_rule_overrides(rule: RouteRule, m: Message)
    ensures
        rule.source@ != m.source@ ==> routed(seq![rule], m) == Some(m),
        rule.source@ == m.source@ && rule.suppress ==> routed(seq![rule], m) is None,
        rule.source@ == m.source@ && !rule.suppress ==> (routed(seq![rule], m) matches Some(r) && {
            &&& (rule.override_duration matches Some(d) ==> r.duration == Some(d))
            &&& (rule.override_duration is None ==> r.duration == m.duration)
            &&& (rule.override_severity matches Some(v) ==> r.severity == v)
            &&& (rule.override_severity is None ==> r.severity == m.severity)
            &&& r.id == m.id
            &&& r.content == m.content
            &&& r.source == m.source
            &&& r.title == m.title
        }),
{
    reveal_with_fuel(routed, 2);
    assert(seq![rule].drop_first() =~= Seq::<RouteRule>::empty());
    assert(seq![rule][0] == rule);
}

/// Routes compose in order: routing through `rules` followed by `rule` is
/// routing through `rules`, then through `rule` alone.
pub proof fn law_routes_compose(rules: Seq<RouteRule>, rule: RouteRule, m: Message)
    ensures
        routed(rules.push(rule), m) == match routed(rules, m) {
            None => None,
            Some(r) => routed(seq![rule], r),
        },
    decreases rules.len(),
{
    if rules.len() == 0 {
        assert(rules.push(rule) =~= seq![rule]);
    } else {
        assert(rules.push(rule)[0] == rules[0]);
        assert(rules.push(rule).drop_first() =~= rules.drop_first().push(rule));
        if rules[0].source@ == m.source@ {
            if let Some(next) = crate::notify::rule_outcome(rules[0], m) {
                law_routes_compose(rules.drop_first(), rule, next);
            }
        } else {
            law_routes_compose(rules.drop_first(), rule, m);
        }
    }
}

/// A message pushed after a rule for its source that overrides the duration is
/// shown (when a slot is free) for the rule's duration, whatever its own.
pub proof fn law_push_uses_rule_duration(
    q: QueueState,
    rule: RouteRule,
    m: Message,
    now: Instant,
    d: Duration,
)
    requires
        q.routes.len() == 0,
        rule.source@ == m.source@,
        !rule.suppress,
        rule.override_duration == Some(d),
        q.active.len() < q.max_visible,
    ensures
        q.with_route(rule).after_push(m, now).active.len() == q.active.len() + 1,
        q.with_route(rule).after_push(m, now).active.last().message.duration == Some(d),
        q.with_route(rule).after_push(m, now).active.last().message.shown_for() == d,
{
    law_rule_overrides(rule, m);
    assert(q.routes.push(rule) =~= seq![rule]);
}

/// Dismissing an id that is on screen removes exactly the notifications with
/// that id: every other notification stays, in order, and the screen shrinks
/// by the number of matches; the queue is untouched and one dismissal counts.
pub proof fn law_dismiss_removes_exactly(q: QueueState, id: u64)
    requires
        q.has_active(id),
    ensures
        q.after_dismiss(id).active.len() == q.active.len() - count_where(
            q.active,
            |n: ActiveNotification| n.message.id == id,
        ),
        forall|i: int|
            0 <= i < q.active.len() && #[trigger] q.active[i].message.id != id ==> q.after_dismiss(
                id,
            ).active[i - count_where(q.active.take(i), |n: ActiveNotification| n.message.id == id)]
                == q.active[i],
        q.after_dismiss(id).pending == q.pending,
        q.after_dismiss(id).total_dismissed == q.total_dismissed + 1,
{
    let keep = |n: ActiveNotification| n.message.id != id;
    let hit = |n: ActiveNotification| n.message.id == id;
    lemma_keep_places(q.active, keep, hit);
    assert(q.after_dismiss(id).active == q.active.filter(keep));
    assert forall|i: int|
        0 <= i < q.active.len() && #[trigger] q.active[i].message.id != id implies q.after_dismiss(
            id,
        ).active[i - count_where(q.active.take(i), hit)] == q.active[i] by {
        assert(keep(q.active[i]));
    }
}

/// Dismissing an id that is not on screen removes exactly the queued messages
/// with that id: every other queued message stays, in order; the screen and
/// the dismissal count are untouched.
pub proof fn law_dismiss_from_queue_removes_exactly(q: QueueState, id: u64)
    requires
        !q.has_active(id),
    ensures
        q.after_dismiss(id).active == q.active,
        q.after_dismiss(id).pending.len() == q.pending.len() - count_where(
            q.pending,
            |m: Message| m.id == id,
        ),
        forall|i: int|
            0 <= i < q.pending.len() && #[trigger] q.pending[i].id != id ==> q.after_dismiss(
                id,
            ).pending[i - count_where(q.pending.take(i), |m: Message| m.id == id)] == q.pending[i],
        q.after_dismiss(id).total_dismissed == q.total_dismissed,
{
    let keep = |m: Message| m.id != id;
    let hit = |m: Message| m.id == id;
    lemma_keep_places(q.pending, keep, hit);
    assert(q.after_dismiss(id).pending == q.pending.filter(keep));
    assert forall|i: int|
        0 <= i < q.pending.len() && #[trigger] q.pending[i].id != id implies q.after_dismiss(
            id,
        ).pending[i - count_where(q.pending.take(i), hit)] == q.pending[i] by {
        assert(keep(q.pending[i]));
    }
}

/// A tick keeps order. With `k` the number of messages it takes from the queue:
/// those are the `k` oldest, shown from `now` at the end of the screen in queue
/// order; the messages still waiting are the rest of the queue in the same
/// order; and the notifications that stay on screen are the unexpired ones,
/// in their old order, with the expired ones dropped.
pub proof fn law_tick_keeps_order(q: QueueState, now: Instant)
    ensures
        q.after_tick(now).pending.len() <= q.pending.len(),
        q.pending.len() - q.after_tick(now).pending.len() <= q.after_tick(now).active.len(),
        forall|j: int|
            0 <= j < q.after_tick(now).pending.len() ==> #[trigger] q.after_tick(now).pending[j]
                == q.pending[(q.pending.len() - q.after_tick(now).pending.len()) + j],
        forall|j: int|
            0 <= j < q.pending.len() - q.after_tick(now).pending.len() ==> q.after_tick(now).active[(
            q.after_tick(now).active.len() - (q.pending.len() - q.after_tick(now).pending.len()))
                + j] == shown_now(#[trigger] q.pending[j], now),
        q.after_tick(now).active.len() - (q.pending.len() - q.after_tick(now).pending.len())
            == q.active.len() - count_where(q.active, |n: ActiveNotification| n.expired_at(now)),
        forall|i: int|
            0 <= i < q.active.len() && !#[trigger] q.active[i].expired_at(now) ==> q.after_tick(
                now,
            ).active[i - count_where(q.active.take(i), |n: ActiveNotification| n.expired_at(now))]
                == q.active[i],
{
    let a = q.after_tick(now);
    let k = q.promoted_count(now) as int;
    let keep = |n: ActiveNotification| !n.expired_at(now);
    let gone = |n: ActiveNotification| n.expired_at(now);
    lemma_keep_places(q.active, keep, gone);
    let left = still_shown(q.active, now);
    assert(left == q.active.filter(keep));
    assert(a.pending.len() == q.pending.len() - k);
    assert forall|i: int|
        0 <= i < q.active.len() && !#[trigger] q.active[i].expired_at(now) implies a.active[i
            - count_where(q.active.take(i), gone)] == q.active[i] by {
        assert(keep(q.active[i]));
    }
}

/// Pinning touches one notification: the first on screen with the id becomes
/// pinned, keeping everything else about it; every other notification, the
/// queue and the counters stay as they were.
pub proof fn law_pin_touches_one(q: QueueState, id: u64)
    ensures
        q.after_pin(id).active.len() == q.active.len(),
        forall|j: int|
            0 <= j < q.active.len() && j != slot_of(q.active, id) ==> #[trigger] q.after_pin(
                id,
            ).active[j] == q.active[j],
        slot_of(q.active, id) >= 0 <==> q.has_active(id),
        slot_of(q.active, id) >= 0 ==> first_at(q.active, id, slot_of(q.active, id)) && {
            let n = q.after_pin(id).active[slot_of(q.active, id)];
            let o = q.active[slot_of(q.active, id)];
            &&& n.pinned
            &&& n.message == o.message
            &&& n.shown_at == o.shown_at
            &&& n.dismiss_at == o.dismiss_at
        },
        q.after_pin(id).pending == q.pending,
        q.after_pin(id).total_dismissed == q.total_dismissed,
{
    lemma_slot_is_first(q, id);
}

/// Unpinning touches one notification: the first on screen with the id becomes
/// unpinned with its timer restarted at `now`, keeping its message and the time
/// it was first shown; every other notification (pinned or not), the queue and
/// the counters stay as they were.
pub proof fn law_unpin_touches_one(q: QueueState, id: u64, now: Instant)
    ensures
        q.after_unpin(id, now).active.len() == q.active.len(),
        forall|j: int|
            0 <= j < q.active.len() && j != slot_of(q.active, id) ==> #[trigger] q.after_unpin(
                id,
                now,
            ).active[j] == q.active[j],
        slot_of(q.active, id) >= 0 <==> q.has_active(id),
        slot_of(q.active, id) >= 0 && q.can_unpin(id, now) ==> first_at(
            q.active,
            id,
            slot_of(q.active, id),
        ) && {
            let n = q.after_unpin(id, now).active[slot_of(q.active, id)];
            let o = q.active[slot_of(q.active, id)];
            &&& !n.pinned
            &&& n.message == o.message
            &&& n.shown_at == o.shown_at
            &&& n.dismiss_at@ == now@ + o.message.shown_for()@
        },
        q.after_unpin(id, now).pending == q.pending,
        q.after_unpin(id, now).total_dismissed == q.total_dismissed,
{
    lemma_slot_is_first(q, id);
}

proof fn lemma_slot_is_first(q: QueueState, id: u64)
    ensures
        slot_of(q.active, id) >= 0 <==> q.has_active(id),
        slot_of(q.active, id) >= 0 ==> first_at(q.active, id, slot_of(q.active, id)),
        slot_of(q.active, id) < q.active.len(),
{
    if q.has_active(id) {
        let w = choose|w: int| 0 <= w < q.active.len() && q.active[w].message.id == id;
        lemma_first_exists(q.active, id, w);
    }
}

proof fn lemma_first_exists(s: Seq<ActiveNotification>, id: u64, w: int)
    requires
        0 <= w < s.len(),
        s[w].message.id == id,
    ensures
        exists|i: int| first_at(s, id, i),
    decreases w,
{
    if forall|j: int| 0 <= j < w ==> s[j].message.id != id {
        assert(first_at(s, id, w));
    } else {
        let v = choose|v: int| 0 <= v < w && s[v].message.id == id;
        lemma_first_exists(s, id, v);
    }
}

/// Configuring the slots sets exactly that many (one when asked for none) and
/// changes nothing else; a queue so configured shows an admitted message at
/// once while fewer than that many are on screen.
pub proof fn law_max_visible_sets_slots(q: QueueState, max: nat, m: Message, now: Instant)
    ensures
        max >= 1 ==> q.with_max_visible(max).max_visible == max,
        max == 0 ==> q.with_max_visible(max).max_visible == 1,
        q.with_max_visible(max).active == q.active,
        q.with_max_visible(max).pending == q.pending,
        q.with_max_visible(max).routes == q.routes,
        q.with_max_visible(max).total_pushed == q.total_pushed,
        q.with_max_visible(max).total_dismissed == q.total_dismissed,
        max >= 1 && q.active.len() < max && q.admitted(m) is Some ==> q.with_max_visible(
            max,
        ).after_push(m, now).active.len() == q.active.len() + 1,
{
}
} // verus!

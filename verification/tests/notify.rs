use katachi::message::{Message, MessageIds, MessageSource, Severity};
use katachi::notify::{ActiveNotification, NotifyQueue, RouteRule};
use katachi::time::{Duration, Instant};

/// A fixed point on the clock: the queue's behaviour does not depend on where it lies.
fn now() -> Instant {
    Instant::from_nanos(1_000_000_000_000)
}

#[test]
fn push_and_active() {
    let mut ids = MessageIds::new();
    let mut q = NotifyQueue::new();
    let t = now();
    let id = q.push(Message::info(&mut ids, "hello"), t);
    assert!(id.is_some());
    assert_eq!(q.active().len(), 1);
    assert_eq!(q.pending_count(), 0);
}

#[test]
fn respects_max_visible() {
    let mut ids = MessageIds::new();
    let mut q = NotifyQueue::new().max_visible(2);
    let t = now();
    q.push(Message::info(&mut ids, "one"), t);
    q.push(Message::info(&mut ids, "two"), t);
    q.push(Message::info(&mut ids, "three"), t);
    assert_eq!(q.active().len(), 2);
    assert_eq!(q.pending_count(), 1);
}

#[test]
fn tick_expires_old_notifications() {
    let mut ids = MessageIds::new();
    let mut q = NotifyQueue::new();
    let t = now();
    q.push(Message::info(&mut ids, "short").duration(Duration::from_millis(100)), t);

    // Not expired yet.
    let dismissed = q.tick(t + Duration::from_millis(50));
    assert!(dismissed.is_empty());
    assert_eq!(q.active().len(), 1);

    // Now expired.
    let dismissed = q.tick(t + Duration::from_millis(200));
    assert_eq!(dismissed.len(), 1);
    assert_eq!(q.active().len(), 0);
}

#[test]
fn tick_promotes_pending() {
    let mut ids = MessageIds::new();
    let mut q = NotifyQueue::new().max_visible(1);
    let t = now();
    let id1 = q
        .push(Message::info(&mut ids, "first").duration(Duration::from_millis(100)), t)
        .unwrap();
    q.push(Message::info(&mut ids, "second"), t);

    assert_eq!(q.active().len(), 1);
    assert_eq!(q.active()[0].message.id, id1);
    assert_eq!(q.pending_count(), 1);

    // Expire the first, promote the second.
    let dismissed = q.tick(t + Duration::from_millis(200));
    assert_eq!(dismissed, vec![id1]);
    assert_eq!(q.active().len(), 1);
    assert_eq!(q.pending_count(), 0);
    assert_ne!(q.active()[0].message.id, id1);
}

#[test]
fn dismiss_by_id() {
    let mut ids = MessageIds::new();
    let mut q = NotifyQueue::new();
    let t = now();
    let id = q.push(Message::info(&mut ids, "bye"), t).unwrap();
    assert!(q.dismiss(id));
    assert_eq!(q.active().len(), 0);
}

#[test]
fn dismiss_nonexistent_returns_false() {
    let mut q = NotifyQueue::new();
    assert!(!q.dismiss(9999));
}

#[test]
fn dismiss_from_pending() {
    let mut ids = MessageIds::new();
    let mut q = NotifyQueue::new().max_visible(1);
    let t = now();
    q.push(Message::info(&mut ids, "active"), t);
    let pending_id = q.push(Message::info(&mut ids, "pending"), t).unwrap();
    assert_eq!(q.pending_count(), 1);
    assert!(q.dismiss(pending_id));
    assert_eq!(q.pending_count(), 0);
}

#[test]
fn dismiss_all_clears_everything() {
    let mut ids = MessageIds::new();
    let mut q = NotifyQueue::new().max_visible(2);
    let t = now();
    q.push(Message::info(&mut ids, "a"), t);
    q.push(Message::info(&mut ids, "b"), t);
    q.push(Message::info(&mut ids, "c"), t);
    q.dismiss_all();
    assert_eq!(q.active().len(), 0);
    assert_eq!(q.pending_count(), 0);
}

#[test]
fn pin_prevents_expiry() {
    let mut ids = MessageIds::new();
    let mut q = NotifyQueue::new();
    let t = now();
    let id = q
        .push(Message::info(&mut ids, "sticky").duration(Duration::from_millis(100)), t)
        .unwrap();
    assert!(q.pin(id));

    // Should not expire even after the duration.
    let dismissed = q.tick(t + Duration::from_secs(10));
    assert!(dismissed.is_empty());
    assert_eq!(q.active().len(), 1);
}

#[test]
fn unpin_resets_timer() {
    let mut ids = MessageIds::new();
    let mut q = NotifyQueue::new();
    let t = now();
    let id = q
        .push(Message::info(&mut ids, "sticky").duration(Duration::from_millis(100)), t)
        .unwrap();
    q.pin(id);

    let t2 = t + Duration::from_secs(10);
    assert!(q.unpin(id, t2));

    // Should not be expired yet (timer just reset).
    let dismissed = q.tick(t2 + Duration::from_millis(50));
    assert!(dismissed.is_empty());

    // Now it should expire.
    let dismissed = q.tick(t2 + Duration::from_millis(200));
    assert_eq!(dismissed.len(), 1);
}

#[test]
fn route_rule_suppress() {
    let mut ids = MessageIds::new();
    let mut q = NotifyQueue::new();
    q.add_route(RouteRule::new(MessageSource::LspProgress).suppress());

    let t = now();
    let msg = Message::info(&mut ids, "progress").source(MessageSource::LspProgress);
    let id = q.push(msg, t);
    assert!(id.is_none());
    assert_eq!(q.active().len(), 0);
}

#[test]
fn route_rule_override_severity() {
    let mut ids = MessageIds::new();
    let mut q = NotifyQueue::new();
    q.add_route(RouteRule::new(MessageSource::SearchCount).severity(Severity::Info));

    let t = now();
    let msg = Message::warn(&mut ids, "search result").source(MessageSource::SearchCount);
    q.push(msg, t);

    assert_eq!(q.active().len(), 1);
    assert_eq!(q.active()[0].message.severity, Severity::Info);
}

#[test]
fn route_rule_override_duration() {
    let mut ids = MessageIds::new();
    let mut q = NotifyQueue::new();
    q.add_route(RouteRule::new(MessageSource::LspProgress).duration(Duration::from_millis(500)));

    let t = now();
    let msg = Message::info(&mut ids, "progress").source(MessageSource::LspProgress);
    q.push(msg, t);

    assert_eq!(q.active().len(), 1);
    assert_eq!(q.active()[0].message.effective_duration(), Duration::from_millis(500));
}

#[test]
fn next_expiry_returns_soonest() {
    let mut ids = MessageIds::new();
    let mut q = NotifyQueue::new();
    let t = now();
    q.push(Message::info(&mut ids, "short").duration(Duration::from_millis(100)), t);
    q.push(Message::info(&mut ids, "long").duration(Duration::from_millis(1000)), t);

    let next = q.next_expiry(t).unwrap();
    assert!(next <= Duration::from_millis(100));
}

#[test]
fn next_expiry_none_when_empty() {
    let q = NotifyQueue::new();
    assert!(q.next_expiry(now()).is_none());
}

#[test]
fn next_expiry_none_when_all_pinned() {
    let mut ids = MessageIds::new();
    let mut q = NotifyQueue::new();
    let t = now();
    let id = q.push(Message::info(&mut ids, "pinned"), t).unwrap();
    q.pin(id);
    assert!(q.next_expiry(t).is_none());
}

#[test]
fn total_stats_tracking() {
    let mut ids = MessageIds::new();
    let mut q = NotifyQueue::new();
    let t = now();
    q.push(Message::info(&mut ids, "a").duration(Duration::from_millis(10)), t);
    q.push(Message::info(&mut ids, "b").duration(Duration::from_millis(10)), t);
    assert_eq!(q.total_pushed(), 2);

    q.tick(t + Duration::from_millis(100));
    assert_eq!(q.total_dismissed(), 2);
}

#[test]
fn max_visible_at_least_one() {
    let mut ids = MessageIds::new();
    let q = NotifyQueue::new().max_visible(0);
    let t = now();
    let mut q = q;
    q.push(Message::info(&mut ids, "should show"), t);
    assert_eq!(q.active().len(), 1);
}

#[test]
fn mixed_severity_expiry_order() {
    let mut ids = MessageIds::new();
    let mut q = NotifyQueue::new();
    let t = now();

    // Info (3s), Warn (5s), Error (8s) — use defaults.
    q.push(Message::info(&mut ids, "info msg"), t);
    q.push(Message::warn(&mut ids, "warn msg"), t);
    q.push(Message::error(&mut ids, "error msg"), t);

    // After 4s, only info should expire.
    let dismissed = q.tick(t + Duration::from_secs(4));
    assert_eq!(dismissed.len(), 1);
    assert_eq!(q.active().len(), 2);

    // After 6s, warn also expires.
    let dismissed = q.tick(t + Duration::from_secs(6));
    assert_eq!(dismissed.len(), 1);
    assert_eq!(q.active().len(), 1);

    // After 9s, error expires.
    let dismissed = q.tick(t + Duration::from_secs(9));
    assert_eq!(dismissed.len(), 1);
    assert_eq!(q.active().len(), 0);
}

#[test]
fn fifo_ordering_in_queue() {
    let mut ids = MessageIds::new();
    let mut q = NotifyQueue::new().max_visible(1);
    let t = now();

    q.push(Message::info(&mut ids, "first").duration(Duration::from_millis(100)), t);
    q.push(Message::info(&mut ids, "second").duration(Duration::from_millis(100)), t);
    q.push(Message::info(&mut ids, "third").duration(Duration::from_millis(100)), t);

    assert_eq!(q.active()[0].message.content, "first");

    q.tick(t + Duration::from_millis(200));
    assert_eq!(q.active()[0].message.content, "second");

    q.tick(t + Duration::from_millis(400));
    assert_eq!(q.active()[0].message.content, "third");
}

#[test]
fn remaining_duration() {
    let mut ids = MessageIds::new();
    let t = now();
    let n = ActiveNotification::new(
        Message::info(&mut ids, "test").duration(Duration::from_secs(5)),
        t,
    );
    let remaining = n.remaining(t + Duration::from_secs(2));
    assert!(remaining <= Duration::from_secs(3));
    assert!(remaining >= Duration::from_millis(2900));
}

#[test]
fn remaining_pinned_is_max() {
    let mut ids = MessageIds::new();
    let t = now();
    let mut n = ActiveNotification::new(Message::info(&mut ids, "test"), t);
    n.pin();
    assert_eq!(n.remaining(t + Duration::from_secs(100)), Duration::maximum());
}

#[test]
fn multiple_routes_compose() {
    let mut ids = MessageIds::new();
    let mut q = NotifyQueue::new();
    // Two rules for the same source: first overrides severity, second overrides duration.
    q.add_route(RouteRule::new(MessageSource::LspProgress).severity(Severity::Warn));
    q.add_route(RouteRule::new(MessageSource::LspProgress).duration(Duration::from_millis(200)));

    let t = now();
    let msg = Message::info(&mut ids, "lsp").source(MessageSource::LspProgress);
    q.push(msg, t);

    assert_eq!(q.active()[0].message.severity, Severity::Warn);
    assert_eq!(q.active()[0].message.effective_duration(), Duration::from_millis(200));
}

// ---- laws on concrete values, and further cases ----

#[test]
fn tick_conserves_messages() {
    let mut ids = MessageIds::new();
    let mut q = NotifyQueue::new().max_visible(2);
    let t = now();
    for k in 0..5u64 {
        q.push(Message::info(&mut ids, "m").duration(Duration::from_millis(100 * (k + 1))), t);
    }
    let before = q.active().len() + q.pending_count();
    let dismissed = q.tick(t + Duration::from_millis(150));
    assert_eq!(dismissed.len(), 1);
    assert_eq!(q.active().len() + q.pending_count() + dismissed.len(), before);
    // The free slot was filled from the queue.
    assert_eq!(q.active().len(), 2);
    assert_eq!(q.pending_count(), 2);
}

#[test]
fn tick_shows_promoted_from_tick_time() {
    let mut ids = MessageIds::new();
    let mut q = NotifyQueue::new().max_visible(1);
    let t = now();
    q.push(Message::info(&mut ids, "a").duration(Duration::from_millis(10)), t);
    q.push(Message::info(&mut ids, "b").duration(Duration::from_millis(10)), t);
    let t2 = t + Duration::from_millis(20);
    q.tick(t2);
    assert_eq!(q.active()[0].shown_at, t2);
    assert_eq!(q.active()[0].dismiss_at, t2 + Duration::from_millis(10));
    assert!(!q.active()[0].pinned);
}

#[test]
fn expiry_is_inclusive() {
    let mut ids = MessageIds::new();
    let t = now();
    let n = ActiveNotification::new(
        Message::info(&mut ids, "x").duration(Duration::from_millis(100)),
        t,
    );
    assert!(!n.is_expired(t + Duration::from_nanos(99_999_999)));
    assert!(n.is_expired(t + Duration::from_millis(100)));
    assert_eq!(n.remaining(t + Duration::from_millis(250)), Duration::from_nanos(0));
    assert_eq!(n.remaining(t), Duration::from_millis(100));
}

#[test]
fn unpin_single_notification_restarts_timer() {
    let mut ids = MessageIds::new();
    let t = now();
    let mut n = ActiveNotification::new(
        Message::warn(&mut ids, "x").duration(Duration::from_millis(100)),
        t,
    );
    n.pin();
    assert!(!n.is_expired(t + Duration::from_secs(60)));
    let t2 = t + Duration::from_secs(60);
    n.unpin(t2);
    assert_eq!(n.dismiss_at, t2 + Duration::from_millis(100));
    assert!(!n.pinned);
}

#[test]
fn pin_unknown_id_is_false() {
    let mut q = NotifyQueue::new();
    assert!(!q.pin(42));
    assert!(!q.unpin(42, now()));
}

#[test]
fn dismiss_active_counts_once_and_keeps_pending() {
    let mut ids = MessageIds::new();
    let mut q = NotifyQueue::new().max_visible(1);
    let t = now();
    let a = q.push(Message::info(&mut ids, "a"), t).unwrap();
    q.push(Message::info(&mut ids, "b"), t);
    assert!(q.dismiss(a));
    assert_eq!(q.total_dismissed(), 1);
    // The waiting message is promoted only by a tick.
    assert_eq!(q.active().len(), 0);
    assert_eq!(q.pending_count(), 1);
    assert!(!q.dismiss(a));
}

#[test]
fn dismiss_all_counts_active_only() {
    let mut ids = MessageIds::new();
    let mut q = NotifyQueue::new().max_visible(2);
    let t = now();
    for _ in 0..4 {
        q.push(Message::info(&mut ids, "m"), t);
    }
    q.dismiss_all();
    assert_eq!(q.total_dismissed(), 2);
}

#[test]
fn accepted_push_can_be_dismissed() {
    let mut ids = MessageIds::new();
    let mut q = NotifyQueue::new().max_visible(1);
    let t = now();
    q.push(Message::info(&mut ids, "first"), t);
    let queued = q.push(Message::info(&mut ids, "second"), t).unwrap();
    assert!(q.dismiss(queued));
}

#[test]
fn routing_keeps_identity_and_ignores_other_sources() {
    let mut ids = MessageIds::new();
    let mut q = NotifyQueue::new();
    q.add_route(RouteRule::new(MessageSource::Plugin("x".into())).suppress());
    q.add_route(RouteRule::new(MessageSource::Builtin).severity(Severity::Error));
    let t = now();
    let m = Message::info(&mut ids, "keep me").title("T");
    let id = m.id;
    assert_eq!(q.push(m, t), Some(id));
    let shown = &q.active()[0].message;
    assert_eq!(shown.id, id);
    assert_eq!(shown.content, "keep me");
    assert_eq!(shown.title.as_deref(), Some("T"));
    assert_eq!(shown.severity, Severity::Error);
    // A plugin of another name is not suppressed.
    let other = Message::info(&mut ids, "y").source(MessageSource::Plugin("z".into()));
    assert!(q.push(other, t).is_some());
    let hidden = Message::info(&mut ids, "y").source(MessageSource::Plugin("x".into()));
    assert!(q.push(hidden, t).is_none());
    assert_eq!(q.total_pushed(), 2);
}

#[test]
fn next_expiry_is_least_unpinned() {
    let mut ids = MessageIds::new();
    let mut q = NotifyQueue::new();
    let t = now();
    let a = q.push(Message::info(&mut ids, "a").duration(Duration::from_millis(100)), t).unwrap();
    q.push(Message::info(&mut ids, "b").duration(Duration::from_millis(300)), t);
    q.push(Message::info(&mut ids, "c").duration(Duration::from_millis(200)), t);
    assert_eq!(q.next_expiry(t), Some(Duration::from_millis(100)));
    q.pin(a);
    assert_eq!(q.next_expiry(t), Some(Duration::from_millis(200)));
    assert_eq!(
        q.next_expiry(t + Duration::from_millis(50)),
        Some(Duration::from_millis(150))
    );
}

#[test]
fn default_queue_has_five_slots() {
    let mut ids = MessageIds::new();
    let mut q = NotifyQueue::default();
    let t = now();
    for _ in 0..6 {
        q.push(Message::info(&mut ids, "m"), t);
    }
    assert_eq!(q.active().len(), 5);
    assert_eq!(q.pending_count(), 1);
}

#[test]
fn pin_twice_same_as_once() {
    let mut ids = MessageIds::new();
    let mut q = NotifyQueue::new();
    let t = now();
    let id = q.push(Message::info(&mut ids, "p"), t).unwrap();
    assert!(q.pin(id));
    assert!(q.pin(id));
    assert!(q.active()[0].pinned);
    assert_eq!(q.active().len(), 1);
    assert!(q.tick(t + Duration::from_secs(3600)).is_empty());
}

# katachi

Notification state for a Neovim UI toolkit, verified with Verus.

- `src/time.rs` — `Duration` and `Instant` on a nanosecond scale.
- `src/text.rs` — splitting message text into lines.
- `src/message.rs` — severities, message sources, messages, message ids, and
  how a message is rendered as lines.
- `src/notify.rs` — the notification queue: routing rules, display slots,
  expiry, pinning, promotion of queued messages. Each operation is specified
  as a transition of the queue's view (`QueueState`).
- `src/render.rs` — the layout, border and highlight colours of notification
  windows, and what each window shows.
- `src/laws.rs` — laws of the queue and of messages, proved over those
  transitions.
- `app/` — the Neovim side: plugin entry point, clock, process-wide id
  source, highlight registration and the floating windows.

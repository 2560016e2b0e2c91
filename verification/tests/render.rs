use katachi::message::{Message, MessageIds, Severity};
use katachi::notify::ActiveNotification;
use katachi::render::{
    border_for_severity, highlight_style, notification_layout, plan_notification, Anchor,
    BorderStyle, Size, NOTIFY_WIDTH,
};
use katachi::time::Instant;

#[test]
fn notification_layout_stacks_vertically() {
    let l0 = notification_layout(0, 2);
    let l1 = notification_layout(1, 2);
    let l2 = notification_layout(2, 2);

    // Each should be further down.
    assert!(l1.row_offset > l0.row_offset);
    assert!(l2.row_offset > l1.row_offset);
}

#[test]
fn notification_layout_dimensions() {
    let layout = notification_layout(0, 3);
    match layout.width {
        Size::Fixed(w) => assert_eq!(w, NOTIFY_WIDTH),
    }
    match layout.height {
        Size::Fixed(h) => assert_eq!(h, 3),
    }
}

#[test]
fn border_style_by_severity() {
    assert!(matches!(border_for_severity(Severity::Info), BorderStyle::Rounded));
    assert!(matches!(border_for_severity(Severity::Warn), BorderStyle::Single));
    assert!(matches!(border_for_severity(Severity::Error), BorderStyle::Double));
}

// ---- further cases ----

#[test]
fn layout_rows_and_corner() {
    // Row = 1 + index * (height + 1); two columns in from the right edge.
    assert_eq!(notification_layout(0, 2).row_offset, 1);
    assert_eq!(notification_layout(3, 2).row_offset, 10);
    assert_eq!(notification_layout(2, 5).row_offset, 13);
    let l = notification_layout(1, 1);
    assert_eq!(l.col_offset, -2);
    assert_eq!(l.anchor, Anchor::NorthEast);
}

#[test]
fn highlight_styles() {
    let info = highlight_style(Severity::Info);
    assert_eq!(info.group, "KatachiInfo");
    assert_eq!(info.fg, "#7dcfff");
    assert_eq!(info.bg, "#1a1b26");
    assert!(!info.bold);
    let warn = highlight_style(Severity::Warn);
    assert_eq!(warn.fg, "#e0af68");
    assert!(warn.bold);
    let err = highlight_style(Severity::Error);
    assert_eq!(err.group, "KatachiError");
    assert_eq!(err.fg, "#f7768e");
    assert!(err.bold);
}

#[test]
fn plan_follows_the_message() {
    let mut ids = MessageIds::new();
    let n = ActiveNotification::new(
        Message::error(&mut ids, "a\nb").title("T"),
        Instant::from_nanos(0),
    );
    let plan = plan_notification(&n, 2);
    assert_eq!(plan.lines, vec![" T".to_string(), "  a".to_string(), "  b".to_string()]);
    assert_eq!(plan.layout, notification_layout(2, 3));
    assert_eq!(plan.border, BorderStyle::Double);
    assert_eq!(plan.message_id, n.message.id);
}

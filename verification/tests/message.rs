use katachi::message::{Message, MessageIds, MessageSource, Severity};
use katachi::time::Duration;

#[test]
fn severity_defaults() {
    assert_eq!(Severity::Info.default_duration(), Duration::from_millis(3000));
    assert_eq!(Severity::Warn.default_duration(), Duration::from_millis(5000));
    assert_eq!(Severity::Error.default_duration(), Duration::from_millis(8000));
}

#[test]
fn message_ids_are_unique() {
    let mut ids = MessageIds::new();
    let m1 = Message::info(&mut ids, "a");
    let m2 = Message::info(&mut ids, "b");
    assert_ne!(m1.id, m2.id);
}

#[test]
fn effective_duration_uses_custom() {
    let mut ids = MessageIds::new();
    let m = Message::info(&mut ids, "hello").duration(Duration::from_secs(1));
    assert_eq!(m.effective_duration(), Duration::from_secs(1));
}

#[test]
fn effective_duration_falls_back_to_severity() {
    let mut ids = MessageIds::new();
    let m = Message::warn(&mut ids, "oops");
    assert_eq!(m.effective_duration(), Severity::Warn.default_duration());
}

#[test]
fn render_lines_simple() {
    let mut ids = MessageIds::new();
    let m = Message::info(&mut ids, "hello world");
    let lines = m.render_lines();
    assert_eq!(lines.len(), 1);
    assert!(lines[0].contains("hello world"));
}

#[test]
fn render_lines_with_title() {
    let mut ids = MessageIds::new();
    let m = Message::error(&mut ids, "details here").title("Oh no");
    let lines = m.render_lines();
    assert_eq!(lines.len(), 2);
    assert!(lines[0].contains("Oh no"));
    assert!(lines[1].contains("details"));
}

#[test]
fn render_lines_multiline() {
    let mut ids = MessageIds::new();
    let m = Message::info(&mut ids, "line1\nline2\nline3");
    let lines = m.render_lines();
    assert_eq!(lines.len(), 3);
}

#[test]
fn display_width_accounts_for_icon() {
    let mut ids = MessageIds::new();
    let m = Message::info(&mut ids, "test");
    let width = m.display_width();
    // Icon + space + "test" should be wider than just "test"
    assert!(width > 4);
}

#[test]
fn message_source_display() {
    assert_eq!(MessageSource::LspProgress.to_string(), "lsp");
    assert_eq!(MessageSource::SearchCount.to_string(), "search");
    assert_eq!(MessageSource::Plugin("foo".into()).to_string(), "plugin:foo");
}

#[test]
fn severity_display() {
    assert_eq!(Severity::Info.to_string(), "info");
    assert_eq!(Severity::Warn.to_string(), "warn");
    assert_eq!(Severity::Error.to_string(), "error");
}

#[test]
fn severity_highlight_groups() {
    assert_eq!(Severity::Info.highlight_group(), "KatachiInfo");
    assert_eq!(Severity::Warn.highlight_group(), "KatachiWarn");
    assert_eq!(Severity::Error.highlight_group(), "KatachiError");
}

// ---- further cases ----

#[test]
fn ids_start_at_one_and_count_up() {
    let mut ids = MessageIds::new();
    assert_eq!(ids.next_id(), 1);
    assert_eq!(ids.next_id(), 2);
    let m = Message::new(&mut ids, Severity::Error, "x");
    assert_eq!(m.id, 3);
    assert_eq!(m.source, MessageSource::Builtin);
    assert!(m.duration.is_none());
    assert!(m.title.is_none());
}

#[test]
fn remaining_sources_display() {
    assert_eq!(MessageSource::Builtin.to_string(), "builtin");
    assert_eq!(MessageSource::Custom("bar".into()).to_string(), "custom:bar");
}

#[test]
fn source_equality_compares_names() {
    assert_eq!(MessageSource::Plugin("a".into()), MessageSource::Plugin("a".into()));
    assert_ne!(MessageSource::Plugin("a".into()), MessageSource::Plugin("b".into()));
    assert_ne!(MessageSource::Plugin("a".into()), MessageSource::Custom("a".into()));
    assert_ne!(MessageSource::LspProgress, MessageSource::SearchCount);
}

#[test]
fn render_lines_exact_text() {
    let mut ids = MessageIds::new();
    let m = Message::info(&mut ids, "one\ntwo");
    assert_eq!(m.render_lines(), vec![" one".to_string(), "  two".to_string()]);
    let t = Message::warn(&mut ids, "body").title("Head");
    assert_eq!(t.render_lines(), vec![" Head".to_string(), "  body".to_string()]);
}

#[test]
fn render_lines_empty_content() {
    let mut ids = MessageIds::new();
    let m = Message::info(&mut ids, "");
    assert_eq!(m.render_lines(), vec![" (empty)".to_string()]);
    // A title alone is not empty.
    let t = Message::info(&mut ids, "").title("Only");
    assert_eq!(t.render_lines(), vec![" Only".to_string()]);
}

#[test]
fn render_lines_line_endings() {
    let mut ids = MessageIds::new();
    // "\r\n" ends a line like "\n"; a final line ending adds no empty line.
    let m = Message::info(&mut ids, "a\r\nb\n");
    assert_eq!(m.render_lines(), vec![" a".to_string(), "  b".to_string()]);
    // Blank lines in the middle stay; a lone "\r" is kept.
    let m = Message::info(&mut ids, "a\n\nb\r");
    assert_eq!(
        m.render_lines(),
        vec![" a".to_string(), "  ".to_string(), "  b\r".to_string()]
    );
}

#[test]
fn display_width_is_longest_line() {
    let mut ids = MessageIds::new();
    let m = Message::info(&mut ids, "ab\nabcdef\nx");
    // "  abcdef" has 8 characters.
    assert_eq!(m.display_width(), 8);
    let wide = Message::info(&mut ids, "héllo");
    assert_eq!(wide.display_width(), 6);
}

#[test]
fn builders_keep_other_fields() {
    let mut ids = MessageIds::new();
    let m = Message::warn(&mut ids, "x")
        .source(MessageSource::Custom("c".into()))
        .duration(Duration::from_millis(7))
        .title("t");
    assert_eq!(m.severity, Severity::Warn);
    assert_eq!(m.source, MessageSource::Custom("c".into()));
    assert_eq!(m.duration, Some(Duration::from_millis(7)));
    assert_eq!(m.title.as_deref(), Some("t"));
    assert_eq!(m.content, "x");
}

#[test]
fn severity_durations_increase() {
    assert!(Severity::Info.default_duration() < Severity::Warn.default_duration());
    assert!(Severity::Warn.default_duration() < Severity::Error.default_duration());
}

#[test]
fn icons_are_one_space() {
    assert_eq!(Severity::Info.icon(), " ");
    assert_eq!(Severity::Warn.icon(), " ");
    assert_eq!(Severity::Error.icon(), " ");
}

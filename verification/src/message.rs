//! Message types and severity levels for the notification system.

use vstd::prelude::*;
use crate::text::{split_lines, text_lines};
use crate::time::{Duration, NANOS_PER_MILLI};

verus! {

/// Severity level for a notification message.
#[derive(Clone, Copy, Debug, PartialEq, Eq, Structural, Hash)]
pub enum Severity {
    /// Informational — neutral, auto-dismisses quickly.
    Info,
    /// Warning — something may need attention.
    Warn,
    /// Error — something went wrong.
    Error,
}

impl Severity {
    /// The display duration of this severity, in milliseconds.
    pub open spec fn default_millis(self) -> nat {
        match self {
            Severity::Info => 3000,
            Severity::Warn => 5000,
            Severity::Error => 8000,
        }
    }

    /// The display duration of this severity.
    pub open spec fn default_span(self) -> Duration {
        Duration { nanos: (self.default_millis() * NANOS_PER_MILLI) as u128 }
    }

    /// The highlight group name of this severity.
    pub open spec fn highlight_text(self) -> Seq<char> {
        match self {
            Severity::Info => "KatachiInfo"@,
            Severity::Warn => "KatachiWarn"@,
            Severity::Error => "KatachiError"@,
        }
    }

    /// The icon prefix of this severity.
    pub open spec fn icon_text(self) -> Seq<char> {
        match self {
            Severity::Info => " "@,
            Severity::Warn => " "@,
            Severity::Error => " "@,
        }
    }

    /// The lower-case name of this severity.
    pub open spec fn label_text(self) -> Seq<char> {
        match self {
            Severity::Info => "info"@,
            Severity::Warn => "warn"@,
            Severity::Error => "error"@,
        }
    }

    /// Default display duration for this severity level.
    pub fn default_duration(self) -> (d: Duration)
        ensures
            d == self.default_span(),
    {
        match self {
            Severity::Info => Duration::from_millis(3000),
            Severity::Warn => Duration::from_millis(5000),
            Severity::Error => Duration::from_millis(8000),
        }
    }

    /// Neovim highlight group name for this severity.
    pub fn highlight_group(self) -> (s: &'static str)
        ensures
            s@ == self.highlight_text(),
    {
        match self {
            Severity::Info => "KatachiInfo",
            Severity::Warn => "KatachiWarn",
            Severity::Error => "KatachiError",
        }
    }

    /// Icon prefix for display.
    pub fn icon(self) -> (s: &'static str)
        ensures
            s@ == self.icon_text(),
    {
        match self {
            Severity::Info => " ",
            Severity::Warn => " ",
            Severity::Error => " ",
        }
    }

    /// The severity's name as shown to users (`info`, `warn`, `error`).
    pub fn to_string(&self) -> (s: String)
        ensures
            s@ == self.label_text(),
    {
        match self {
            Severity::Info => String::from_str("info"),
            Severity::Warn => String::from_str("warn"),
            Severity::Error => String::from_str("error"),
        }
    }
}

/// Source of a message, used for routing decisions.
#[derive(Clone, Debug, Eq, Hash)]
pub enum MessageSource {
    /// From the LSP progress handler.
    LspProgress,
    /// Search count messages (e.g., `[1/5]`).
    SearchCount,
    /// Neovim's built-in message system (`:messages`).
    Builtin,
    /// Plugin-generated notification.
    Plugin(String),
    /// Custom user-defined source.
    Custom(String),
}

/// A message source as a mathematical value: names are character sequences.
pub enum SourceView {
    LspProgress,
    SearchCount,
    Builtin,
    Plugin(Seq<char>),
    Custom(Seq<char>),
}

impl View for MessageSource {
    type V = SourceView;

    open spec fn view(&self) -> SourceView {
        match self {
            MessageSource::LspProgress => SourceView::LspProgress,
            MessageSource::SearchCount => SourceView::SearchCount,
            MessageSource::Builtin => SourceView::Builtin,
            MessageSource::Plugin(name) => SourceView::Plugin(name@),
            MessageSource::Custom(name) => SourceView::Custom(name@),
        }
    }
}

impl PartialEq for MessageSource {
    fn eq(&self, other: &Self) -> (same: bool) {
        match (self, other) {
            (MessageSource::LspProgress, MessageSource::LspProgress) => true,
            (MessageSource::SearchCount, MessageSource::SearchCount) => true,
            (MessageSource::Builtin, MessageSource::Builtin) => true,
            (MessageSource::Plugin(a), MessageSource::Plugin(b)) => *a == *b,
            (MessageSource::Custom(a), MessageSource::Custom(b)) => *a == *b,
            _ => false,
        }
    }
}

impl vstd::std_specs::cmp::PartialEqSpecImpl for MessageSource {
    open spec fn obeys_eq_spec() -> bool {
        true
    }

    open spec fn eq_spec(&self, other: &MessageSource) -> bool {
        self@ == other@
    }
}

/// The display name of a source: `lsp`, `search`, `builtin`, `plugin:<name>`, `custom:<name>`.
pub open spec fn source_label(source: SourceView) -> Seq<char> {
    match source {
        SourceView::LspProgress => "lsp"@,
        SourceView::SearchCount => "search"@,
        SourceView::Builtin => "builtin"@,
        SourceView::Plugin(name) => "plugin:"@ + name,
        SourceView::Custom(name) => "custom:"@ + name,
    }
}

impl MessageSource {
    /// The source's display name (`lsp`, `search`, `builtin`, `plugin:<name>`, `custom:<name>`).
    pub fn to_string(&self) -> (s: String)
        ensures
            s@ == source_label(self@),
    {
        match self {
            MessageSource::LspProgress => String::from_str("lsp"),
            MessageSource::SearchCount => String::from_str("search"),
            MessageSource::Builtin => String::from_str("builtin"),
            MessageSource::Plugin(name) => {
                let mut s = String::from_str("plugin:");
                s.append(name.as_str());
                s
            },
            MessageSource::Custom(name) => {
                let mut s = String::from_str("custom:");
                s.append(name.as_str());
                s
            },
        }
    }
}

/// The source of message ids: hands out consecutive numbers, starting at 1,
/// wrapping around after `u64::MAX`.
pub struct MessageIds {
    next: u64,
}

/// The id that follows `id`.
pub open spec fn id_after(id: u64) -> u64 {
    if id == u64::MAX {
        0
    } else {
        (id + 1) as u64
    }
}

impl MessageIds {
    /// The id the next message will get.
    pub closed spec fn upcoming(self) -> u64 {
        self.next
    }

    /// A fresh id source; the first id it hands out is 1.
    pub fn new() -> (ids: MessageIds)
        ensures
            ids.upcoming() == 1,
    {
        MessageIds { next: 1 }
    }

    /// Take the next id.
    pub fn next_id(&mut self) -> (id: u64)
        ensures
            id == old(self).upcoming(),
            final(self).upcoming() == id_after(id),
    {
        let id = self.next;
        self.next = self.next.wrapping_add(1);
        id
    }
}

/// A notification message with content, severity, and routing metadata.
#[derive(Clone, Debug)]
pub struct Message {
    /// Unique ID for this message instance.
    pub id: u64,
    /// The message text content.
    pub content: String,
    /// Severity level.
    pub severity: Severity,
    /// Where this message originated.
    pub source: MessageSource,
    /// How long this message should display before auto-dismissing.
    /// `None` means use the severity default.
    pub duration: Option<Duration>,
    /// Optional title shown above the message body.
    pub title: Option<String>,
}

/// Display width of a list of lines: the length of the longest one.
pub open spec fn widest(lines: Seq<Seq<char>>) -> nat
    decreases lines.len(),
{
    if lines.len() == 0 {
        0
    } else {
        let rest = widest(lines.drop_last());
        if lines.last().len() > rest {
            lines.last().len()
        } else {
            rest
        }
    }
}

/// `"  "` followed by each line.
pub open spec fn indented(lines: Seq<Seq<char>>) -> Seq<Seq<char>> {
    lines.map_values(|l: Seq<char>| "  "@ + l)
}

impl Message {
    /// The duration the message is shown for: its own, or its severity's default.
    pub open spec fn shown_for(self) -> Duration {
        match self.duration {
            Some(d) => d,
            None => self.severity.default_span(),
        }
    }

    /// The lines the message is displayed as: the title (if any) after the icon,
    /// then the content lines; the first line carries the icon, later ones are
    /// indented by two spaces; an empty message shows `(empty)`.
    pub open spec fn rendered(self) -> Seq<Seq<char>> {
        let icon = self.severity.icon_text();
        let body = text_lines(self.content@);
        match self.title {
            Some(t) => seq![icon + t@] + indented(body),
            None => if body.len() == 0 {
                seq![icon + "(empty)"@]
            } else {
                seq![icon + body[0]] + indented(body.drop_first())
            },
        }
    }

    /// Create a new message with the given severity and content, taking its id from `ids`.
    pub fn new(ids: &mut MessageIds, severity: Severity, content: &str) -> (m: Message)
        ensures
            m.id == old(ids).upcoming(),
            final(ids).upcoming() == id_after(m.id),
            m.content@ == content@,
            m.severity == severity,
            m.source == MessageSource::Builtin,
            m.duration == None::<Duration>,
            m.title == None::<String>,
    {
        Message {
            id: ids.next_id(),
            content: String::from_str(content),
            severity,
            source: MessageSource::Builtin,
            duration: None,
            title: None,
        }
    }

    /// Shorthand for an info message.
    pub fn info(ids: &mut MessageIds, content: &str) -> (m: Message)
        ensures
            m.id == old(ids).upcoming(),
            final(ids).upcoming() == id_after(m.id),
            m.content@ == content@,
            m.severity == Severity::Info,
            m.source == MessageSource::Builtin,
            m.duration == None::<Duration>,
            m.title == None::<String>,
    {
        Self::new(ids, Severity::Info, content)
    }

    /// Shorthand for a warning message.
    pub fn warn(ids: &mut MessageIds, content: &str) -> (m: Message)
        ensures
            m.id == old(ids).upcoming(),
            final(ids).upcoming() == id_after(m.id),
            m.content@ == content@,
            m.severity == Severity::Warn,
            m.source == MessageSource::Builtin,
            m.duration == None::<Duration>,
            m.title == None::<String>,
    {
        Self::new(ids, Severity::Warn, content)
    }

    /// Shorthand for an error message.
    pub fn error(ids: &mut MessageIds, content: &str) -> (m: Message)
        ensures
            m.id == old(ids).upcoming(),
            final(ids).upcoming() == id_after(m.id),
            m.content@ == content@,
            m.severity == Severity::Error,
            m.source == MessageSource::Builtin,
            m.duration == None::<Duration>,
            m.title == None::<String>,
    {
        Self::new(ids, Severity::Error, content)
    }

    /// Set the message source.
    pub fn source(self, source: MessageSource) -> (m: Message)
        ensures
            m == (Message { source, ..self }),
    {
        let mut m = self;
        m.source = source;
        m
    }

    /// Override the display duration.
    pub fn duration(self, duration: Duration) -> (m: Message)
        ensures
            m == (Message { duration: Some(duration), ..self }),
    {
        let mut m = self;
        m.duration = Some(duration);
        m
    }

    /// Set a title for the notification.
    pub fn title(self, title: &str) -> (m: Message)
        ensures
            m.title matches Some(t) && t@ == title@,
            m.id == self.id,
            m.content == self.content,
            m.severity == self.severity,
            m.source == self.source,
            m.duration == self.duration,
    {
        let mut m = self;
        m.title = Some(String::from_str(title));
        m
    }

    /// Effective display duration (custom or severity default).
    pub fn effective_duration(&self) -> (d: Duration)
        ensures
            d == self.shown_for(),
    {
        match self.duration {
            Some(d) => d,
            None => self.severity.default_duration(),
        }
    }

    /// Format the message for display as one or more lines.
    pub fn render_lines(&self) -> (lines: Vec<String>)
        ensures
            lines@.len() == self.rendered().len(),
            forall|i: int| 0 <= i < lines@.len() ==> #[trigger] lines@[i]@ == self.rendered()[i],
    {
        let icon = self.severity.icon();
        let mut lines: Vec<String> = Vec::new();
        let ghost body = text_lines(self.content@);
        let ghost iconv = self.severity.icon_text();

        if let Some(title) = &self.title {
            let mut first = String::from_str(icon);
            first.append(title.as_str());
            lines.push(first);
        }
        let content_lines = split_lines(self.content.as_str());
        let ghost head_len: int = if self.title is Some { 1 } else { 0 };
        let ghost want: Seq<Seq<char>> = if self.title is Some {
            seq![iconv + self.title.unwrap()@] + indented(body)
        } else if body.len() == 0 {
            seq![]
        } else {
            seq![iconv + body[0]] + indented(body.drop_first())
        };
        let mut i: usize = 0;
        while i < content_lines.len()
            invariant
                i <= content_lines@.len(),
                content_lines@.len() == body.len(),
                forall|k: int| 0 <= k < content_lines@.len() ==> #[trigger] content_lines@[k]@ == body[k],
                icon@ == iconv,
                want.len() == head_len + body.len(),
                head_len == (if self.title is Some { 1int } else { 0int }),
                want == (if self.title is Some {
                    seq![iconv + self.title.unwrap()@] + indented(body)
                } else if body.len() == 0 {
                    seq![]
                } else {
                    seq![iconv + body[0]] + indented(body.drop_first())
                }),
                lines@.len() == head_len + i,
                forall|k: int| 0 <= k < lines@.len() ==> #[trigger] lines@[k]@ == want[k],
            decreases content_lines@.len() - i,
        {
            let mut line;
            if lines.len() == 0 {
                line = String::from_str(icon);
            } else {
                line = String::from_str("  ");
            }
            line.append(content_lines[i].as_str());
            proof {
                let k = head_len + i;
                if self.title is Some {
                    assert(want[k] == indented(body)[i as int]);
                } else if i == 0 {
                    assert(want[k] == iconv + body[0]);
                } else {
                    assert(want[k] == indented(body.drop_first())[i - 1]);
                    assert(body.drop_first()[i - 1] == body[i as int]);
                }
                assert(line@ == want[k]);
            }
            lines.push(line);
            i = i + 1;
        }
        if lines.len() == 0 {
            let mut only = String::from_str(icon);
            only.append("(empty)");
            lines.push(only);
            proof {
                assert(self.rendered() == seq![iconv + "(empty)"@]);
            }
        } else {
            proof {
                assert(self.rendered() =~= want);
            }
        }
        lines
    }

    /// Width needed to display this message (longest line length, in characters).
    pub fn display_width(&self) -> (w: usize)
        ensures
            w == widest(self.rendered()),
    {
        let lines = self.render_lines();
        let ghost r = self.rendered();
        let mut widest_so_far: usize = 0;
        let mut i: usize = 0;
        while i < lines.len()
            invariant
                i <= lines@.len(),
                lines@.len() == r.len(),
                forall|k: int| 0 <= k < lines@.len() ==> #[trigger] lines@[k]@ == r[k],
                widest_so_far == widest(r.take(i as int)),
            decreases lines@.len() - i,
        {
            let count = lines[i].as_str().unicode_len();
            proof {
                assert(r.take(i + 1).drop_last() =~= r.take(i as int));
                assert(r.take(i + 1).last() == r[i as int]);
            }
            if count > widest_so_far {
                widest_so_far = count;
            }
            i = i + 1;
        }
        proof {
            assert(r.take(lines@.len() as int) =~= r);
        }
        widest_so_far
    }
}

} // verus!

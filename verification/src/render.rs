//! Placement and look of notification windows.
//!
//! Each active notification gets its own floating window, stacked vertically
//! from the top-right corner of the editor. This module decides what each
//! window shows and where it goes; opening and closing the windows is the
//! host's part.

use vstd::prelude::*;
use crate::message::Severity;
use crate::notify::ActiveNotification;

verus! {

/// Gap between stacked notification windows (rows).
pub const STACK_GAP: u32 = 1;

/// Default notification width in columns.
pub const NOTIFY_WIDTH: u32 = 40;

/// Right margin from the editor edge.
pub const RIGHT_MARGIN: i32 = 2;

/// Top margin from the editor edge.
pub const TOP_MARGIN: i32 = 1;

/// Size of a window along one axis.
#[derive(Clone, Copy, Debug, PartialEq, Eq, Structural)]
pub enum Size {
    /// A fixed number of cells.
    Fixed(u32),
}

/// Corner of the editor a floating window is placed against.
#[derive(Clone, Copy, Debug, PartialEq, Eq, Structural)]
pub enum Anchor {
    NorthWest,
    NorthEast,
    SouthWest,
    SouthEast,
}

/// Placement of a floating window.
#[derive(Clone, Copy, Debug, PartialEq, Eq, Structural)]
pub struct FloatLayout {
    pub width: Size,
    pub height: Size,
    pub anchor: Anchor,
    /// Rows from the anchor corner.
    pub row_offset: i32,
    /// Columns from the anchor corner.
    pub col_offset: i32,
}

/// Border drawn around a window.
#[derive(Clone, Copy, Debug, PartialEq, Eq, Structural)]
pub enum BorderStyle {
    Rounded,
    Single,
    Double,
}

/// Colors and weight of a severity's highlight group.
#[derive(Clone, Copy, Debug)]
pub struct HighlightStyle {
    /// The highlight group name.
    pub group: &'static str,
    /// Foreground color, as `#rrggbb`.
    pub fg: &'static str,
    /// Background color, as `#rrggbb`.
    pub bg: &'static str,
    /// Whether the text is bold.
    pub bold: bool,
}

/// Row of the `index`-th window of a stack of windows `height` rows high:
/// the top margin plus, for each earlier window, its height and the gap.
/// Index and height are read as `i32` the way a cast reads them.
pub open spec fn stack_row(index: usize, height: u32) -> int {
    TOP_MARGIN + (index as i32) * ((height as i32) + STACK_GAP)
}

/// The row of the `index`-th window can be computed in `i32` without overflow.
pub open spec fn stack_fits(index: usize, height: u32) -> bool {
    &&& (height as i32) + STACK_GAP <= i32::MAX
    &&& i32::MIN <= (index as i32) * ((height as i32) + STACK_GAP) <= i32::MAX
    &&& i32::MIN <= stack_row(index, height) <= i32::MAX
}

/// The layout of the `index`-th window of a stack of windows `height` rows high.
pub open spec fn stacked_layout(index: usize, height: u32) -> FloatLayout {
    FloatLayout {
        width: Size::Fixed(NOTIFY_WIDTH),
        height: Size::Fixed(height),
        anchor: Anchor::NorthEast,
        row_offset: stack_row(index, height) as i32,
        col_offset: (-RIGHT_MARGIN) as i32,
    }
}

/// The border style of a severity.
pub open spec fn border_of(severity: Severity) -> BorderStyle {
    match severity {
        Severity::Info => BorderStyle::Rounded,
        Severity::Warn => BorderStyle::Single,
        Severity::Error => BorderStyle::Double,
    }
}

/// Height of a window showing `count` lines: the count as `u32`, at least one row.
pub open spec fn window_height(count: nat) -> u32 {
    if (count as u32) >= 1 {
        count as u32
    } else {
        1
    }
}

/// Build the layout for the Nth notification in the stack (0-indexed).
pub fn notification_layout(index: usize, height: u32) -> (layout: FloatLayout)
    requires
        stack_fits(index, height),
    ensures
        layout == stacked_layout(index, height),
{
    let row_offset = TOP_MARGIN + (index as i32) * (height as i32 + STACK_GAP as i32);
    FloatLayout {
        width: Size::Fixed(NOTIFY_WIDTH),
        height: Size::Fixed(height),
        anchor: Anchor::NorthEast,
        row_offset,
        col_offset: -RIGHT_MARGIN,
    }
}

/// Choose border style based on severity.
pub fn border_for_severity(severity: Severity) -> (border: BorderStyle)
    ensures
        border == border_of(severity),
{
    match severity {
        Severity::Info => BorderStyle::Rounded,
        Severity::Warn => BorderStyle::Single,
        Severity::Error => BorderStyle::Double,
    }
}

/// The highlight group of a severity with its colors: all on `#1a1b26`;
/// info in `#7dcfff`, warnings in bold `#e0af68`, errors in bold `#f7768e`.
pub fn highlight_style(severity: Severity) -> (style: HighlightStyle)
    ensures
        style.group@ == severity.highlight_text(),
        style.bg@ == "#1a1b26"@,
        style.fg@ == match severity {
            Severity::Info => "#7dcfff"@,
            Severity::Warn => "#e0af68"@,
            Severity::Error => "#f7768e"@,
        },
        style.bold == (severity != Severity::Info),
{
    let group = severity.highlight_group();
    match severity {
        Severity::Info => HighlightStyle { group, fg: "#7dcfff", bg: "#1a1b26", bold: false },
        Severity::Warn => HighlightStyle { group, fg: "#e0af68", bg: "#1a1b26", bold: true },
        Severity::Error => HighlightStyle { group, fg: "#f7768e", bg: "#1a1b26", bold: true },
    }
}

/// What the window of one notification shows and where it goes.
pub struct WindowPlan {
    /// The lines shown in the window.
    pub lines: Vec<String>,
    /// Where the window is placed.
    pub layout: FloatLayout,
    /// The window's border.
    pub border: BorderStyle,
    /// The message ID this window represents.
    pub message_id: u64,
}

/// The window of a notification at position `stack_index` of the stack
/// (0 = top): its rendered lines, a layout as high as those lines (at least
/// one row), the border of its severity, and its message id.
pub fn plan_notification(notification: &ActiveNotification, stack_index: usize) -> (plan: WindowPlan)
    requires
        stack_fits(stack_index, window_height(notification.message.rendered().len())),
    ensures
        plan.lines@.len() == notification.message.rendered().len(),
        forall|i: int|
            0 <= i < plan.lines@.len() ==> #[trigger] plan.lines@[i]@
                == notification.message.rendered()[i],
        plan.layout == stacked_layout(
            stack_index,
            window_height(notification.message.rendered().len()),
        ),
        plan.border == border_of(notification.message.severity),
        plan.message_id == notification.message.id,
{
    let lines = notification.message.render_lines();
    let count = lines.len() as u32;
    let height = if count >= 1 { count } else { 1 };
    let layout = notification_layout(stack_index, height);
    let border = border_for_severity(notification.message.severity);
    WindowPlan { lines, layout, border, message_id: notification.message.id }
}

} // verus!

//! Katachi (形) — notification state for a Neovim UI toolkit.
//!
//! The crate holds the message model ([`message`]), the notification queue
//! with its routing, display slots, expiry and promotion ([`notify`]), the
//! placement of notification windows ([`render`]), and the laws of the
//! queue ([`laws`]), each stated and proved with Verus. Time is read through
//! [`time::Instant`] and [`time::Duration`]; the host reads the clock and
//! opens the windows.

pub mod laws;
pub mod message;
pub mod notify;
pub mod render;
pub mod text;
pub mod time;

pub use message::{Message, MessageIds, MessageSource, Severity};
pub use notify::{ActiveNotification, NotifyQueue, RouteRule};
pub use render::{BorderStyle, FloatLayout, WindowPlan};
pub use time::{Duration, Instant};

//! Coordination engine of a window-focus switcher.
//!
//! The engine decides, for every key event and for every message that
//! reaches the window procedure, what happens next: which window becomes the
//! next candidate, whether a cycle goes on or starts again, and whether a
//! key event is kept from the rest of the input pipeline. It never touches
//! the desktop itself: it is handed plain values and answers with plain
//! values, and the program around it lists the windows, paints the overlay
//! and brings windows to the front.
//!
//! - [`keyboard`]: the hotkey matcher behind the keyboard hook.
//! - [`intent`]: the intents that the hook posts to the coordinator.
//! - [`switch_apps`]: the cycle through the running applications.
//! - [`switch_windows`]: the cycle through the windows of one application.
//! - [`app`]: the coordinator, which owns both cycles.
//! - [`config`]: the configuration that the engine reads.
//! - [`id_set`]: the ordered set of window ids behind the window cycle.

pub mod app;
pub mod config;
pub mod id_set;
pub mod intent;
pub mod keyboard;
pub mod switch_apps;
pub mod switch_windows;

pub use crate::app::start;

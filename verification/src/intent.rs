//! The intents that the keyboard hook posts to the coordinator.
//!
//! An intent carries no window handle: the coordinator resolves the windows
//! when the intent arrives, on the thread that owns the user interface.

use vstd::prelude::*;

verus! {

/// Message that begins or advances the application cycle.
pub const WM_USER_SWITCH_APPS: u32 = 6010;

/// Message that commits the application cycle.
pub const WM_USER_SWITCH_APPS_DONE: u32 = 6011;

/// Message that cancels the application cycle.
pub const WM_USER_SWITCH_APPS_CANCEL: u32 = 6012;

/// Message that advances the window cycle.
pub const WM_USER_SWITCH_WINDOWS: u32 = 6020;

/// Message that tells that the modifier of the window cycle was released.
pub const WM_USER_SWITCH_WINDOWS_DONE: u32 = 6021;

/// What the user asks of the coordinator. The flag of the two advances is
/// the direction: `true` goes backwards.
#[derive(Clone, Copy, Debug, PartialEq, Eq, Structural)]
pub enum SwitchIntent {
    BeginOrAdvanceApps(bool),
    CommitApps,
    CancelApps,
    BeginOrAdvanceWindows(bool),
    CommitWindows,
}

/// The direction payload of a message: 1 for backwards, 0 for forwards.
pub open spec fn direction(reverse: bool) -> isize {
    if reverse {
        1
    } else {
        0
    }
}

impl SwitchIntent {
    /// The message that carries the intent, with its payload.
    pub open spec fn message(self) -> (u32, isize) {
        match self {
            SwitchIntent::BeginOrAdvanceApps(reverse) => (WM_USER_SWITCH_APPS, direction(reverse)),
            SwitchIntent::CommitApps => (WM_USER_SWITCH_APPS_DONE, 0),
            SwitchIntent::CancelApps => (WM_USER_SWITCH_APPS_CANCEL, 0),
            SwitchIntent::BeginOrAdvanceWindows(reverse) => (
                WM_USER_SWITCH_WINDOWS,
                direction(reverse),
            ),
            SwitchIntent::CommitWindows => (WM_USER_SWITCH_WINDOWS_DONE, 0),
        }
    }

    /// The intent that a message carries, if it carries one. A payload of 1
    /// means backwards, any other payload forwards.
    pub open spec fn of_message(msg: u32, lparam: isize) -> Option<SwitchIntent> {
        if msg == WM_USER_SWITCH_APPS {
            Some(SwitchIntent::BeginOrAdvanceApps(lparam == 1))
        } else if msg == WM_USER_SWITCH_APPS_DONE {
            Some(SwitchIntent::CommitApps)
        } else if msg == WM_USER_SWITCH_APPS_CANCEL {
            Some(SwitchIntent::CancelApps)
        } else if msg == WM_USER_SWITCH_WINDOWS {
            Some(SwitchIntent::BeginOrAdvanceWindows(lparam == 1))
        } else if msg == WM_USER_SWITCH_WINDOWS_DONE {
            Some(SwitchIntent::CommitWindows)
        } else {
            None
        }
    }

    /// The message to post for the intent: its code and its payload.
    pub fn to_message(&self) -> (message: (u32, isize))
        ensures
            message == self.message(),
            SwitchIntent::of_message(message.0, message.1) == Some(*self),
    {
        match self {
            SwitchIntent::BeginOrAdvanceApps(reverse) => (
                WM_USER_SWITCH_APPS,
                if *reverse {
                    1
                } else {
                    0
                },
            ),
            SwitchIntent::CommitApps => (WM_USER_SWITCH_APPS_DONE, 0),
            SwitchIntent::CancelApps => (WM_USER_SWITCH_APPS_CANCEL, 0),
            SwitchIntent::BeginOrAdvanceWindows(reverse) => (
                WM_USER_SWITCH_WINDOWS,
                if *reverse {
                    1
                } else {
                    0
                },
            ),
            SwitchIntent::CommitWindows => (WM_USER_SWITCH_WINDOWS_DONE, 0),
        }
    }

    /// Reads the intent that a message carries.
    pub fn from_message(msg: u32, lparam: isize) -> (intent: Option<SwitchIntent>)
        ensures
            intent == SwitchIntent::of_message(msg, lparam),
    {
        if msg == WM_USER_SWITCH_APPS {
            Some(SwitchIntent::BeginOrAdvanceApps(lparam == 1))
        } else if msg == WM_USER_SWITCH_APPS_DONE {
            Some(SwitchIntent::CommitApps)
        } else if msg == WM_USER_SWITCH_APPS_CANCEL {
            Some(SwitchIntent::CancelApps)
        } else if msg == WM_USER_SWITCH_WINDOWS {
            Some(SwitchIntent::BeginOrAdvanceWindows(lparam == 1))
        } else if msg == WM_USER_SWITCH_WINDOWS_DONE {
            Some(SwitchIntent::CommitWindows)
        } else {
            None
        }
    }
}

/// Every intent arrives as it was posted.
pub proof fn lemma_message_round_trip(intent: SwitchIntent)
    ensures
        SwitchIntent::of_message(intent.message().0, intent.message().1) == Some(intent),
{
}

} // verus!

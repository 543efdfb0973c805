//! The coordinator: it owns both cycles, takes the messages that reach the
//! window procedure one at a time, and answers each with what the thread
//! that owns the user interface has to do.
//!
//! The coordinator never enumerates, paints or activates anything itself.
//! Where a message needs the windows that exist now, it answers with the
//! request to list them, and the host hands the list to [`App::switch_apps`]
//! or [`App::switch_windows`].

use crate::config::{Config, ConfigView};
use crate::intent::SwitchIntent;
use crate::keyboard::{KeyboardListener, KeyboardView};
use crate::switch_apps::{
    candidates,
    collect_candidates,
    group_views,
    initial_index,
    lemma_next_index,
    lemma_advance_by_is_valid,
    lemma_advance_full_circle,
    lemma_select_matches_advances,
    lemma_select_matches_advances_from_begin,
    AppGroup,
    AppGroupView,
    SwitchAppsState,
    SwitchAppsView,
};
use crate::switch_windows::{
    find_owner,
    owner,
    window_group_views,
    SwitchWindowsState,
    SwitchWindowsView,
    WindowGroup,
    WindowGroupView,
};
use vstd::prelude::*;

verus! {

/// Message of the tray icon.
pub const WM_USER_TRAYICON: u32 = 6000;

/// Message that asks to register the tray icon again.
pub const WM_USER_REGISTER_TRAYICON: u32 = 6001;

/// Message that asks to load the configuration again.
pub const WM_USER_RELOAD_CONFIG: u32 = 6030;

/// Menu command: leave the program.
pub const IDM_EXIT: u32 = 1;

/// Menu command: switch the start with the session on or off.
pub const IDM_STARTUP: u32 = 2;

/// Menu command: edit the configuration file.
pub const IDM_CONFIGURE: u32 = 3;

/// The system's message for a menu command.
pub const WM_COMMAND: u32 = 0x0111;

/// The system's message that asks to erase the background.
pub const WM_ERASEBKGND: u32 = 0x0014;

/// The system's message that asks which part of the window lies under the
/// pointer.
pub const WM_NCHITTEST: u32 = 0x0084;

/// The system's message for the release of the left mouse button.
pub const WM_LBUTTONUP: u32 = 0x0202;

/// The system's message for the release of the right mouse button.
pub const WM_RBUTTONUP: u32 = 0x0205;

/// The answer to a hit test that stands for the client area.
pub const HTCLIENT: isize = 1;

/// The upper half of the lower 32 bits of a message parameter.
pub open spec fn high_word(wparam: usize) -> u32 {
    ((wparam as u32) >> 16) & 0xffff
}

/// The lowest 16 bits of a message parameter.
pub open spec fn low_word(wparam: usize) -> u32 {
    (wparam as u32) & 0xffff
}

/// What a message of the window procedure means.
#[derive(Clone, Copy, Debug, PartialEq, Eq, Structural)]
pub enum Message {
    /// A message of the tray icon; `clicked` tells that a mouse button was
    /// released on it.
    TrayIcon { clicked: bool },
    /// An intent posted by the keyboard hook.
    Switch(SwitchIntent),
    /// The configuration is to be loaded again.
    ReloadConfig,
    /// The system asks which part of the window lies under the pointer.
    HitTest,
    /// The left mouse button was released on the overlay.
    Click,
    /// The menu command to leave the program.
    Exit,
    /// The menu command to switch the start with the session on or off.
    ToggleStartup,
    /// The menu command to edit the configuration file.
    Configure,
    /// The system asks to erase the background.
    EraseBackground,
    /// The tray icon is to be registered again.
    RegisterTrayIcon,
    /// Any other message: nothing to do.
    Other,
}

impl Message {
    /// The meaning of the message `msg` with its two parameters.
    /// `taskbar_created` is the number under which the system announces a
    /// new taskbar.
    pub open spec fn decode(msg: u32, wparam: usize, lparam: isize, taskbar_created: u32) -> Message {
        if msg == WM_USER_TRAYICON {
            Message::TrayIcon {
                clicked: lparam as u32 == WM_LBUTTONUP || lparam as u32 == WM_RBUTTONUP,
            }
        } else if let Some(intent) = SwitchIntent::of_message(msg, lparam) {
            Message::Switch(intent)
        } else if msg == WM_USER_RELOAD_CONFIG {
            Message::ReloadConfig
        } else if msg == WM_NCHITTEST {
            Message::HitTest
        } else if msg == WM_LBUTTONUP {
            Message::Click
        } else if msg == WM_COMMAND {
            if high_word(wparam) != 0 {
                Message::Other
            } else if low_word(wparam) == IDM_EXIT {
                Message::Exit
            } else if low_word(wparam) == IDM_STARTUP {
                Message::ToggleStartup
            } else if low_word(wparam) == IDM_CONFIGURE {
                Message::Configure
            } else {
                Message::Other
            }
        } else if msg == WM_ERASEBKGND {
            Message::EraseBackground
        } else if msg == WM_USER_REGISTER_TRAYICON || msg == taskbar_created {
            Message::RegisterTrayIcon
        } else {
            Message::Other
        }
    }

    /// What the window procedure returns for the message, where it does not
    /// leave the answer to the system's default procedure.
    pub open spec fn reply(self) -> Option<isize> {
        match self {
            Message::TrayIcon { .. } => Some(0),
            Message::HitTest => Some(HTCLIENT),
            Message::EraseBackground => Some(0),
            _ => None,
        }
    }
}

/// Reads the meaning of a message of the window procedure.
pub fn decode_message(msg: u32, wparam: usize, lparam: isize, taskbar_created: u32) -> (message:
    Message)
    ensures
        message == Message::decode(msg, wparam, lparam, taskbar_created),
{
    if msg == WM_USER_TRAYICON {
        let keycode = #[verifier::truncate]
        (lparam as u32);
        return Message::TrayIcon { clicked: keycode == WM_LBUTTONUP || keycode == WM_RBUTTONUP };
    }
    match SwitchIntent::from_message(msg, lparam) {
        Some(intent) => {
            return Message::Switch(intent);
        },
        None => {},
    }
    if msg == WM_USER_RELOAD_CONFIG {
        Message::ReloadConfig
    } else if msg == WM_NCHITTEST {
        Message::HitTest
    } else if msg == WM_LBUTTONUP {
        Message::Click
    } else if msg == WM_COMMAND {
        let value = #[verifier::truncate]
        (wparam as u32);
        let kind = (value >> 16) & 0xffff;
        let id = value & 0xffff;
        if kind != 0 {
            Message::Other
        } else if id == IDM_EXIT {
            Message::Exit
        } else if id == IDM_STARTUP {
            Message::ToggleStartup
        } else if id == IDM_CONFIGURE {
            Message::Configure
        } else {
            Message::Other
        }
    } else if msg == WM_ERASEBKGND {
        Message::EraseBackground
    } else if msg == WM_USER_REGISTER_TRAYICON || msg == taskbar_created {
        Message::RegisterTrayIcon
    } else {
        Message::Other
    }
}

/// The filters of an enumeration of windows.
#[derive(Clone, Copy, Debug, PartialEq, Eq, Structural)]
pub struct WindowFilter {
    pub ignore_minimal: bool,
    pub only_current_desktop: bool,
    /// Whether the program runs with elevated rights.
    pub elevated: bool,
}

/// What the host has to do after the coordinator has taken a message.
#[derive(Clone, Copy, Debug, PartialEq, Eq, Structural)]
pub enum Action {
    /// Nothing.
    Nothing,
    /// Show the menu of the tray icon.
    ShowTrayMenu,
    /// List the running applications and hand them to
    /// [`App::switch_apps`].
    ListApps { reverse: bool, filter: WindowFilter },
    /// Paint the overlay for the application cycle as it is now.
    Paint,
    /// Take the overlay away.
    Unpaint,
    /// Bring the window to the front.
    Activate(isize),
    /// Bring the window to the front, then take the overlay away.
    ActivateAndUnpaint(isize),
    /// List the windows and hand them to [`App::switch_windows`], together
    /// with `target`, or with the window in front where there is no target.
    ListWindows { target: Option<isize>, reverse: bool, filter: WindowFilter },
    /// Find the candidate under the pointer and hand it to [`App::click`].
    ResolveClick,
    /// Load the configuration and hand it to [`App::reload_config`].
    ReloadConfig,
    /// Register the tray icon.
    RegisterTrayIcon,
    /// Leave the program.
    Exit,
    /// Switch the start with the session on or off.
    ToggleStartup,
    /// Open the configuration file for editing.
    Configure,
}

/// The coordinator's answer to a message.
#[derive(Clone, Copy, Debug, PartialEq, Eq, Structural)]
pub struct Handled {
    pub action: Action,
    /// What the window procedure returns. Without a value here, the
    /// system's default procedure decides.
    pub reply: Option<isize>,
}

/// The coordinator.
#[derive(Debug)]
pub struct App {
    is_admin: bool,
    config: Config,
    switch_windows_state: SwitchWindowsState,
    switch_apps_state: Option<SwitchAppsState>,
}

/// Mathematical model of the coordinator.
#[verifier::ext_equal]
pub struct AppView {
    pub is_admin: bool,
    pub config: ConfigView,
    pub switch_windows_state: SwitchWindowsView,
    pub switch_apps_state: Option<SwitchAppsView>,
}

impl View for App {
    type V = AppView;

    closed spec fn view(&self) -> AppView {
        AppView {
            is_admin: self.is_admin,
            config: self.config@,
            switch_windows_state: self.switch_windows_state@,
            switch_apps_state: match self.switch_apps_state {
                Some(s) => Some(s@),
                None => None,
            },
        }
    }
}

impl AppView {
    /// The indices of both cycles point at what they select.
    pub open spec fn wf(self) -> bool {
        &&& self.switch_windows_state.wf()
        &&& self.switch_apps_state matches Some(s) ==> s.wf()
    }

    /// The coordinator as the program starts it: no application cycle, no
    /// cached window cycle, the modifier released.
    pub open spec fn start(config: ConfigView, is_admin: bool) -> AppView {
        AppView {
            is_admin,
            config,
            switch_windows_state: SwitchWindowsView { cache: None, modifier_released: true },
            switch_apps_state: None,
        }
    }

    /// The filters with which the applications are listed.
    pub open spec fn apps_filter(self) -> WindowFilter {
        WindowFilter {
            ignore_minimal: self.config.switch_apps_ignore_minimal,
            only_current_desktop: self.config.switch_apps_only_current_desktop,
            elevated: self.is_admin,
        }
    }

    /// The filters with which the windows of an application are listed.
    pub open spec fn windows_filter(self) -> WindowFilter {
        WindowFilter {
            ignore_minimal: self.config.switch_windows_ignore_minimal,
            only_current_desktop: self.config.switch_windows_only_current_desktop,
            elevated: self.is_admin,
        }
    }

    /// The coordinator with another application cycle, or none.
    pub open spec fn with_apps(self, apps: Option<SwitchAppsView>) -> AppView {
        AppView { switch_apps_state: apps, ..self }
    }

    /// The coordinator with another window cycle.
    pub open spec fn with_windows(self, windows: SwitchWindowsView) -> AppView {
        AppView { switch_windows_state: windows, ..self }
    }

    /// The state after a request to begin or advance the application cycle,
    /// given the applications that run now. A cycle in progress advances and
    /// does not look at them.
    pub open spec fn switch_apps(self, reverse: bool, groups: Seq<AppGroupView>) -> AppView {
        match self.switch_apps_state {
            Some(s) => self.with_apps(Some(s.advance(reverse))),
            None => self.with_apps(SwitchAppsView::begin(candidates(groups), reverse)),
        }
    }

    /// What remains to do after [`AppView::switch_apps`]: paint, if a cycle
    /// is in progress.
    pub open spec fn switch_apps_action(self, reverse: bool, groups: Seq<AppGroupView>) -> Action {
        if self.switch_apps(reverse, groups).switch_apps_state is Some {
            Action::Paint
        } else {
            Action::Nothing
        }
    }

    /// The state after a request to advance the window cycle of the
    /// application that owns `hwnd`, given the windows that exist now.
    pub open spec fn switch_windows(
        self,
        groups: Seq<WindowGroupView>,
        hwnd: isize,
        reverse: bool,
    ) -> AppView {
        match owner(groups, hwnd) {
            Some(group) => self.with_windows(
                self.switch_windows_state.advance(group.key, group.windows, reverse),
            ),
            None => self,
        }
    }

    /// What remains to do after [`AppView::switch_windows`]: bring the
    /// selected window to the front, if there is a window to switch to.
    pub open spec fn switch_windows_action(
        self,
        groups: Seq<WindowGroupView>,
        hwnd: isize,
        reverse: bool,
    ) -> Action {
        match owner(groups, hwnd) {
            Some(group) => match self.switch_windows_state.target(
                group.key,
                group.windows,
                reverse,
            ) {
                Some(window) => Action::Activate(window),
                None => Action::Nothing,
            },
            None => Action::Nothing,
        }
    }

    /// The state after a commit or a cancel of the application cycle.
    pub open spec fn end_apps(self) -> AppView {
        self.with_apps(None)
    }

    /// What remains to do after a commit: bring the selected window to the
    /// front and take the overlay away.
    pub open spec fn commit_action(self) -> Action {
        match self.switch_apps_state {
            Some(s) => if s.wf() {
                Action::ActivateAndUnpaint(s.selected_window())
            } else {
                Action::Unpaint
            },
            None => Action::Nothing,
        }
    }

    /// What remains to do after a cancel: take the overlay away.
    pub open spec fn cancel_action(self) -> Action {
        match self.switch_apps_state {
            Some(_) => Action::Unpaint,
            None => Action::Nothing,
        }
    }

    /// The state after the click on the overlay was resolved to the
    /// candidate `clicked`, or to none.
    pub open spec fn click(self, clicked: Option<int>) -> AppView {
        match (self.switch_apps_state, clicked) {
            (Some(_), Some(_)) => self.end_apps(),
            _ => self,
        }
    }

    /// What remains to do after [`AppView::click`]: the click selects the
    /// candidate and commits at once.
    pub open spec fn click_action(self, clicked: Option<int>) -> Action {
        match (self.switch_apps_state, clicked) {
            (Some(s), Some(i)) => self.with_apps(Some(s.select(i))).commit_action(),
            _ => Action::Nothing,
        }
    }

    /// The state after an intent of the keyboard hook, as far as it does not
    /// depend on the windows that exist now.
    pub open spec fn after_intent(self, intent: SwitchIntent) -> AppView {
        match intent {
            SwitchIntent::BeginOrAdvanceApps(reverse) => match self.switch_apps_state {
                Some(s) => self.with_apps(Some(s.advance(reverse))),
                None => self,
            },
            SwitchIntent::CommitApps => self.end_apps(),
            SwitchIntent::CancelApps => self.end_apps(),
            SwitchIntent::BeginOrAdvanceWindows(_) => self,
            SwitchIntent::CommitWindows => self.with_windows(self.switch_windows_state.release()),
        }
    }

    /// What remains to do after an intent of the keyboard hook.
    pub open spec fn intent_action(self, intent: SwitchIntent) -> Action {
        match intent {
            SwitchIntent::BeginOrAdvanceApps(reverse) => match self.switch_apps_state {
                Some(_) => Action::Paint,
                None => Action::ListApps { reverse, filter: self.apps_filter() },
            },
            SwitchIntent::CommitApps => self.commit_action(),
            SwitchIntent::CancelApps => self.cancel_action(),
            SwitchIntent::BeginOrAdvanceWindows(reverse) => Action::ListWindows {
                target: match self.switch_apps_state {
                    Some(s) => Some(s.selected_window()),
                    None => None,
                },
                reverse,
                filter: self.windows_filter(),
            },
            SwitchIntent::CommitWindows => Action::Nothing,
        }
    }

    /// The state after an intent whose listing, where the answer asked for
    /// one, was handed in: `apps` lists the running applications, `windows`
    /// the windows that exist, and `foreground` is the window in front.
    pub open spec fn settled(
        self,
        intent: SwitchIntent,
        apps: Seq<AppGroupView>,
        windows: Seq<WindowGroupView>,
        foreground: isize,
    ) -> AppView {
        match self.intent_action(intent) {
            Action::ListApps { reverse, .. } => self.after_intent(intent).switch_apps(
                reverse,
                apps,
            ),
            Action::ListWindows { target, reverse, .. } => self.after_intent(
                intent,
            ).switch_windows(
                windows,
                match target {
                    Some(window) => window,
                    None => foreground,
                },
                reverse,
            ),
            _ => self.after_intent(intent),
        }
    }

    /// What remains to do once the listing was handed in.
    pub open spec fn settled_action(
        self,
        intent: SwitchIntent,
        apps: Seq<AppGroupView>,
        windows: Seq<WindowGroupView>,
        foreground: isize,
    ) -> Action {
        match self.intent_action(intent) {
            Action::ListApps { reverse, .. } => self.after_intent(intent).switch_apps_action(
                reverse,
                apps,
            ),
            Action::ListWindows { target, reverse, .. } => self.after_intent(
                intent,
            ).switch_windows_action(
                windows,
                match target {
                    Some(window) => window,
                    None => foreground,
                },
                reverse,
            ),
            action => action,
        }
    }

    /// The state after `count` requests to advance the application cycle in
    /// one direction.
    pub open spec fn advance_apps_by(self, reverse: bool, count: nat) -> AppView
        decreases count,
    {
        if count == 0 {
            self
        } else {
            self.advance_apps_by(reverse, (count - 1) as nat).after_intent(
                SwitchIntent::BeginOrAdvanceApps(reverse),
            )
        }
    }

    /// The state after a message.
    pub open spec fn after_message(self, message: Message) -> AppView {
        match message {
            Message::Switch(intent) => self.after_intent(intent),
            _ => self,
        }
    }

    /// What remains to do after a message.
    pub open spec fn message_action(self, message: Message) -> Action {
        match message {
            Message::TrayIcon { clicked } => if clicked {
                Action::ShowTrayMenu
            } else {
                Action::Nothing
            },
            Message::Switch(intent) => self.intent_action(intent),
            Message::ReloadConfig => Action::ReloadConfig,
            Message::HitTest => Action::Nothing,
            Message::Click => if self.switch_apps_state is Some {
                Action::ResolveClick
            } else {
                Action::Nothing
            },
            Message::Exit => Action::Exit,
            Message::ToggleStartup => Action::ToggleStartup,
            Message::Configure => Action::Configure,
            Message::EraseBackground => Action::Nothing,
            Message::RegisterTrayIcon => Action::RegisterTrayIcon,
            Message::Other => Action::Nothing,
        }
    }
}

impl App {
    /// Sets the engine up for the given configuration: the coordinator with
    /// no cycle in progress, and the hotkey matcher for the configured
    /// hotkeys. `is_admin` tells whether the program runs with elevated
    /// rights.
    pub fn start(config: &Config, is_admin: bool) -> (engine: (App, KeyboardListener))
        ensures
            engine.0@ == AppView::start(config@, is_admin),
            engine.0@.wf(),
            engine.1@ == KeyboardView::init(config@.hotkeys),
    {
        let listener = KeyboardListener::init(config.hotkeys.as_slice());
        let app = App {
            is_admin,
            config: config.clone(),
            switch_windows_state: SwitchWindowsState::new(),
            switch_apps_state: None,
        };
        (app, listener)
    }

    /// Whether the indices of both cycles point at what they select. Every
    /// function of the coordinator leaves it so.
    pub fn is_valid(&self) -> (valid: bool)
        ensures
            valid == self@.wf(),
    {
        let windows_valid = self.switch_windows_state.is_valid();
        let apps_valid = match &self.switch_apps_state {
            Some(state) => state.is_valid(),
            None => true,
        };
        windows_valid && apps_valid
    }

    /// Whether the program runs with elevated rights.
    pub fn is_admin(&self) -> (elevated: bool)
        ensures
            elevated == self@.is_admin,
    {
        self.is_admin
    }

    /// The configuration in use.
    pub fn config(&self) -> (config: &Config)
        ensures
            config@ == self@.config,
    {
        &self.config
    }

    /// The application cycle, if one is in progress.
    pub fn switch_apps_state(&self) -> (state: &Option<SwitchAppsState>)
        ensures
            match *state {
                Some(s) => self@.switch_apps_state == Some(s@),
                None => self@.switch_apps_state is None,
            },
    {
        &self.switch_apps_state
    }

    /// The window cycle.
    pub fn switch_windows_state(&self) -> (state: &SwitchWindowsState)
        ensures
            state@ == self@.switch_windows_state,
    {
        &self.switch_windows_state
    }

    /// Takes one message of the window procedure. Intents that need the
    /// windows that exist now are answered with the request to list them;
    /// every other intent takes effect at once.
    pub fn handle_message(
        &mut self,
        msg: u32,
        wparam: usize,
        lparam: isize,
        taskbar_created: u32,
    ) -> (handled: Handled)
        requires
            old(self)@.wf(),
        ensures
            final(self)@ == old(self)@.after_message(
                Message::decode(msg, wparam, lparam, taskbar_created),
            ),
            handled.action == old(self)@.message_action(
                Message::decode(msg, wparam, lparam, taskbar_created),
            ),
            handled.reply == Message::decode(msg, wparam, lparam, taskbar_created).reply(),
            final(self)@.wf(),
    {
        let message = decode_message(msg, wparam, lparam, taskbar_created);
        match message {
            Message::TrayIcon { clicked } => Handled {
                action: if clicked {
                    Action::ShowTrayMenu
                } else {
                    Action::Nothing
                },
                reply: Some(0),
            },
            Message::Switch(intent) => Handled { action: self.handle_intent(intent), reply: None },
            Message::ReloadConfig => Handled { action: Action::ReloadConfig, reply: None },
            Message::HitTest => Handled { action: Action::Nothing, reply: Some(HTCLIENT) },
            Message::Click => Handled {
                action: if self.switch_apps_state.is_some() {
                    Action::ResolveClick
                } else {
                    Action::Nothing
                },
                reply: None,
            },
            Message::Exit => Handled { action: Action::Exit, reply: None },
            Message::ToggleStartup => Handled { action: Action::ToggleStartup, reply: None },
            Message::Configure => Handled { action: Action::Configure, reply: None },
            Message::EraseBackground => Handled { action: Action::Nothing, reply: Some(0) },
            Message::RegisterTrayIcon => Handled { action: Action::RegisterTrayIcon, reply: None },
            Message::Other => Handled { action: Action::Nothing, reply: None },
        }
    }

    /// Takes one intent of the keyboard hook.
    ///
    /// A request to begin the application cycle, and every request to
    /// advance the window cycle, changes nothing yet: the answer asks for
    /// the list that [`App::switch_apps`] or [`App::switch_windows`] needs.
    /// A window cycle asked for during an application cycle targets the
    /// selected application.
    pub fn handle_intent(&mut self, intent: SwitchIntent) -> (action: Action)
        requires
            old(self)@.wf(),
        ensures
            final(self)@ == old(self)@.after_intent(intent),
            action == old(self)@.intent_action(intent),
            final(self)@.wf(),
    {
        match intent {
            SwitchIntent::BeginOrAdvanceApps(reverse) => {
                if self.switch_apps_state.is_some() {
                    let empty: Vec<AppGroup> = Vec::new();
                    self.switch_apps(reverse, &empty)
                } else {
                    Action::ListApps { reverse, filter: self.apps_filter() }
                }
            },
            SwitchIntent::CommitApps => self.do_switch_app(),
            SwitchIntent::CancelApps => self.cancel_switch_app(),
            SwitchIntent::BeginOrAdvanceWindows(reverse) => {
                let target = match &self.switch_apps_state {
                    Some(state) => Some(state.selected_window()),
                    None => None,
                };
                Action::ListWindows { target, reverse, filter: self.windows_filter() }
            },
            SwitchIntent::CommitWindows => {
                self.switch_windows_state.release();
                Action::Nothing
            },
        }
    }

    /// The filters with which the applications are to be listed.
    pub fn apps_filter(&self) -> (filter: WindowFilter)
        ensures
            filter == self@.apps_filter(),
    {
        WindowFilter {
            ignore_minimal: self.config.switch_apps_ignore_minimal,
            only_current_desktop: self.config.switch_apps_only_current_desktop,
            elevated: self.is_admin,
        }
    }

    /// The filters with which the windows of an application are to be
    /// listed.
    pub fn windows_filter(&self) -> (filter: WindowFilter)
        ensures
            filter == self@.windows_filter(),
    {
        WindowFilter {
            ignore_minimal: self.config.switch_windows_ignore_minimal,
            only_current_desktop: self.config.switch_windows_only_current_desktop,
            elevated: self.is_admin,
        }
    }

    /// Advances the window cycle of the application that owns `hwnd`.
    /// `windows` lists the windows that exist now, application by
    /// application. Where no application owns `hwnd`, or the application has
    /// no second window, nothing changes and nothing is to be activated.
    pub fn switch_windows(&mut self, windows: &Vec<WindowGroup>, hwnd: isize, reverse: bool) -> (action:
        Action)
        ensures
            final(self)@ == old(self)@.switch_windows(window_group_views(windows@), hwnd, reverse),
            action == old(self)@.switch_windows_action(
                window_group_views(windows@),
                hwnd,
                reverse,
            ),
            action is Nothing ==> final(self)@ == old(self)@,
            final(self)@.switch_apps_state == old(self)@.switch_apps_state,
            old(self)@.wf() ==> final(self)@.wf(),
    {
        match find_owner(windows, hwnd) {
            Some(at) => {
                let group = &windows[at];
                match self.switch_windows_state.advance(&group.key, &group.windows, reverse) {
                    Some(window) => Action::Activate(window),
                    None => Action::Nothing,
                }
            },
            None => Action::Nothing,
        }
    }

    /// Begins the application cycle on the applications in `groups`, or
    /// advances the cycle in progress, which does not look at `groups`.
    /// Without any application no cycle begins.
    pub fn switch_apps(&mut self, reverse: bool, groups: &Vec<AppGroup>) -> (action: Action)
        requires
            old(self)@.wf(),
        ensures
            final(self)@ == old(self)@.switch_apps(reverse, group_views(groups@)),
            action == old(self)@.switch_apps_action(reverse, group_views(groups@)),
            final(self)@.switch_windows_state == old(self)@.switch_windows_state,
            final(self)@.wf(),
    {
        match self.switch_apps_state.take() {
            Some(mut state) => {
                state.advance(reverse);
                self.switch_apps_state = Some(state);
                Action::Paint
            },
            None => {
                let apps = collect_candidates(groups);
                match SwitchAppsState::begin(apps, reverse) {
                    Some(state) => {
                        self.switch_apps_state = Some(state);
                        Action::Paint
                    },
                    None => Action::Nothing,
                }
            },
        }
    }

    /// Resolves a click on the overlay: where a cycle is in progress and the
    /// click hit the candidate `clicked`, that candidate is selected and the
    /// cycle committed at once.
    pub fn click(&mut self, clicked: Option<usize>) -> (action: Action)
        ensures
            final(self)@ == old(self)@.click(
                match clicked {
                    Some(i) => Some(i as int),
                    None => None,
                },
            ),
            action == old(self)@.click_action(
                match clicked {
                    Some(i) => Some(i as int),
                    None => None,
                },
            ),
            old(self)@.wf() ==> final(self)@.wf(),
    {
        match clicked {
            Some(index) => {
                match self.switch_apps_state.take() {
                    Some(mut state) => {
                        state.index = index;
                        self.switch_apps_state = Some(state);
                        self.do_switch_app()
                    },
                    None => Action::Nothing,
                }
            },
            None => Action::Nothing,
        }
    }

    /// Commits the application cycle: the cycle ends, and the window of the
    /// selected candidate is to be brought to the front. Without a cycle
    /// nothing happens.
    pub fn do_switch_app(&mut self) -> (action: Action)
        ensures
            final(self)@ == old(self)@.end_apps(),
            final(self)@.switch_apps_state is None,
            action == old(self)@.commit_action(),
            old(self)@.wf() ==> final(self)@.wf(),
    {
        match self.switch_apps_state.take() {
            Some(state) => {
                if state.index < state.apps.len() {
                    Action::ActivateAndUnpaint(state.apps[state.index].1)
                } else {
                    Action::Unpaint
                }
            },
            None => Action::Nothing,
        }
    }

    /// Cancels the application cycle: the cycle ends and no window is
    /// brought to the front.
    pub fn cancel_switch_app(&mut self) -> (action: Action)
        ensures
            final(self)@ == old(self)@.end_apps(),
            final(self)@.switch_apps_state is None,
            action == old(self)@.cancel_action(),
            action == Action::Unpaint || action == Action::Nothing,
            old(self)@.wf() ==> final(self)@.wf(),
    {
        match self.switch_apps_state.take() {
            Some(_) => Action::Unpaint,
            None => Action::Nothing,
        }
    }

    /// Puts a configuration that was loaded again in place of the one in
    /// use. The cycles stay as they are.
    pub fn reload_config(&mut self, config: Config)
        ensures
            final(self)@ == (AppView { config: config@, ..old(self)@ }),
    {
        self.config = config;
    }
}

/// Sets the engine up for the given configuration.
pub fn start(config: &Config, is_admin: bool) -> (engine: (App, KeyboardListener))
    ensures
        engine.0@ == AppView::start(config@, is_admin),
        engine.0@.wf(),
        engine.1@ == KeyboardView::init(config@.hotkeys),
{
    App::start(config, is_admin)
}

/// While an application cycle is in progress, requests to advance it move
/// its index and nothing else: whatever their number, the index selects one
/// of the candidates.
pub proof fn lemma_advance_apps_by(app: AppView, reverse: bool, count: nat)
    requires
        app.wf(),
        app.switch_apps_state is Some,
    ensures
        app.advance_apps_by(reverse, count) == app.with_apps(
            Some(app.switch_apps_state.unwrap().advance_by(reverse, count)),
        ),
        app.advance_apps_by(reverse, count).wf(),
    decreases count,
{
    let cycle = app.switch_apps_state.unwrap();
    lemma_advance_by_is_valid(cycle, reverse, count);
    if count > 0 {
        lemma_advance_apps_by(app, reverse, (count - 1) as nat);
    }
}

/// As many requests to advance as there are candidates, all in one
/// direction, lead back to the selection they began with.
pub proof fn lemma_advance_apps_full_circle(app: AppView, reverse: bool)
    requires
        app.wf(),
        app.switch_apps_state is Some,
    ensures
        app.advance_apps_by(reverse, app.switch_apps_state.unwrap().apps.len()) == app,
{
    let cycle = app.switch_apps_state.unwrap();
    lemma_advance_apps_by(app, reverse, cycle.apps.len());
    lemma_advance_full_circle(cycle, reverse);
}

/// A cancel ends the application cycle and brings no window to the front.
pub proof fn lemma_cancel_activates_nothing(app: AppView)
    ensures
        app.after_intent(SwitchIntent::CancelApps).switch_apps_state is None,
        app.intent_action(SwitchIntent::CancelApps) == Action::Unpaint || app.intent_action(
            SwitchIntent::CancelApps,
        ) == Action::Nothing,
        app.switch_apps_state is Some ==> app.intent_action(SwitchIntent::CancelApps)
            == Action::Unpaint,
{
}

/// A commit ends the application cycle and brings one window to the front:
/// the window of the candidate that is selected when the commit arrives.
pub proof fn lemma_commit_activates_selected(app: AppView)
    requires
        app.wf(),
        app.switch_apps_state is Some,
    ensures
        app.after_intent(SwitchIntent::CommitApps).switch_apps_state is None,
        app.intent_action(SwitchIntent::CommitApps) == Action::ActivateAndUnpaint(
            app.switch_apps_state.unwrap().selected_window(),
        ),
{
}

/// A click on the candidate at `index` brings the same window to the front
/// as `index` requests to advance forwards from the first candidate,
/// followed by a commit.
pub proof fn lemma_click_matches_advances(app: AppView, index: nat)
    requires
        app.wf(),
        app.switch_apps_state is Some,
        index < app.switch_apps_state.unwrap().apps.len(),
    ensures
        ({
            let first = app.with_apps(Some(app.switch_apps_state.unwrap().select(0)));
            let advanced = first.advance_apps_by(false, index);
            &&& app.click_action(Some(index as int)) == advanced.intent_action(
                SwitchIntent::CommitApps,
            )
            &&& app.click(Some(index as int)) == advanced.after_intent(SwitchIntent::CommitApps)
        }),
{
    let cycle = app.switch_apps_state.unwrap();
    let first = app.with_apps(Some(cycle.select(0)));
    lemma_advance_apps_by(first, false, index);
    lemma_select_matches_advances(cycle, index);
}

/// In a cycle that has just begun forwards on two candidates or more, a
/// click on the candidate at `index` brings the same window to the front as
/// `index - 1` further requests to advance forwards, followed by a commit:
/// the request that began the cycle counts as the first advance.
pub proof fn lemma_click_matches_advances_from_begin(
    app: AppView,
    groups: Seq<AppGroupView>,
    index: nat,
)
    requires
        app.wf(),
        app.switch_apps_state is None,
        candidates(groups).len() >= 2,
        1 <= index < candidates(groups).len(),
    ensures
        ({
            let begun = app.switch_apps(false, groups);
            let advanced = begun.advance_apps_by(false, (index - 1) as nat);
            &&& app.switch_apps(false, groups).click_action(Some(index as int))
                == advanced.intent_action(SwitchIntent::CommitApps)
            &&& app.switch_apps(false, groups).click(Some(index as int)) == advanced.after_intent(
                SwitchIntent::CommitApps,
            )
        }),
{
    let begun = app.switch_apps(false, groups);
    lemma_advance_apps_by(begun, false, (index - 1) as nat);
    lemma_select_matches_advances_from_begin(candidates(groups), index);
}

/// The application cycle goes from idle to cycling and back: the first
/// request begins a cycle on the candidates and paints them, unless there
/// are none; every further request advances the cycle in place and paints
/// again; a commit or a cancel ends it.
pub proof fn lemma_application_cycle_transitions(
    app: AppView,
    reverse: bool,
    apps: Seq<AppGroupView>,
    windows: Seq<WindowGroupView>,
    foreground: isize,
)
    requires
        app.wf(),
    ensures
        ({
            let request = SwitchIntent::BeginOrAdvanceApps(reverse);
            let after = app.settled(request, apps, windows, foreground);
            let action = app.settled_action(request, apps, windows, foreground);
            match app.switch_apps_state {
                None => if candidates(apps).len() == 0 {
                    after == app && action == Action::Nothing
                } else {
                    &&& after == app.with_apps(
                        Some(
                            SwitchAppsView {
                                apps: candidates(apps),
                                index: initial_index(candidates(apps).len() as int, reverse),
                            },
                        ),
                    )
                    &&& action == Action::Paint
                },
                Some(cycle) => {
                    &&& after == app.with_apps(Some(cycle.advance(reverse)))
                    &&& action == Action::Paint
                },
            }
        }),
        app.settled(SwitchIntent::CommitApps, apps, windows, foreground).switch_apps_state is None,
        app.settled(SwitchIntent::CancelApps, apps, windows, foreground).switch_apps_state is None,
        app.settled(SwitchIntent::BeginOrAdvanceApps(reverse), apps, windows, foreground).wf(),
{
    if let Some(cycle) = app.switch_apps_state {
        lemma_next_index(cycle.index, cycle.apps.len() as int, reverse);
    }
}

/// A request to advance the window cycle goes by the application that owns
/// the selected candidate while an application cycle is in progress, and by
/// the application that owns the window in front otherwise.
pub proof fn lemma_window_cycle_target(
    app: AppView,
    reverse: bool,
    apps: Seq<AppGroupView>,
    windows: Seq<WindowGroupView>,
    foreground: isize,
)
    ensures
        ({
            let request = SwitchIntent::BeginOrAdvanceWindows(reverse);
            let hwnd = match app.switch_apps_state {
                Some(cycle) => cycle.selected_window(),
                None => foreground,
            };
            &&& app.settled(request, apps, windows, foreground) == app.switch_windows(
                windows,
                hwnd,
                reverse,
            )
            &&& app.settled_action(request, apps, windows, foreground)
                == app.switch_windows_action(windows, hwnd, reverse)
            &&& app.settled(request, apps, windows, foreground).switch_apps_state
                == app.switch_apps_state
        }),
{
}

/// Where the application that owns the window has no second window, or no
/// application owns it, a request to advance the window cycle changes
/// nothing and brings no window to the front.
pub proof fn lemma_lone_window_is_left_alone(
    app: AppView,
    groups: Seq<WindowGroupView>,
    hwnd: isize,
    reverse: bool,
)
    requires
        owner(groups, hwnd) matches Some(group) ==> group.windows.len() <= 1,
    ensures
        app.switch_windows(groups, hwnd, reverse) == app,
        app.switch_windows_action(groups, hwnd, reverse) == Action::Nothing,
{
}

/// A request to advance the window cycle leaves the application cycle as it
/// is, and the release of its modifier changes nothing but the note that
/// the modifier was released.
pub proof fn lemma_window_cycle_keeps_application_cycle(
    app: AppView,
    groups: Seq<WindowGroupView>,
    hwnd: isize,
    reverse: bool,
)
    ensures
        app.switch_windows(groups, hwnd, reverse).switch_apps_state == app.switch_apps_state,
        app.after_intent(SwitchIntent::BeginOrAdvanceWindows(reverse)) == app,
        app.after_intent(SwitchIntent::CommitWindows) == app.with_windows(
            SwitchWindowsView { cache: app.switch_windows_state.cache, modifier_released: true },
        ),
        app.intent_action(SwitchIntent::CommitWindows) == Action::Nothing,
{
}

} // verus!

use window_switcher::app::{
    decode_message, start, Action, App, Handled, Message, WindowFilter, HTCLIENT, IDM_CONFIGURE,
    IDM_EXIT, IDM_STARTUP, WM_COMMAND, WM_ERASEBKGND, WM_LBUTTONUP, WM_NCHITTEST, WM_RBUTTONUP,
    WM_USER_REGISTER_TRAYICON, WM_USER_RELOAD_CONFIG, WM_USER_TRAYICON,
};
use window_switcher::config::{Config, Hotkey, SWITCH_APPS_HOTKEY_ID, SWITCH_WINDOWS_HOTKEY_ID};
use window_switcher::intent::{
    SwitchIntent, WM_USER_SWITCH_APPS, WM_USER_SWITCH_APPS_CANCEL, WM_USER_SWITCH_APPS_DONE,
    WM_USER_SWITCH_WINDOWS, WM_USER_SWITCH_WINDOWS_DONE,
};
use window_switcher::switch_apps::AppGroup;
use window_switcher::switch_windows::WindowGroup;

const TASKBAR_CREATED: u32 = 0xC123;

fn config() -> Config {
    Config {
        hotkeys: vec![
            Hotkey { id: SWITCH_WINDOWS_HOTKEY_ID, modifier: vec![0x38], code: 0x29 },
            Hotkey { id: SWITCH_APPS_HOTKEY_ID, modifier: vec![0x38], code: 0x0F },
        ],
        switch_windows_ignore_minimal: true,
        switch_windows_only_current_desktop: false,
        switch_apps_ignore_minimal: false,
        switch_apps_only_current_desktop: true,
    }
}

fn app() -> App {
    start(&config(), false).0
}

fn groups() -> Vec<AppGroup> {
    vec![
        AppGroup { icon: 1, minimized: false, windows: vec![100, 101] },
        AppGroup { icon: 2, minimized: true, windows: vec![200, 201] },
        AppGroup { icon: 3, minimized: false, windows: vec![300] },
    ]
}

fn cycling() -> App {
    let mut app = app();
    assert_eq!(app.switch_apps(false, &groups()), Action::Paint);
    app
}

fn index(app: &App) -> usize {
    app.switch_apps_state().as_ref().expect("a cycle is in progress").index
}

fn windows() -> Vec<WindowGroup> {
    vec![
        WindowGroup { key: String::from("editor.exe"), windows: vec![10, 11, 12] },
        WindowGroup { key: String::from("shell.exe"), windows: vec![20] },
        WindowGroup { key: String::from("browser.exe"), windows: vec![30, 31] },
    ]
}

#[test]
fn engine_starts_idle() {
    let (app, listener) = start(&config(), true);
    assert!(app.is_admin());
    assert!(app.switch_apps_state().is_none());
    assert!(app.switch_windows_state().cache.is_none());
    assert!(app.switch_windows_state().modifier_released);
    assert_eq!(app.config().hotkeys.len(), 2);
    assert!(app.config().switch_windows_ignore_minimal);
    assert!(!app.config().switch_windows_only_current_desktop);
    assert!(!app.config().switch_apps_ignore_minimal);
    assert!(app.config().switch_apps_only_current_desktop);
    assert_eq!(listener.keyboard_state.len(), 2);
    assert_eq!(listener.keyboard_state[0].hotkey.code, 0x29);
    assert_eq!(listener.keyboard_state[1].hotkey.code, 0x0F);
    assert_eq!(listener.keyboard_state[1].hotkey.modifier, vec![0x38]);
    assert!(!listener.keyboard_state[1].is_modifier_pressed);
    let (app, _) = App::start(&config(), false);
    assert!(!app.is_admin());
}

#[test]
fn messages_are_decoded() {
    assert_eq!(
        decode_message(WM_USER_TRAYICON, 0, WM_LBUTTONUP as isize, TASKBAR_CREATED),
        Message::TrayIcon { clicked: true }
    );
    assert_eq!(
        decode_message(WM_USER_TRAYICON, 0, WM_RBUTTONUP as isize, TASKBAR_CREATED),
        Message::TrayIcon { clicked: true }
    );
    assert_eq!(
        decode_message(WM_USER_TRAYICON, 0, 0x0200, TASKBAR_CREATED),
        Message::TrayIcon { clicked: false }
    );
    assert_eq!(
        decode_message(WM_USER_SWITCH_APPS, 0, 1, TASKBAR_CREATED),
        Message::Switch(SwitchIntent::BeginOrAdvanceApps(true))
    );
    assert_eq!(
        decode_message(WM_USER_SWITCH_APPS, 0, 0, TASKBAR_CREATED),
        Message::Switch(SwitchIntent::BeginOrAdvanceApps(false))
    );
    assert_eq!(
        decode_message(WM_USER_SWITCH_APPS_DONE, 0, 0, TASKBAR_CREATED),
        Message::Switch(SwitchIntent::CommitApps)
    );
    assert_eq!(
        decode_message(WM_USER_SWITCH_APPS_CANCEL, 0, 0, TASKBAR_CREATED),
        Message::Switch(SwitchIntent::CancelApps)
    );
    assert_eq!(
        decode_message(WM_USER_SWITCH_WINDOWS, 0, 1, TASKBAR_CREATED),
        Message::Switch(SwitchIntent::BeginOrAdvanceWindows(true))
    );
    assert_eq!(
        decode_message(WM_USER_SWITCH_WINDOWS_DONE, 0, 0, TASKBAR_CREATED),
        Message::Switch(SwitchIntent::CommitWindows)
    );
    assert_eq!(decode_message(WM_USER_RELOAD_CONFIG, 0, 0, TASKBAR_CREATED), Message::ReloadConfig);
    assert_eq!(decode_message(WM_NCHITTEST, 0, 0, TASKBAR_CREATED), Message::HitTest);
    assert_eq!(decode_message(WM_LBUTTONUP, 0, 0, TASKBAR_CREATED), Message::Click);
    assert_eq!(decode_message(WM_ERASEBKGND, 0, 0, TASKBAR_CREATED), Message::EraseBackground);
    assert_eq!(
        decode_message(WM_USER_REGISTER_TRAYICON, 0, 0, TASKBAR_CREATED),
        Message::RegisterTrayIcon
    );
    assert_eq!(decode_message(TASKBAR_CREATED, 0, 0, TASKBAR_CREATED), Message::RegisterTrayIcon);
    assert_eq!(decode_message(0x0400, 0, 0, TASKBAR_CREATED), Message::Other);
    assert_eq!(decode_message(WM_RBUTTONUP, 0, 0, TASKBAR_CREATED), Message::Other);
}

#[test]
fn menu_commands_are_decoded() {
    assert_eq!(decode_message(WM_COMMAND, IDM_EXIT as usize, 0, 0), Message::Exit);
    assert_eq!(decode_message(WM_COMMAND, IDM_STARTUP as usize, 0, 0), Message::ToggleStartup);
    assert_eq!(decode_message(WM_COMMAND, IDM_CONFIGURE as usize, 0, 0), Message::Configure);
    assert_eq!(decode_message(WM_COMMAND, 4, 0, 0), Message::Other);
    assert_eq!(decode_message(WM_COMMAND, 0, 0, 0), Message::Other);
    assert_eq!(decode_message(WM_COMMAND, 0x0001_0001, 0, 0), Message::Other);
    assert_eq!(decode_message(WM_COMMAND, 0x8000_0002, 0, 0), Message::Other);
}

#[test]
fn menu_commands_go_by_the_lower_32_bits() {
    let wide: u64 = 0x0000_0007_0000_0003;
    if usize::BITS == 64 {
        assert_eq!(decode_message(WM_COMMAND, wide as usize, 0, 0), Message::Configure);
    }
}

#[test]
fn taskbar_message_does_not_hide_the_other_messages() {
    assert_eq!(decode_message(WM_COMMAND, 1, 0, WM_COMMAND), Message::Exit);
    assert_eq!(
        decode_message(WM_USER_SWITCH_APPS, 0, 0, WM_USER_SWITCH_APPS),
        Message::Switch(SwitchIntent::BeginOrAdvanceApps(false))
    );
}

#[test]
fn replies_leave_the_rest_to_the_default_procedure() {
    let mut app = app();
    assert_eq!(
        app.handle_message(WM_NCHITTEST, 0, 0, TASKBAR_CREATED),
        Handled { action: Action::Nothing, reply: Some(HTCLIENT) }
    );
    assert_eq!(HTCLIENT, 1);
    assert_eq!(
        app.handle_message(WM_ERASEBKGND, 0, 0, TASKBAR_CREATED),
        Handled { action: Action::Nothing, reply: Some(0) }
    );
    assert_eq!(
        app.handle_message(WM_USER_TRAYICON, 0, WM_RBUTTONUP as isize, TASKBAR_CREATED),
        Handled { action: Action::ShowTrayMenu, reply: Some(0) }
    );
    assert_eq!(
        app.handle_message(WM_USER_TRAYICON, 0, 0x0200, TASKBAR_CREATED),
        Handled { action: Action::Nothing, reply: Some(0) }
    );
    assert_eq!(
        app.handle_message(0x0400, 0, 0, TASKBAR_CREATED),
        Handled { action: Action::Nothing, reply: None }
    );
}

#[test]
fn shell_messages_are_passed_on() {
    let mut app = app();
    let cases = [
        (WM_USER_RELOAD_CONFIG, 0usize, Action::ReloadConfig),
        (WM_USER_REGISTER_TRAYICON, 0, Action::RegisterTrayIcon),
        (TASKBAR_CREATED, 0, Action::RegisterTrayIcon),
        (WM_COMMAND, 1, Action::Exit),
        (WM_COMMAND, 2, Action::ToggleStartup),
        (WM_COMMAND, 3, Action::Configure),
    ];
    for (msg, wparam, action) in cases {
        assert_eq!(
            app.handle_message(msg, wparam, 0, TASKBAR_CREATED),
            Handled { action, reply: None }
        );
        assert!(app.switch_apps_state().is_none());
    }
}

#[test]
fn first_request_asks_for_the_applications() {
    let mut app = app();
    let handled = app.handle_message(WM_USER_SWITCH_APPS, 0, 1, TASKBAR_CREATED);
    assert_eq!(
        handled,
        Handled {
            action: Action::ListApps {
                reverse: true,
                filter: WindowFilter {
                    ignore_minimal: false,
                    only_current_desktop: true,
                    elevated: false,
                },
            },
            reply: None,
        }
    );
    assert!(app.switch_apps_state().is_none());
    assert_eq!(
        app.apps_filter(),
        WindowFilter { ignore_minimal: false, only_current_desktop: true, elevated: false }
    );
}

#[test]
fn cycle_begins_on_the_listed_applications() {
    let mut app = app();
    assert_eq!(app.switch_apps(false, &groups()), Action::Paint);
    let state = app.switch_apps_state().as_ref().unwrap();
    assert_eq!(state.apps, vec![(1, 100), (2, 201), (3, 300)]);
    assert_eq!(state.index, 1);

    let mut app = self::app();
    assert_eq!(app.switch_apps(true, &groups()), Action::Paint);
    assert_eq!(index(&app), 2);
}

#[test]
fn cycle_does_not_begin_without_applications() {
    let mut app = app();
    assert_eq!(app.switch_apps(false, &vec![]), Action::Nothing);
    assert!(app.switch_apps_state().is_none());
    let empty = vec![AppGroup { icon: 1, minimized: false, windows: vec![] }];
    assert_eq!(app.switch_apps(true, &empty), Action::Nothing);
    assert!(app.switch_apps_state().is_none());
}

#[test]
fn further_requests_advance_in_place() {
    let mut app = cycling();
    let handled = app.handle_message(WM_USER_SWITCH_APPS, 0, 0, TASKBAR_CREATED);
    assert_eq!(handled, Handled { action: Action::Paint, reply: None });
    assert_eq!(index(&app), 2);
    assert_eq!(app.handle_intent(SwitchIntent::BeginOrAdvanceApps(false)), Action::Paint);
    assert_eq!(index(&app), 0);
    assert_eq!(app.handle_intent(SwitchIntent::BeginOrAdvanceApps(true)), Action::Paint);
    assert_eq!(index(&app), 2);
    let other = vec![AppGroup { icon: 9, minimized: false, windows: vec![900] }];
    assert_eq!(app.switch_apps(true, &other), Action::Paint);
    assert_eq!(index(&app), 1);
    assert_eq!(
        app.switch_apps_state().as_ref().unwrap().apps,
        vec![(1, 100), (2, 201), (3, 300)]
    );
}

#[test]
fn commit_activates_the_selected_window_and_ends_the_cycle() {
    let mut app = cycling();
    app.handle_intent(SwitchIntent::BeginOrAdvanceApps(false));
    let handled = app.handle_message(WM_USER_SWITCH_APPS_DONE, 0, 0, TASKBAR_CREATED);
    assert_eq!(handled, Handled { action: Action::ActivateAndUnpaint(300), reply: None });
    assert!(app.switch_apps_state().is_none());
}

#[test]
fn commit_without_a_cycle_does_nothing() {
    let mut app = app();
    assert_eq!(app.do_switch_app(), Action::Nothing);
    assert_eq!(app.handle_intent(SwitchIntent::CommitApps), Action::Nothing);
    assert!(app.switch_apps_state().is_none());
}

#[test]
fn cancel_ends_the_cycle_without_activation() {
    let mut app = cycling();
    let handled = app.handle_message(WM_USER_SWITCH_APPS_CANCEL, 0, 0, TASKBAR_CREATED);
    assert_eq!(handled, Handled { action: Action::Unpaint, reply: None });
    assert!(app.switch_apps_state().is_none());
    assert_eq!(app.cancel_switch_app(), Action::Nothing);
    assert_eq!(app.handle_intent(SwitchIntent::CommitApps), Action::Nothing);
}

#[test]
fn request_after_the_end_begins_a_new_cycle() {
    let mut app = cycling();
    app.cancel_switch_app();
    assert!(matches!(
        app.handle_intent(SwitchIntent::BeginOrAdvanceApps(false)),
        Action::ListApps { reverse: false, .. }
    ));
    let other = vec![
        AppGroup { icon: 8, minimized: false, windows: vec![800] },
        AppGroup { icon: 9, minimized: false, windows: vec![900] },
    ];
    assert_eq!(app.switch_apps(false, &other), Action::Paint);
    assert_eq!(app.do_switch_app(), Action::ActivateAndUnpaint(900));
}

#[test]
fn click_is_resolved_only_during_a_cycle() {
    let mut app = app();
    assert_eq!(
        app.handle_message(WM_LBUTTONUP, 0, 0, TASKBAR_CREATED),
        Handled { action: Action::Nothing, reply: None }
    );
    assert_eq!(app.click(Some(0)), Action::Nothing);
    let mut app = cycling();
    assert_eq!(
        app.handle_message(WM_LBUTTONUP, 0, 0, TASKBAR_CREATED),
        Handled { action: Action::ResolveClick, reply: None }
    );
    assert_eq!(index(&app), 1);
}

#[test]
fn click_selects_and_commits() {
    let mut app = cycling();
    assert_eq!(app.click(Some(0)), Action::ActivateAndUnpaint(100));
    assert!(app.switch_apps_state().is_none());
    let mut app = cycling();
    assert_eq!(app.click(Some(2)), Action::ActivateAndUnpaint(300));
    assert!(app.switch_apps_state().is_none());
}

#[test]
fn click_beside_the_candidates_changes_nothing() {
    let mut app = cycling();
    assert_eq!(app.click(None), Action::Nothing);
    assert_eq!(index(&app), 1);
}

#[test]
fn click_on_a_candidate_that_does_not_exist_ends_the_cycle_without_activation() {
    let mut app = cycling();
    assert_eq!(app.click(Some(3)), Action::Unpaint);
    assert!(app.switch_apps_state().is_none());
}

#[test]
fn click_matches_advances_from_the_first_candidate() {
    for clicked in 0..3usize {
        let mut by_click = cycling();
        let by_click = by_click.click(Some(clicked));
        let mut by_keys = cycling();
        by_keys.handle_intent(SwitchIntent::BeginOrAdvanceApps(true));
        assert_eq!(index(&by_keys), 0);
        for _ in 0..clicked {
            by_keys.handle_intent(SwitchIntent::BeginOrAdvanceApps(false));
        }
        assert_eq!(by_click, by_keys.handle_intent(SwitchIntent::CommitApps));
    }
}

#[test]
fn click_matches_advances_from_the_begin_of_the_cycle() {
    for clicked in 1..3usize {
        let mut by_click = cycling();
        let by_click = by_click.click(Some(clicked));
        let mut by_keys = cycling();
        for _ in 1..clicked {
            by_keys.handle_intent(SwitchIntent::BeginOrAdvanceApps(false));
        }
        assert_eq!(by_click, by_keys.handle_intent(SwitchIntent::CommitApps));
    }
}

#[test]
fn window_request_targets_the_window_in_front_when_idle() {
    let mut app = app();
    let handled = app.handle_message(WM_USER_SWITCH_WINDOWS, 0, 1, TASKBAR_CREATED);
    assert_eq!(
        handled,
        Handled {
            action: Action::ListWindows {
                target: None,
                reverse: true,
                filter: WindowFilter {
                    ignore_minimal: true,
                    only_current_desktop: false,
                    elevated: false,
                },
            },
            reply: None,
        }
    );
    assert!(app.switch_windows_state().cache.is_none());
    assert!(app.switch_windows_state().modifier_released);
}

#[test]
fn window_request_targets_the_selected_application_during_a_cycle() {
    let mut app = cycling();
    let action = app.handle_intent(SwitchIntent::BeginOrAdvanceWindows(false));
    assert_eq!(
        action,
        Action::ListWindows { target: Some(201), reverse: false, filter: app.windows_filter() }
    );
    assert_eq!(index(&app), 1);
}

#[test]
fn filters_tell_of_elevated_rights() {
    let (app, _) = start(&config(), true);
    assert_eq!(
        app.windows_filter(),
        WindowFilter { ignore_minimal: true, only_current_desktop: false, elevated: true }
    );
    assert_eq!(
        app.apps_filter(),
        WindowFilter { ignore_minimal: false, only_current_desktop: true, elevated: true }
    );
}

#[test]
fn windows_of_the_owning_application_are_cycled() {
    let mut app = app();
    assert_eq!(app.switch_windows(&windows(), 11, false), Action::Activate(11));
    let cache = app.switch_windows_state().cache.as_ref().unwrap();
    assert_eq!(cache.key, "editor.exe");
    assert_eq!(cache.anchor, 10);
    assert_eq!(cache.index, 1);
    assert_eq!(cache.windows, vec![10, 11, 12]);
    assert!(!app.switch_windows_state().modifier_released);
    assert_eq!(app.switch_windows(&windows(), 10, false), Action::Activate(12));
    assert_eq!(app.switch_windows(&windows(), 31, false), Action::Activate(31));
    assert_eq!(app.switch_windows_state().cache.as_ref().unwrap().key, "browser.exe");
}

#[test]
fn window_without_owner_or_sibling_switches_nothing() {
    let mut app = app();
    assert_eq!(app.switch_windows(&windows(), 99, false), Action::Nothing);
    assert!(app.switch_windows_state().cache.is_none());
    assert_eq!(app.switch_windows(&windows(), 20, true), Action::Nothing);
    assert!(app.switch_windows_state().cache.is_none());
    assert!(app.switch_windows_state().modifier_released);
    assert_eq!(app.switch_windows(&vec![], 20, true), Action::Nothing);
}

#[test]
fn window_cycle_leaves_the_application_cycle_alone() {
    let mut app = cycling();
    assert_eq!(app.switch_windows(&windows(), 10, false), Action::Activate(11));
    assert_eq!(index(&app), 1);
    assert_eq!(app.handle_intent(SwitchIntent::CommitWindows), Action::Nothing);
    assert_eq!(index(&app), 1);
    assert!(app.switch_windows_state().modifier_released);
}

#[test]
fn release_of_the_window_modifier_keeps_the_cache() {
    let mut app = app();
    app.switch_windows(&windows(), 10, false);
    let handled = app.handle_message(WM_USER_SWITCH_WINDOWS_DONE, 0, 0, TASKBAR_CREATED);
    assert_eq!(handled, Handled { action: Action::Nothing, reply: None });
    assert!(app.switch_windows_state().modifier_released);
    let cache = app.switch_windows_state().cache.as_ref().unwrap();
    assert_eq!(cache.index, 1);
    assert_eq!(cache.windows, vec![10, 11, 12]);
    assert_eq!(app.switch_windows(&windows(), 10, false), Action::Activate(11));
}

#[test]
fn reloaded_configuration_takes_the_place_of_the_old_one() {
    let mut app = cycling();
    app.switch_windows(&windows(), 10, false);
    let mut config = config();
    config.hotkeys.pop();
    config.switch_apps_ignore_minimal = true;
    config.switch_windows_only_current_desktop = true;
    app.reload_config(config);
    assert_eq!(app.config().hotkeys.len(), 1);
    assert_eq!(
        app.apps_filter(),
        WindowFilter { ignore_minimal: true, only_current_desktop: true, elevated: false }
    );
    assert_eq!(
        app.windows_filter(),
        WindowFilter { ignore_minimal: true, only_current_desktop: true, elevated: false }
    );
    assert_eq!(index(&app), 1);
    assert_eq!(app.switch_windows_state().cache.as_ref().unwrap().index, 1);
}

#[test]
fn configuration_is_copied_whole() {
    let copy = config().clone();
    assert_eq!(copy.hotkeys.len(), 2);
    assert_eq!(copy.hotkeys[0].id, SWITCH_WINDOWS_HOTKEY_ID);
    assert_eq!(copy.hotkeys[0].modifier, vec![0x38]);
    assert_eq!(copy.hotkeys[1].id, SWITCH_APPS_HOTKEY_ID);
    assert_eq!(copy.hotkeys[1].code, 0x0F);
    assert!(copy.switch_windows_ignore_minimal);
    assert!(!copy.switch_windows_only_current_desktop);
    assert!(!copy.switch_apps_ignore_minimal);
    assert!(copy.switch_apps_only_current_desktop);
    assert_eq!(SWITCH_WINDOWS_HOTKEY_ID, 1);
    assert_eq!(SWITCH_APPS_HOTKEY_ID, 2);
    assert_eq!((IDM_EXIT, IDM_STARTUP, IDM_CONFIGURE), (1, 2, 3));
}

#[test]
fn coordinator_stays_valid() {
    let mut app = app();
    assert!(app.is_valid());
    app.switch_apps(true, &groups());
    assert!(app.is_valid());
    app.switch_windows(&windows(), 30, true);
    assert!(app.is_valid());
    for _ in 0..7 {
        app.handle_intent(SwitchIntent::BeginOrAdvanceApps(false));
        assert!(app.is_valid());
    }
    app.click(Some(9));
    assert!(app.is_valid());
    assert!(app.switch_apps_state().is_none());
}

#[test]
fn start_is_offered_at_the_root_of_the_crate() {
    let (app, listener) = window_switcher::start(&config(), false);
    assert!(app.switch_apps_state().is_none());
    assert_eq!(listener.keyboard_state.len(), 2);
}

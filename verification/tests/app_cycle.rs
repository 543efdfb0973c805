use window_switcher::switch_apps::{collect_candidates, AppGroup, SwitchAppsState};

fn three() -> Vec<(isize, isize)> {
    vec![(1, 100), (2, 200), (3, 300)]
}

#[test]
fn cycle_does_not_begin_without_candidates() {
    assert!(SwitchAppsState::begin(vec![], false).is_none());
    assert!(SwitchAppsState::begin(vec![], true).is_none());
}

#[test]
fn cycle_on_one_candidate_selects_it() {
    let state = SwitchAppsState::begin(vec![(7, 70)], false).unwrap();
    assert_eq!(state.index, 0);
    let state = SwitchAppsState::begin(vec![(7, 70)], true).unwrap();
    assert_eq!(state.index, 0);
    assert_eq!(state.apps, vec![(7, 70)]);
}

#[test]
fn cycle_begins_at_the_second_candidate() {
    let state = SwitchAppsState::begin(three(), false).unwrap();
    assert_eq!(state.index, 1);
    assert_eq!(state.apps, three());
    assert_eq!(state.selected_window(), 200);
}

#[test]
fn cycle_begins_at_the_last_candidate_when_reversed() {
    let state = SwitchAppsState::begin(three(), true).unwrap();
    assert_eq!(state.index, 2);
    assert_eq!(state.selected_window(), 300);
}

#[test]
fn advance_moves_on_and_wraps() {
    let mut state = SwitchAppsState::begin(three(), false).unwrap();
    state.advance(false);
    assert_eq!(state.index, 2);
    state.advance(false);
    assert_eq!(state.index, 0);
    state.advance(false);
    assert_eq!(state.index, 1);
    assert_eq!(state.apps, three());
}

#[test]
fn advance_backwards_moves_back_and_wraps() {
    let mut state = SwitchAppsState::begin(three(), false).unwrap();
    state.advance(true);
    assert_eq!(state.index, 0);
    state.advance(true);
    assert_eq!(state.index, 2);
    state.advance(true);
    assert_eq!(state.index, 1);
}

#[test]
fn advance_on_one_candidate_stays() {
    let mut state = SwitchAppsState::begin(vec![(7, 70)], false).unwrap();
    state.advance(false);
    assert_eq!(state.index, 0);
    state.advance(true);
    assert_eq!(state.index, 0);
}

#[test]
fn as_many_advances_as_candidates_come_full_circle() {
    for start in 0..5usize {
        for reverse in [false, true] {
            let apps: Vec<(isize, isize)> = vec![(1, 10), (2, 20), (3, 30), (4, 40), (5, 50)];
            let mut state = SwitchAppsState { apps, index: start };
            for _ in 0..5 {
                state.advance(reverse);
                assert!(state.is_valid());
            }
            assert_eq!(state.index, start);
        }
    }
}

#[test]
fn select_sets_the_index() {
    let mut state = SwitchAppsState::begin(three(), false).unwrap();
    state.select(2);
    assert_eq!(state.index, 2);
    assert_eq!(state.selected_window(), 300);
    state.select(0);
    assert_eq!(state.selected_window(), 100);
}

#[test]
fn selecting_matches_advancing_from_the_first_candidate() {
    for index in 0..3usize {
        let mut clicked = SwitchAppsState { apps: three(), index: 1 };
        clicked.select(index);
        let mut advanced = SwitchAppsState { apps: three(), index: 0 };
        for _ in 0..index {
            advanced.advance(false);
        }
        assert_eq!(clicked.selected_window(), advanced.selected_window());
    }
}

#[test]
fn validity_goes_by_the_index() {
    assert!(SwitchAppsState { apps: three(), index: 2 }.is_valid());
    assert!(!SwitchAppsState { apps: three(), index: 3 }.is_valid());
    assert!(!SwitchAppsState { apps: vec![], index: 0 }.is_valid());
}

#[test]
fn candidates_take_the_front_window_of_each_application() {
    let groups = vec![
        AppGroup { icon: 1, minimized: false, windows: vec![10, 11, 12] },
        AppGroup { icon: 2, minimized: false, windows: vec![20] },
    ];
    assert_eq!(collect_candidates(&groups), vec![(1, 10), (2, 20)]);
}

#[test]
fn candidates_take_the_last_window_of_a_minimized_application() {
    let groups = vec![
        AppGroup { icon: 1, minimized: true, windows: vec![10, 11, 12] },
        AppGroup { icon: 2, minimized: true, windows: vec![20] },
        AppGroup { icon: 3, minimized: false, windows: vec![30, 31] },
    ];
    assert_eq!(collect_candidates(&groups), vec![(1, 12), (2, 20), (3, 30)]);
}

#[test]
fn candidates_leave_out_applications_without_windows() {
    let groups = vec![
        AppGroup { icon: 1, minimized: false, windows: vec![] },
        AppGroup { icon: 2, minimized: true, windows: vec![20, 21] },
        AppGroup { icon: 3, minimized: true, windows: vec![] },
    ];
    assert_eq!(collect_candidates(&groups), vec![(2, 21)]);
    assert_eq!(collect_candidates(&vec![]), Vec::<(isize, isize)>::new());
}

//! Cycling through the running applications.
//!
//! A cycle snapshots one candidate window per application when it begins and
//! then only moves an index through that snapshot, until it is committed or
//! cancelled.

use vstd::arithmetic::div_mod::{
    lemma_fundamental_div_mod_converse,
    lemma_mod_add_multiples_vanish,
    lemma_mod_self_0,
    lemma_small_mod,
};
use vstd::prelude::*;

verus! {

/// One running application as the enumeration reports it.
#[derive(Debug)]
pub struct AppGroup {
    /// Handle of the application's icon.
    pub icon: isize,
    /// Whether the first of `windows` is minimized.
    pub minimized: bool,
    /// The application's windows, the one in front first.
    pub windows: Vec<isize>,
}

/// Mathematical model of an [`AppGroup`].
pub struct AppGroupView {
    pub icon: isize,
    pub minimized: bool,
    pub windows: Seq<isize>,
}

impl View for AppGroup {
    type V = AppGroupView;

    open spec fn view(&self) -> AppGroupView {
        AppGroupView { icon: self.icon, minimized: self.minimized, windows: self.windows@ }
    }
}

impl AppGroupView {
    /// The window that stands for the application: its first window, or its
    /// last one if the first is minimized.
    pub open spec fn representative(self) -> isize {
        if self.minimized {
            self.windows.last()
        } else {
            self.windows[0]
        }
    }

    /// The application's icon with the window that stands for it.
    pub open spec fn candidate(self) -> (isize, isize) {
        (self.icon, self.representative())
    }
}

/// Maps each application to its model.
pub open spec fn group_views(groups: Seq<AppGroup>) -> Seq<AppGroupView> {
    groups.map_values(|g: AppGroup| g@)
}

/// The candidates of a cycle: one per application that has a window, in the
/// order of the enumeration.
pub open spec fn candidates(groups: Seq<AppGroupView>) -> Seq<(isize, isize)> {
    groups.filter(|g: AppGroupView| g.windows.len() > 0).map_values(
        |g: AppGroupView| g.candidate(),
    )
}

/// The index at which a cycle through `len` candidates begins: the lone
/// candidate, the last candidate if the first request goes backwards, else
/// the second candidate.
pub open spec fn initial_index(len: int, reverse: bool) -> int {
    if len == 1 {
        0
    } else if reverse {
        len - 1
    } else {
        1
    }
}

/// The index one step further, or one step back if `reverse`, modulo the
/// number of candidates.
pub open spec fn next_index(index: int, len: int, reverse: bool) -> int {
    if reverse {
        (index - 1 + len) % len
    } else {
        (index + 1) % len
    }
}

/// State of an application cycle in progress.
#[derive(Debug)]
pub struct SwitchAppsState {
    /// The candidates: an icon handle and a window handle for each
    /// application.
    pub apps: Vec<(isize, isize)>,
    /// The current selection.
    pub index: usize,
}

/// Mathematical model of a [`SwitchAppsState`].
#[verifier::ext_equal]
pub struct SwitchAppsView {
    pub apps: Seq<(isize, isize)>,
    pub index: int,
}

impl View for SwitchAppsState {
    type V = SwitchAppsView;

    open spec fn view(&self) -> SwitchAppsView {
        SwitchAppsView { apps: self.apps@, index: self.index as int }
    }
}

impl SwitchAppsView {
    /// The index selects one of the candidates.
    pub open spec fn wf(self) -> bool {
        0 <= self.index < self.apps.len()
    }

    /// The cycle that begins on the given candidates, if there are any.
    pub open spec fn begin(apps: Seq<(isize, isize)>, reverse: bool) -> Option<SwitchAppsView> {
        if apps.len() == 0 {
            None
        } else {
            Some(SwitchAppsView { apps, index: initial_index(apps.len() as int, reverse) })
        }
    }

    /// The cycle after one advance.
    pub open spec fn advance(self, reverse: bool) -> SwitchAppsView {
        SwitchAppsView {
            apps: self.apps,
            index: next_index(self.index, self.apps.len() as int, reverse),
        }
    }

    /// The cycle after `count` advances in one direction.
    pub open spec fn advance_by(self, reverse: bool, count: nat) -> SwitchAppsView
        decreases count,
    {
        if count == 0 {
            self
        } else {
            self.advance_by(reverse, (count - 1) as nat).advance(reverse)
        }
    }

    /// The cycle after one advance for each of the `directions` in turn;
    /// `true` goes backwards.
    pub open spec fn advance_each(self, directions: Seq<bool>) -> SwitchAppsView
        decreases directions.len(),
    {
        if directions.len() == 0 {
            self
        } else {
            self.advance_each(directions.drop_last()).advance(directions.last())
        }
    }

    /// The cycle with the candidate at `index` selected.
    pub open spec fn select(self, index: int) -> SwitchAppsView {
        SwitchAppsView { apps: self.apps, index }
    }

    /// The window of the selected candidate.
    pub open spec fn selected_window(self) -> isize {
        self.apps[self.index].1
    }
}

/// Collects the candidates of a new cycle from the enumeration.
pub fn collect_candidates(groups: &Vec<AppGroup>) -> (apps: Vec<(isize, isize)>)
    ensures
        apps@ == candidates(group_views(groups@)),
{
    let ghost has_window = |g: AppGroupView| g.windows.len() > 0;
    let ghost pick = |g: AppGroupView| g.candidate();
    let mut apps: Vec<(isize, isize)> = Vec::new();
    let mut i: usize = 0;
    proof {
        reveal(Seq::filter);
        assert(group_views(groups@).take(0).filter(has_window) =~= Seq::<AppGroupView>::empty());
    }
    while i < groups.len()
        invariant
            i <= groups@.len(),
            has_window == |g: AppGroupView| g.windows.len() > 0,
            pick == |g: AppGroupView| g.candidate(),
            apps@ == group_views(groups@).take(i as int).filter(has_window).map_values(pick),
        decreases groups@.len() - i,
    {
        let group = &groups[i];
        proof {
            reveal(Seq::filter);
            let before = group_views(groups@).take(i as int);
            let now = group_views(groups@).take(i + 1);
            assert(now.drop_last() =~= before);
            assert(now.last() == group@);
            if has_window(group@) {
                assert(now.filter(has_window).map_values(pick) =~= before.filter(
                    has_window,
                ).map_values(pick).push(pick(group@)));
            }
        }
        if group.windows.len() > 0 {
            let window = if group.minimized {
                group.windows[group.windows.len() - 1]
            } else {
                group.windows[0]
            };
            apps.push((group.icon, window));
        }
        i += 1;
    }
    assert(group_views(groups@).take(i as int) =~= group_views(groups@));
    apps
}

impl SwitchAppsState {
    /// Begins a cycle on the given candidates. Without candidates there is
    /// no cycle.
    pub fn begin(apps: Vec<(isize, isize)>, reverse: bool) -> (state: Option<SwitchAppsState>)
        ensures
            match state {
                Some(s) => Some(s@) == SwitchAppsView::begin(apps@, reverse) && s@.wf(),
                None => SwitchAppsView::begin(apps@, reverse) is None,
            },
    {
        if apps.len() == 0 {
            return None;
        }
        let index = if apps.len() == 1 {
            0
        } else if reverse {
            apps.len() - 1
        } else {
            1
        };
        Some(SwitchAppsState { apps, index })
    }

    /// Moves the selection one candidate further, or one back if `reverse`,
    /// wrapping at both ends. The candidates stay as they are.
    pub fn advance(&mut self, reverse: bool)
        requires
            old(self)@.wf(),
        ensures
            final(self)@ == old(self)@.advance(reverse),
            final(self).apps == old(self).apps,
            final(self)@.wf(),
    {
        proof {
            lemma_next_index(self.index as int, self.apps@.len() as int, reverse);
        }
        if reverse {
            if self.index == 0 {
                self.index = self.apps.len() - 1;
            } else {
                self.index -= 1;
            }
        } else if self.index == self.apps.len() - 1 {
            self.index = 0;
        } else {
            self.index += 1;
        }
    }

    /// Selects the candidate at `index`.
    pub fn select(&mut self, index: usize)
        requires
            index < old(self).apps@.len(),
        ensures
            final(self)@ == old(self)@.select(index as int),
            final(self).apps == old(self).apps,
            final(self)@.wf(),
    {
        self.index = index;
    }

    /// The window of the selected candidate.
    pub fn selected_window(&self) -> (window: isize)
        requires
            self@.wf(),
        ensures
            window == self@.selected_window(),
    {
        self.apps[self.index].1
    }

    /// Whether the index selects one of the candidates.
    pub fn is_valid(&self) -> (valid: bool)
        ensures
            valid == self@.wf(),
    {
        self.index < self.apps.len()
    }
}

/// For an index among `len` candidates, the next index is again among them:
/// it is the neighbour, or the other end of the list at either end.
pub proof fn lemma_next_index(index: int, len: int, reverse: bool)
    requires
        0 <= index < len,
    ensures
        0 <= next_index(index, len, reverse) < len,
        next_index(index, len, reverse) == if reverse {
            if index == 0 {
                len - 1
            } else {
                index - 1
            }
        } else if index == len - 1 {
            0
        } else {
            index + 1
        },
{
    if reverse {
        if index == 0 {
            lemma_small_mod((len - 1) as nat, len as nat);
        } else {
            lemma_mod_add_multiples_vanish(index - 1, len);
            lemma_small_mod((index - 1) as nat, len as nat);
        }
    } else {
        if index == len - 1 {
            lemma_mod_self_0(len);
        } else {
            lemma_small_mod((index + 1) as nat, len as nat);
        }
    }
}

/// Whatever advances a cycle goes through, forwards and backwards in any
/// order, its index selects one of its candidates, and its candidates stay
/// the same.
pub proof fn lemma_advance_each_is_valid(state: SwitchAppsView, directions: Seq<bool>)
    requires
        state.wf(),
    ensures
        state.advance_each(directions).wf(),
        state.advance_each(directions).apps == state.apps,
    decreases directions.len(),
{
    if directions.len() > 0 {
        lemma_advance_each_is_valid(state, directions.drop_last());
        let before = state.advance_each(directions.drop_last());
        lemma_next_index(before.index, before.apps.len() as int, directions.last());
    }
}

/// However often a cycle advances in one direction, its index selects one of
/// its candidates, and its candidates stay the same.
pub proof fn lemma_advance_by_is_valid(state: SwitchAppsView, reverse: bool, count: nat)
    requires
        state.wf(),
    ensures
        state.advance_by(reverse, count).wf(),
        state.advance_by(reverse, count).apps == state.apps,
    decreases count,
{
    if count > 0 {
        lemma_advance_by_is_valid(state, reverse, (count - 1) as nat);
        let before = state.advance_by(reverse, (count - 1) as nat);
        lemma_next_index(before.index, before.apps.len() as int, reverse);
    }
}

/// After `count` advances the index has moved by `count` modulo the number
/// of candidates, forwards or backwards.
pub proof fn lemma_advance_by_index(state: SwitchAppsView, reverse: bool, count: nat)
    requires
        state.wf(),
    ensures
        state.advance_by(reverse, count).index == if reverse {
            (state.index - count) % (state.apps.len() as int)
        } else {
            (state.index + count) % (state.apps.len() as int)
        },
    decreases count,
{
    let len = state.apps.len() as int;
    if count == 0 {
        lemma_small_mod(state.index as nat, len as nat);
    } else {
        lemma_advance_by_is_valid(state, reverse, (count - 1) as nat);
        lemma_advance_by_index(state, reverse, (count - 1) as nat);
        let before = state.advance_by(reverse, (count - 1) as nat);
        let moved = if reverse {
            state.index - (count - 1)
        } else {
            state.index + (count - 1)
        };
        assert(before.index == moved % len);
        let q = moved / len;
        assert(moved == q * len + before.index) by {
            vstd::arithmetic::div_mod::lemma_fundamental_div_mod(moved, len);
            assert(len * q == q * len) by (nonlinear_arith);
        }
        lemma_next_index(before.index, len, reverse);
        let after = next_index(before.index, len, reverse);
        if reverse {
            if before.index == 0 {
                assert(moved - 1 == (q - 1) * len + after) by (nonlinear_arith)
                    requires
                        moved == q * len + 0,
                        after == len - 1,
                ;
                lemma_fundamental_div_mod_converse(moved - 1, len, q - 1, after);
            } else {
                lemma_fundamental_div_mod_converse(moved - 1, len, q, after);
            }
        } else {
            if before.index == len - 1 {
                assert(moved + 1 == (q + 1) * len + after) by (nonlinear_arith)
                    requires
                        moved == q * len + (len - 1),
                        after == 0,
                ;
                lemma_fundamental_div_mod_converse(moved + 1, len, q + 1, after);
            } else {
                lemma_fundamental_div_mod_converse(moved + 1, len, q, after);
            }
        }
    }
}

/// Advancing as often as there are candidates, in either direction, leads
/// back to the index at which the advances began.
pub proof fn lemma_advance_full_circle(state: SwitchAppsView, reverse: bool)
    requires
        state.wf(),
    ensures
        state.advance_by(reverse, state.apps.len()) == state,
{
    let len = state.apps.len() as int;
    lemma_advance_by_index(state, reverse, state.apps.len());
    lemma_advance_by_is_valid(state, reverse, state.apps.len());
    if reverse {
        lemma_fundamental_div_mod_converse(state.index - len, len, -1, state.index);
    } else {
        lemma_fundamental_div_mod_converse(state.index + len, len, 1, state.index);
    }
}

/// Selecting the candidate at `index` directly selects the same window as
/// `index` forward advances from the first candidate.
pub proof fn lemma_select_matches_advances(state: SwitchAppsView, index: nat)
    requires
        state.wf(),
        index < state.apps.len(),
    ensures
        state.select(index as int) == state.select(0).advance_by(false, index),
        state.select(index as int).selected_window() == state.select(0).advance_by(
            false,
            index,
        ).selected_window(),
{
    let len = state.apps.len() as int;
    lemma_advance_by_index(state.select(0), false, index);
    lemma_advance_by_is_valid(state.select(0), false, index);
    lemma_small_mod(index, len as nat);
}

/// In a cycle that began forwards on two candidates or more, selecting the
/// candidate at `index` directly selects the same window as reaching it by
/// advances: the advance that begins the cycle and `index - 1` more.
pub proof fn lemma_select_matches_advances_from_begin(apps: Seq<(isize, isize)>, index: nat)
    requires
        apps.len() >= 2,
        1 <= index < apps.len(),
    ensures
        SwitchAppsView::begin(apps, false).unwrap().select(index as int) == SwitchAppsView::begin(
            apps,
            false,
        ).unwrap().advance_by(false, (index - 1) as nat),
{
    let begun = SwitchAppsView::begin(apps, false).unwrap();
    let len = apps.len() as int;
    lemma_advance_by_index(begun, false, (index - 1) as nat);
    lemma_advance_by_is_valid(begun, false, (index - 1) as nat);
    lemma_small_mod(index, len as nat);
}

} // verus!

//! Cycling through the windows of one application.
//!
//! The state remembers the last resolved cycling context (application,
//! anchor window, position and working order). While the modifier stays
//! down, repeated advances continue a tour through that working order, which
//! is reconciled with the windows that exist now. Once the modifier has been
//! released, the next advance starts again from the natural order of the
//! windows.

use crate::id_set::{contains, insert, into_items, new_set, set_items, shift_remove};
use vstd::prelude::*;

verus! {

/// The last resolved cycling context of one application.
#[derive(Debug)]
pub struct WindowCache {
    /// The application that the windows belong to.
    pub key: String,
    /// The window that was in front when the tour began.
    pub anchor: isize,
    /// Position of the selected window in `windows`.
    pub index: usize,
    /// The working order of the tour.
    pub windows: Vec<isize>,
}

/// Mathematical model of a [`WindowCache`].
#[verifier::ext_equal]
pub struct WindowCacheView {
    pub key: Seq<char>,
    pub anchor: isize,
    pub index: int,
    pub windows: Seq<isize>,
}

impl View for WindowCache {
    type V = WindowCacheView;

    open spec fn view(&self) -> WindowCacheView {
        WindowCacheView {
            key: self.key@,
            anchor: self.anchor,
            index: self.index as int,
            windows: self.windows@,
        }
    }
}

impl WindowCacheView {
    /// The index points into the working order.
    pub open spec fn wf(self) -> bool {
        0 <= self.index < self.windows.len()
    }

    /// The window that the cache selects.
    pub open spec fn selected(self) -> isize {
        self.windows[self.index]
    }
}

/// State of the window cycle. It outlives the single gesture.
#[derive(Debug)]
pub struct SwitchWindowsState {
    pub cache: Option<WindowCache>,
    /// Whether the modifier has been released since the last advance.
    pub modifier_released: bool,
}

/// Mathematical model of a [`SwitchWindowsState`].
#[verifier::ext_equal]
pub struct SwitchWindowsView {
    pub cache: Option<WindowCacheView>,
    pub modifier_released: bool,
}

impl View for SwitchWindowsState {
    type V = SwitchWindowsView;

    open spec fn view(&self) -> SwitchWindowsView {
        SwitchWindowsView {
            cache: match self.cache {
                Some(c) => Some(c@),
                None => None,
            },
            modifier_released: self.modifier_released,
        }
    }
}

/// The windows of one application as the enumeration reports them.
#[derive(Debug)]
pub struct WindowGroup {
    /// The application that the windows belong to.
    pub key: String,
    /// The application's windows, the one in front first.
    pub windows: Vec<isize>,
}

/// Mathematical model of a [`WindowGroup`].
pub struct WindowGroupView {
    pub key: Seq<char>,
    pub windows: Seq<isize>,
}

impl View for WindowGroup {
    type V = WindowGroupView;

    open spec fn view(&self) -> WindowGroupView {
        WindowGroupView { key: self.key@, windows: self.windows@ }
    }
}

/// Maps each group to its model.
pub open spec fn window_group_views(groups: Seq<WindowGroup>) -> Seq<WindowGroupView> {
    groups.map_values(|g: WindowGroup| g@)
}

/// Whether `at` is the position of the first group that holds `window`.
pub open spec fn is_owner(groups: Seq<WindowGroupView>, window: isize, at: int) -> bool {
    &&& 0 <= at < groups.len()
    &&& groups[at].windows.contains(window)
    &&& forall|j: int| 0 <= j < at ==> !(#[trigger] groups[j]).windows.contains(window)
}

/// The first group that holds `window`, if any does.
pub open spec fn owner(groups: Seq<WindowGroupView>, window: isize) -> Option<WindowGroupView> {
    if exists|at: int| is_owner(groups, window, at) {
        Some(groups[choose|at: int| is_owner(groups, window, at)])
    } else {
        None
    }
}

/// The ids that do not occur in `ids`.
pub open spec fn outside(ids: Seq<isize>) -> Set<isize> {
    Set::new(|id: isize| !ids.contains(id))
}

/// The ids of `ids` that lie in `allowed`, each of them once, in the order
/// in which they first occur.
pub open spec fn first_occurrences(ids: Seq<isize>, allowed: Set<isize>) -> Seq<isize>
    decreases ids.len(),
{
    if ids.len() == 0 {
        Seq::empty()
    } else {
        let before = first_occurrences(ids.drop_last(), allowed);
        let id = ids.last();
        if allowed.contains(id) && !before.contains(id) {
            before.push(id)
        } else {
            before
        }
    }
}

/// The working order of a continued tour: the cached windows that still
/// exist, in their cached order, followed by the windows that the cache does
/// not know, in the order of the enumeration.
pub open spec fn reconcile(cached: Seq<isize>, siblings: Seq<isize>) -> Seq<isize> {
    first_occurrences(cached, siblings.to_set()) + first_occurrences(siblings, outside(cached))
}

/// `index` if it points into a sequence of length `len`, else the first
/// position.
pub open spec fn clamp_index(index: int, len: int) -> int {
    if 0 <= index < len {
        index
    } else {
        0
    }
}

/// The position after one step of a continued tour through `len` windows: one
/// further, or one back if `reverse`, wrapping at both ends. A position that
/// no longer points into the order falls back to the first one.
pub open spec fn sticky_index(cached: int, len: int, reverse: bool) -> int {
    clamp_index(
        if reverse {
            if cached == 0 {
                len - 1
            } else {
                cached - 1
            }
        } else if cached >= len - 1 {
            0
        } else {
            cached + 1
        },
        len,
    )
}

/// The position at which a new gesture starts. If the window that anchored
/// the last tour is no longer in front but still exists, the gesture goes to
/// that window; otherwise it goes to the window behind the one in front.
pub open spec fn fresh_index(cached_anchor: isize, siblings: Seq<isize>) -> int {
    match siblings.index_of_first(cached_anchor) {
        Some(i) => if cached_anchor != siblings[0] {
            i
        } else {
            1
        },
        None => 1,
    }
}

impl SwitchWindowsView {
    /// The cached index, if there is a cache, points into the cached order.
    pub open spec fn wf(self) -> bool {
        self.cache matches Some(c) ==> c.wf()
    }

    /// The cache, if it belongs to the application `key`.
    pub open spec fn cache_for(self, key: Seq<char>) -> Option<WindowCacheView> {
        match self.cache {
            Some(c) => if c.key == key {
                Some(c)
            } else {
                None
            },
            None => None,
        }
    }

    /// The cycling context that an advance on the windows `siblings` of the
    /// application `key` resolves, for two windows or more. The first of
    /// `siblings` is the window in front.
    ///
    /// A cache of another application counts for nothing. After a release
    /// of the modifier the tour starts again in the order of `siblings`.
    /// While the modifier stays down the tour goes on through the
    /// reconciled order and keeps its anchor, also where the anchor has been
    /// closed in the meantime: the anchor is looked at only when a new
    /// gesture begins.
    pub open spec fn resolve(
        self,
        key: Seq<char>,
        siblings: Seq<isize>,
        reverse: bool,
    ) -> WindowCacheView {
        match self.cache_for(key) {
            None => WindowCacheView { key, anchor: siblings[0], index: 1, windows: siblings },
            Some(c) => if self.modifier_released {
                WindowCacheView {
                    key,
                    anchor: siblings[0],
                    index: fresh_index(c.anchor, siblings),
                    windows: siblings,
                }
            } else {
                let order = reconcile(c.windows, siblings);
                WindowCacheView {
                    key,
                    anchor: c.anchor,
                    index: sticky_index(c.index, order.len() as int, reverse),
                    windows: order,
                }
            },
        }
    }

    /// The state after an advance. With fewer than two windows nothing
    /// changes.
    pub open spec fn advance(
        self,
        key: Seq<char>,
        siblings: Seq<isize>,
        reverse: bool,
    ) -> SwitchWindowsView {
        if siblings.len() <= 1 {
            self
        } else {
            SwitchWindowsView {
                cache: Some(self.resolve(key, siblings, reverse)),
                modifier_released: false,
            }
        }
    }

    /// The window that an advance brings to the front, if any.
    pub open spec fn target(
        self,
        key: Seq<char>,
        siblings: Seq<isize>,
        reverse: bool,
    ) -> Option<isize> {
        if siblings.len() <= 1 {
            None
        } else {
            Some(self.resolve(key, siblings, reverse).selected())
        }
    }

    /// The state after the modifier was released: the cache stays.
    pub open spec fn release(self) -> SwitchWindowsView {
        SwitchWindowsView { cache: self.cache, modifier_released: true }
    }
}

/// An id is among the first occurrences exactly if it occurs and is allowed.
pub proof fn lemma_first_occurrences_contains(ids: Seq<isize>, allowed: Set<isize>, id: isize)
    ensures
        first_occurrences(ids, allowed).contains(id) <==> ids.contains(id) && allowed.contains(id),
    decreases ids.len(),
{
    if ids.len() > 0 {
        let rest = ids.drop_last();
        let before = first_occurrences(rest, allowed);
        lemma_first_occurrences_contains(rest, allowed, id);
        if ids.contains(id) {
            let i = choose|i: int| 0 <= i < ids.len() && ids[i] == id;
            if i < rest.len() {
                assert(rest[i] == id);
            }
        }
        if rest.contains(id) {
            let i = choose|i: int| 0 <= i < rest.len() && rest[i] == id;
            assert(ids[i] == id);
        }
        assert(ids[ids.len() - 1] == ids.last());
        if allowed.contains(ids.last()) && !before.contains(ids.last()) {
            let after = before.push(ids.last());
            assert(after[before.len() as int] == ids.last());
            if before.contains(id) {
                let i = choose|i: int| 0 <= i < before.len() && before[i] == id;
                assert(after[i] == id);
            }
            if after.contains(id) {
                let i = choose|i: int| 0 <= i < after.len() && after[i] == id;
                if i < before.len() {
                    assert(before[i] == id);
                }
            }
        }
    }
}

/// No id occurs twice among the first occurrences, and there are at most as
/// many of them as there are ids.
pub proof fn lemma_first_occurrences_distinct(ids: Seq<isize>, allowed: Set<isize>)
    ensures
        first_occurrences(ids, allowed).no_duplicates(),
        first_occurrences(ids, allowed).len() <= ids.len(),
    decreases ids.len(),
{
    if ids.len() > 0 {
        lemma_first_occurrences_distinct(ids.drop_last(), allowed);
    }
}

/// A sequence without repetition whose ids are all allowed is its own
/// sequence of first occurrences.
pub proof fn lemma_first_occurrences_identity(ids: Seq<isize>, allowed: Set<isize>)
    requires
        ids.no_duplicates(),
        forall|i: int| 0 <= i < ids.len() ==> allowed.contains(#[trigger] ids[i]),
    ensures
        first_occurrences(ids, allowed) == ids,
    decreases ids.len(),
{
    if ids.len() > 0 {
        let rest = ids.drop_last();
        lemma_first_occurrences_identity(rest, allowed);
        lemma_first_occurrences_contains(rest, allowed, ids.last());
        if rest.contains(ids.last()) {
            let i = choose|i: int| 0 <= i < rest.len() && rest[i] == ids.last();
            assert(ids[i] == ids[ids.len() - 1]);
        }
        assert(rest.push(ids.last()) =~= ids);
    }
}

/// Where no id is allowed, nothing is left.
pub proof fn lemma_first_occurrences_none(ids: Seq<isize>, allowed: Set<isize>)
    requires
        forall|i: int| 0 <= i < ids.len() ==> !allowed.contains(#[trigger] ids[i]),
    ensures
        first_occurrences(ids, allowed) == Seq::<isize>::empty(),
    decreases ids.len(),
{
    if ids.len() > 0 {
        lemma_first_occurrences_none(ids.drop_last(), allowed);
    }
}

/// Taking one id out of the first occurrences is the same as not allowing
/// it.
pub proof fn lemma_first_occurrences_without(ids: Seq<isize>, allowed: Set<isize>, id: isize)
    ensures
        first_occurrences(ids, allowed).filter(|v: isize| v != id) == first_occurrences(
            ids,
            allowed.remove(id),
        ),
    decreases ids.len(),
{
    reveal(Seq::filter);
    let keep = |v: isize| v != id;
    if ids.len() > 0 {
        let rest = ids.drop_last();
        let last = ids.last();
        let before = first_occurrences(rest, allowed);
        lemma_first_occurrences_without(rest, allowed, id);
        lemma_first_occurrences_contains(rest, allowed, last);
        lemma_first_occurrences_contains(rest, allowed.remove(id), last);
        if allowed.contains(last) && !before.contains(last) {
            assert(before.push(last).drop_last() =~= before);
            assert(before.push(last).last() == last);
        }
    } else {
        assert(first_occurrences(ids, allowed).filter(keep) =~= Seq::<isize>::empty());
    }
}

/// Filtering out an id that does not occur changes nothing.
proof fn lemma_filter_absent(ids: Seq<isize>, id: isize)
    requires
        !ids.contains(id),
    ensures
        ids.filter(|v: isize| v != id) == ids,
    decreases ids.len(),
{
    reveal(Seq::filter);
    if ids.len() > 0 {
        let rest = ids.drop_last();
        if rest.contains(id) {
            let i = choose|i: int| 0 <= i < rest.len() && rest[i] == id;
            assert(ids[i] == id);
        }
        assert(ids[ids.len() - 1] != id);
        lemma_filter_absent(rest, id);
        assert(rest.push(ids.last()) =~= ids);
    }
}

/// The reconciled order holds exactly the windows that exist now, each of
/// them once.
pub proof fn lemma_reconcile_covers(cached: Seq<isize>, siblings: Seq<isize>)
    ensures
        reconcile(cached, siblings).no_duplicates(),
        forall|id: isize| reconcile(cached, siblings).contains(id) <==> siblings.contains(id),
{
    let kept = first_occurrences(cached, siblings.to_set());
    let arrived = first_occurrences(siblings, outside(cached));
    let order = reconcile(cached, siblings);
    lemma_first_occurrences_distinct(cached, siblings.to_set());
    lemma_first_occurrences_distinct(siblings, outside(cached));
    assert forall|id: isize| order.contains(id) <==> siblings.contains(id) by {
        lemma_first_occurrences_contains(cached, siblings.to_set(), id);
        lemma_first_occurrences_contains(siblings, outside(cached), id);
        if order.contains(id) {
            let i = choose|i: int| 0 <= i < order.len() && order[i] == id;
            if i < kept.len() {
                assert(kept[i] == id);
            } else {
                assert(arrived[i - kept.len()] == id);
            }
        }
        if siblings.contains(id) {
            if cached.contains(id) {
                let i = choose|i: int| 0 <= i < kept.len() && kept[i] == id;
                assert(order[i] == id);
            } else {
                let i = choose|i: int| 0 <= i < arrived.len() && arrived[i] == id;
                assert(order[kept.len() + i] == id);
            }
        }
    }
    assert forall|i: int, j: int| 0 <= i < order.len() && 0 <= j < order.len() && i != j implies order[i]
        != order[j] by {
        if i < kept.len() && j >= kept.len() {
            lemma_first_occurrences_contains(cached, siblings.to_set(), kept[i]);
            lemma_first_occurrences_contains(siblings, outside(cached), arrived[j - kept.len()]);
        }
        if j < kept.len() && i >= kept.len() {
            lemma_first_occurrences_contains(cached, siblings.to_set(), kept[j]);
            lemma_first_occurrences_contains(siblings, outside(cached), arrived[i - kept.len()]);
        }
    }
}

/// A cached order that holds exactly the windows that exist now, each of
/// them once, is kept as it is.
pub proof fn lemma_reconcile_same_windows(cached: Seq<isize>, siblings: Seq<isize>)
    requires
        cached.no_duplicates(),
        forall|id: isize| cached.contains(id) <==> siblings.contains(id),
    ensures
        reconcile(cached, siblings) == cached,
{
    assert forall|i: int| 0 <= i < cached.len() implies siblings.to_set().contains(
        #[trigger] cached[i],
    ) by {
        assert(cached.contains(cached[i]));
    }
    lemma_first_occurrences_identity(cached, siblings.to_set());
    assert forall|i: int| 0 <= i < siblings.len() implies !outside(cached).contains(
        #[trigger] siblings[i],
    ) by {
        assert(siblings.contains(siblings[i]));
    }
    lemma_first_occurrences_none(siblings, outside(cached));
    assert(reconcile(cached, siblings) =~= cached);
}

/// Builds the working order of a continued tour.
pub fn reconcile_order(cached: &Vec<isize>, siblings: &Vec<isize>) -> (order: Vec<isize>)
    ensures
        order@ == reconcile(cached@, siblings@),
{
    let mut present = new_set();
    let mut i: usize = 0;
    while i < siblings.len()
        invariant
            i <= siblings@.len(),
            set_items(present) == first_occurrences(siblings@.take(i as int), Set::full()),
        decreases siblings@.len() - i,
    {
        let id = siblings[i];
        insert(&mut present, id);
        assert(siblings@.take(i + 1).drop_last() =~= siblings@.take(i as int));
        i += 1;
    }
    assert(siblings@.take(i as int) =~= siblings@);
    assert(outside(cached@.take(0)) =~= Set::full());
    let mut order: Vec<isize> = Vec::new();
    let mut k: usize = 0;
    while k < cached.len()
        invariant
            k <= cached@.len(),
            order@ == first_occurrences(cached@.take(k as int), siblings@.to_set()),
            set_items(present) == first_occurrences(siblings@, outside(cached@.take(k as int))),
        decreases cached@.len() - k,
    {
        let id = cached[k];
        let ghost prefix = cached@.take(k as int);
        let ghost next = cached@.take(k + 1);
        proof {
            assert(next.drop_last() =~= prefix);
            assert(next.last() == id);
            assert(next =~= prefix.push(id));
            assert forall|v: isize| outside(next).contains(v) <==> outside(prefix).remove(
                id,
            ).contains(v) by {
                if prefix.contains(v) {
                    let j = choose|j: int| 0 <= j < prefix.len() && prefix[j] == v;
                    assert(next[j] == v);
                }
                if next.contains(v) && v != id {
                    let j = choose|j: int| 0 <= j < next.len() && next[j] == v;
                    assert(prefix[j] == v);
                }
                assert(next[prefix.len() as int] == id);
            }
            assert(outside(next) =~= outside(prefix).remove(id));
            lemma_first_occurrences_without(siblings@, outside(prefix), id);
            lemma_first_occurrences_contains(siblings@, outside(prefix), id);
            lemma_first_occurrences_contains(prefix, siblings@.to_set(), id);
        }
        if contains(&present, id) {
            order.push(id);
            shift_remove(&mut present, id);
        } else {
            proof {
                lemma_filter_absent(set_items(present), id);
            }
        }
        k += 1;
    }
    assert(cached@.take(k as int) =~= cached@);
    let mut arrived = into_items(present);
    order.append(&mut arrived);
    order
}

/// The first position at which `id` occurs in `ids`.
pub fn position(ids: &Vec<isize>, id: isize) -> (found: Option<usize>)
    ensures
        match found {
            Some(i) => ids@.index_of_first(id) == Some(i as int),
            None => ids@.index_of_first(id) is None,
        },
{
    let mut i: usize = 0;
    while i < ids.len()
        invariant
            i <= ids@.len(),
            forall|j: int| 0 <= j < i ==> ids@[j] != id,
        decreases ids@.len() - i,
    {
        if ids[i] == id {
            proof {
                ids@.index_of_first_ensures(id);
            }
            return Some(i);
        }
        i += 1;
    }
    proof {
        ids@.index_of_first_ensures(id);
    }
    None
}

impl SwitchWindowsState {
    /// The state before any advance: nothing cached, modifier released.
    pub fn new() -> (state: SwitchWindowsState)
        ensures
            state@ == (SwitchWindowsView { cache: None, modifier_released: true }),
    {
        SwitchWindowsState { cache: None, modifier_released: true }
    }

    /// Advances the cycle through the windows `siblings` of the application
    /// `key`, of which the first is the window in front, and returns the
    /// window to bring to the front. With fewer than two windows there is
    /// nothing to switch to: the state stays as it is and no window is
    /// returned.
    pub fn advance(&mut self, key: &String, siblings: &Vec<isize>, reverse: bool) -> (target: Option<
        isize,
    >)
        ensures
            final(self)@ == old(self)@.advance(key@, siblings@, reverse),
            target == old(self)@.target(key@, siblings@, reverse),
            siblings@.len() <= 1 ==> target is None && *final(self) == *old(self),
            siblings@.len() >= 2 ==> target is Some && final(self)@.wf(),
    {
        if siblings.len() <= 1 {
            return None;
        }
        let front = siblings[0];
        let mut anchor = front;
        let mut index: usize = 1;
        let mut continued: Option<Vec<isize>> = None;
        match &self.cache {
            Some(c) => {
                if c.key == *key {
                    if self.modifier_released {
                        if c.anchor != front {
                            match position(siblings, c.anchor) {
                                Some(i) => {
                                    index = i;
                                },
                                None => {},
                            }
                        }
                    } else {
                        anchor = c.anchor;
                        let order = reconcile_order(&c.windows, siblings);
                        proof {
                            lemma_reconcile_covers(c.windows@, siblings@);
                            assert(siblings@.contains(siblings@[0]));
                            assert(order@.len() > 0);
                        }
                        let len = order.len();
                        index = if reverse {
                            if c.index == 0 {
                                len - 1
                            } else {
                                c.index - 1
                            }
                        } else if c.index >= len - 1 {
                            0
                        } else {
                            c.index + 1
                        };
                        continued = Some(order);
                    }
                }
            },
            None => {},
        }
        proof {
            siblings@.index_of_first_ensures(anchor);
            if let Some(c) = old(self)@.cache_for(key@) {
                siblings@.index_of_first_ensures(c.anchor);
            }
        }
        let windows = match continued {
            Some(order) => order,
            None => {
                let natural = siblings.clone();
                assert(natural@ =~= siblings@);
                natural
            },
        };
        if index >= windows.len() {
            index = 0;
        }
        let target = windows[index];
        self.cache = Some(WindowCache { key: key.clone(), anchor, index, windows });
        self.modifier_released = false;
        Some(target)
    }

    /// Records that the modifier was released. The cache stays, so that the
    /// next gesture can find the window that anchored this one.
    pub fn release(&mut self)
        ensures
            final(self)@ == old(self)@.release(),
            final(self).cache == old(self).cache,
            final(self).modifier_released,
    {
        self.modifier_released = true;
    }

    /// Whether the cached index, if there is a cache, points into the cached
    /// order.
    pub fn is_valid(&self) -> (valid: bool)
        ensures
            valid == self@.wf(),
    {
        match &self.cache {
            Some(c) => c.index < c.windows.len(),
            None => true,
        }
    }
}

/// With two windows or more, an advance leaves an index that points into the
/// working order, whatever the state was before.
pub proof fn lemma_advance_is_valid(
    state: SwitchWindowsView,
    key: Seq<char>,
    siblings: Seq<isize>,
    reverse: bool,
)
    requires
        siblings.len() >= 2,
    ensures
        state.advance(key, siblings, reverse).wf(),
        state.resolve(key, siblings, reverse).key == key,
        !state.advance(key, siblings, reverse).modifier_released,
{
    if let Some(c) = state.cache_for(key) {
        siblings.index_of_first_ensures(c.anchor);
        lemma_reconcile_covers(c.windows, siblings);
        assert(siblings.contains(siblings[0]));
    }
}

/// For a cached index that points into the order, a step of a continued
/// tour is a step of one modulo the number of windows.
pub proof fn lemma_sticky_index_wraps(cached: int, len: int, reverse: bool)
    requires
        0 <= cached < len,
    ensures
        sticky_index(cached, len, reverse) == if reverse {
            (cached - 1 + len) % len
        } else {
            (cached + 1) % len
        },
{
    if reverse {
        if cached == 0 {
            vstd::arithmetic::div_mod::lemma_small_mod((len - 1) as nat, len as nat);
        } else {
            vstd::arithmetic::div_mod::lemma_mod_add_multiples_vanish(cached - 1, len);
            vstd::arithmetic::div_mod::lemma_small_mod((cached - 1) as nat, len as nat);
        }
    } else {
        if cached == len - 1 {
            vstd::arithmetic::div_mod::lemma_mod_self_0(len);
        } else {
            vstd::arithmetic::div_mod::lemma_small_mod((cached + 1) as nat, len as nat);
        }
    }
}

/// Whether `later` lists the windows of `siblings`, each of them once, in
/// whatever order.
pub open spec fn same_windows(siblings: Seq<isize>, later: Seq<isize>) -> bool {
    &&& later.no_duplicates()
    &&& forall|id: isize| later.contains(id) <==> siblings.contains(id)
}

impl SwitchWindowsView {
    /// Whether a forward advance selects the window that follows the window
    /// in front in the working order of that advance.
    pub open spec fn steps_from_front(self, key: Seq<char>, siblings: Seq<isize>) -> bool {
        let resolved = self.resolve(key, siblings, false);
        resolved.windows[sticky_index(resolved.index, resolved.windows.len() as int, true)]
            == siblings[0]
    }

    /// Whether an advance for `key` begins a new tour in the natural order
    /// of the windows, at the window behind the one in front.
    pub open spec fn starts_afresh(self, key: Seq<char>, siblings: Seq<isize>) -> bool {
        match self.cache_for(key) {
            None => true,
            Some(c) => self.modifier_released && (c.anchor == siblings[0] || !siblings.contains(
                c.anchor,
            ) || siblings[1] == c.anchor),
        }
    }

    /// Whether an advance for `key` continues a tour whose selected window
    /// is the window in front, through the windows that the tour knows.
    pub open spec fn continues_from_front(self, key: Seq<char>, siblings: Seq<isize>) -> bool {
        &&& !self.modifier_released
        &&& self.cache_for(key) matches Some(c)
        &&& c.wf()
        &&& same_windows(siblings, c.windows)
        &&& c.selected() == siblings[0]
    }
}

/// Going forward and then back, with the modifier held and the same windows
/// open, brings back the window that was in front before, provided that the
/// forward advance went to the window that follows it in the working order.
/// (An advance that jumps to the anchor of an earlier tour does not: from
/// there the step back leads elsewhere.)
pub proof fn lemma_reverse_undoes_forward(
    state: SwitchWindowsView,
    key: Seq<char>,
    siblings: Seq<isize>,
    later: Seq<isize>,
)
    requires
        siblings.len() >= 2,
        siblings.no_duplicates(),
        same_windows(siblings, later),
        state.steps_from_front(key, siblings),
    ensures
        state.advance(key, siblings, false).target(key, later, true) == Some(siblings[0]),
        state.advance(key, siblings, false).advance(key, later, true).cache.unwrap().selected()
            == siblings[0],
{
    let first = state.advance(key, siblings, false);
    let resolved = state.resolve(key, siblings, false);
    lemma_advance_is_valid(state, key, siblings, false);
    assert(first.cache_for(key) == Some(resolved));
    if let Some(c) = state.cache_for(key) {
        lemma_reconcile_covers(c.windows, siblings);
    }
    assert(resolved.windows.no_duplicates());
    assert forall|id: isize| resolved.windows.contains(id) <==> later.contains(id) by {}
    lemma_reconcile_same_windows(resolved.windows, later);
    assert(later.contains(later[0]));
    later.unique_seq_to_set();
    siblings.unique_seq_to_set();
    assert(later.to_set() =~= siblings.to_set());
}

/// A gesture that begins a new tour satisfies the proviso of
/// [`lemma_reverse_undoes_forward`].
pub proof fn lemma_fresh_advance_steps_from_front(
    state: SwitchWindowsView,
    key: Seq<char>,
    siblings: Seq<isize>,
)
    requires
        siblings.len() >= 2,
        siblings.no_duplicates(),
        state.starts_afresh(key, siblings),
    ensures
        state.steps_from_front(key, siblings),
        state.target(key, siblings, false) == Some(siblings[1]),
{
    if let Some(c) = state.cache_for(key) {
        siblings.index_of_first_ensures(c.anchor);
        if siblings[1] == c.anchor {
            assert(siblings.contains(c.anchor));
        }
    }
}

/// A continued tour whose selected window is in front satisfies the proviso
/// of [`lemma_reverse_undoes_forward`].
pub proof fn lemma_continued_advance_steps_from_front(
    state: SwitchWindowsView,
    key: Seq<char>,
    siblings: Seq<isize>,
)
    requires
        siblings.len() >= 2,
        state.continues_from_front(key, siblings),
    ensures
        state.steps_from_front(key, siblings),
{
    let c = state.cache_for(key).unwrap();
    lemma_reconcile_same_windows(c.windows, siblings);
}

/// Finds the application that owns `window`: the position of the first
/// group that holds it.
pub fn find_owner(groups: &Vec<WindowGroup>, window: isize) -> (found: Option<usize>)
    ensures
        match found {
            Some(at) => is_owner(window_group_views(groups@), window, at as int) && owner(
                window_group_views(groups@),
                window,
            ) == Some(groups@[at as int]@),
            None => owner(window_group_views(groups@), window) is None,
        },
{
    let ghost views = window_group_views(groups@);
    let mut i: usize = 0;
    while i < groups.len()
        invariant
            i <= groups@.len(),
            views == window_group_views(groups@),
            forall|j: int| 0 <= j < i ==> !(#[trigger] views[j]).windows.contains(window),
        decreases groups@.len() - i,
    {
        proof {
            groups@[i as int].windows@.index_of_first_ensures(window);
        }
        if position(&groups[i].windows, window).is_some() {
            proof {
                assert(is_owner(views, window, i as int));
                let at = choose|at: int| is_owner(views, window, at);
                assert(at == i) by {
                    if at < i {
                        assert(!views[at].windows.contains(window));
                    }
                    if i < at {
                        assert(!views[i as int].windows.contains(window));
                    }
                }
            }
            return Some(i);
        }
        i += 1;
    }
    proof {
        assert forall|at: int| !is_owner(views, window, at) by {
            if 0 <= at < views.len() {
                assert(!views[at].windows.contains(window));
            }
        }
    }
    None
}

impl SwitchWindowsView {
    /// The state after one advance on each of the `enumerations` in turn,
    /// all in one direction and without a release in between.
    pub open spec fn advance_each(
        self,
        key: Seq<char>,
        enumerations: Seq<Seq<isize>>,
        reverse: bool,
    ) -> SwitchWindowsView
        decreases enumerations.len(),
    {
        if enumerations.len() == 0 {
            self
        } else {
            self.advance_each(key, enumerations.drop_last(), reverse).advance(
                key,
                enumerations.last(),
                reverse,
            )
        }
    }
}

/// While the modifier stays down and the same windows stay open, a tour
/// that begins afresh goes round through the windows in the order in which
/// the first enumeration listed them, however later enumerations order them:
/// the first advance selects the second window, and each further advance
/// the neighbour of the last selection, the next one going forwards, the
/// one before going backwards.
pub proof fn lemma_tour_goes_round(
    state: SwitchWindowsView,
    key: Seq<char>,
    siblings: Seq<isize>,
    enumerations: Seq<Seq<isize>>,
    reverse: bool,
)
    requires
        siblings.len() >= 2,
        siblings.no_duplicates(),
        state.starts_afresh(key, siblings),
        enumerations.len() >= 1,
        enumerations[0] == siblings,
        forall|k: int|
            0 <= k < enumerations.len() ==> same_windows(siblings, #[trigger] enumerations[k]),
    ensures
        state.advance_each(key, enumerations, reverse) == (SwitchWindowsView {
            cache: Some(
                WindowCacheView {
                    key,
                    anchor: siblings[0],
                    index: if reverse {
                        (2 - enumerations.len()) % (siblings.len() as int)
                    } else {
                        (enumerations.len() as int) % (siblings.len() as int)
                    },
                    windows: siblings,
                },
            ),
            modifier_released: false,
        }),
    decreases enumerations.len(),
{
    let n = siblings.len() as int;
    let count = enumerations.len() as int;
    let earlier = enumerations.drop_last();
    let before = state.advance_each(key, earlier, reverse);
    if count == 1 {
        assert(earlier.len() == 0);
        assert(before == state);
        assert(enumerations.last() == siblings);
        if let Some(c) = state.cache_for(key) {
            siblings.index_of_first_ensures(c.anchor);
            if siblings[1] == c.anchor {
                assert(siblings.contains(c.anchor));
            }
        }
        vstd::arithmetic::div_mod::lemma_small_mod(1, n as nat);
    } else {
        assert(earlier[0] == siblings);
        assert forall|k: int| 0 <= k < earlier.len() implies same_windows(
            siblings,
            #[trigger] earlier[k],
        ) by {
            assert(earlier[k] == enumerations[k]);
        }
        lemma_tour_goes_round(state, key, siblings, earlier, reverse);
        let cached = before.cache.unwrap();
        let later = enumerations.last();
        assert(same_windows(siblings, enumerations[count - 1]));
        later.unique_seq_to_set();
        siblings.unique_seq_to_set();
        assert(later.to_set() =~= siblings.to_set());
        lemma_reconcile_same_windows(siblings, later);
        vstd::arithmetic::div_mod::lemma_mod_bound(count - 1, n);
        vstd::arithmetic::div_mod::lemma_mod_bound(3 - count, n);
        lemma_sticky_index_wraps(cached.index, n, reverse);
        vstd::arithmetic::div_mod::lemma_small_mod(1, n as nat);
        if reverse {
            vstd::arithmetic::div_mod::lemma_mod_add_multiples_vanish(cached.index - 1, n);
            vstd::arithmetic::div_mod::lemma_sub_mod_noop(3 - count, 1, n);
        } else {
            vstd::arithmetic::div_mod::lemma_add_mod_noop(count - 1, 1, n);
        }
    }
}

} // verus!

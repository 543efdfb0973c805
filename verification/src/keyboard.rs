//! The hotkey matcher behind the low-level keyboard hook.
//!
//! The hook hands every key event to [`keyboard_proc`], which keeps track of
//! the modifiers that are down and answers with the intents to post to the
//! coordinator and with whether the event is to be kept from the rest of the
//! input pipeline. Matching goes by scan code, so it does not depend on the
//! keyboard layout.

use crate::config::{hotkey_views, Hotkey, HotkeyView, SWITCH_APPS_HOTKEY_ID, SWITCH_WINDOWS_HOTKEY_ID};
use crate::intent::SwitchIntent;
use vstd::prelude::*;

verus! {

/// Scan code of the left shift key.
pub const SCANCODE_LSHIFT: u32 = 0x2A;

/// Scan code of the right shift key.
pub const SCANCODE_RSHIFT: u32 = 0x36;

/// Scan code of the escape key, which cancels an application cycle.
pub const SCANCODE_ESCAPE: u32 = 0x01;

/// The flag of a low-level keyboard event that marks a key release.
pub const LLKHF_UP: u32 = 0x80;

/// A configured hotkey with the state of its modifier.
#[derive(Debug)]
pub struct HotKeyState {
    pub hotkey: Hotkey,
    pub is_modifier_pressed: bool,
}

/// Mathematical model of a [`HotKeyState`].
pub struct HotKeyStateView {
    pub hotkey: HotkeyView,
    pub is_modifier_pressed: bool,
}

impl View for HotKeyState {
    type V = HotKeyStateView;

    open spec fn view(&self) -> HotKeyStateView {
        HotKeyStateView { hotkey: self.hotkey@, is_modifier_pressed: self.is_modifier_pressed }
    }
}

impl HotKeyStateView {
    /// Whether `scan_code` is one of the hotkey's modifiers.
    pub open spec fn owns(self, scan_code: u32) -> bool {
        self.hotkey.modifier.contains(scan_code)
    }

    /// The state after an event of the key `scan_code`, which changes it
    /// only if the key is one of the hotkey's modifiers.
    pub open spec fn after_modifier(self, scan_code: u32, pressed: bool) -> HotKeyStateView {
        if self.owns(scan_code) {
            HotKeyStateView { hotkey: self.hotkey, is_modifier_pressed: pressed }
        } else {
            self
        }
    }

    /// The intent that the release of the key `scan_code` gives rise to: a
    /// commit, if the key is one of the hotkey's modifiers and the hotkey's
    /// trigger was the last key that fired.
    pub open spec fn commit(self, scan_code: u32, previous_keycode: u32) -> Option<SwitchIntent> {
        if self.owns(scan_code) && previous_keycode == self.hotkey.code {
            if self.hotkey.id == SWITCH_APPS_HOTKEY_ID {
                Some(SwitchIntent::CommitApps)
            } else if self.hotkey.id == SWITCH_WINDOWS_HOTKEY_ID {
                Some(SwitchIntent::CommitWindows)
            } else {
                None
            }
        } else {
            None
        }
    }

    /// The intent that a press of the key `scan_code`, which is nobody's
    /// modifier, gives rise to while the hotkey's modifier is down.
    pub open spec fn fire(self, scan_code: u32, shift: bool, blacklisted: bool) -> Option<
        SwitchIntent,
    > {
        if !self.is_modifier_pressed {
            None
        } else if scan_code == self.hotkey.code {
            if self.hotkey.id == SWITCH_APPS_HOTKEY_ID {
                Some(SwitchIntent::BeginOrAdvanceApps(shift))
            } else if self.hotkey.id == SWITCH_WINDOWS_HOTKEY_ID && !blacklisted {
                Some(SwitchIntent::BeginOrAdvanceWindows(shift))
            } else {
                None
            }
        } else if scan_code == SCANCODE_ESCAPE && self.hotkey.id == SWITCH_APPS_HOTKEY_ID {
            Some(SwitchIntent::CancelApps)
        } else {
            None
        }
    }

    /// Whether a press of the key `scan_code` completes a combination of
    /// this hotkey: its trigger, or escape for the applications hotkey,
    /// while its modifier is down.
    pub open spec fn matches(self, scan_code: u32, blacklisted: bool) -> bool {
        &&& self.is_modifier_pressed
        &&& {
            ||| scan_code == self.hotkey.code && self.hotkey.id == SWITCH_APPS_HOTKEY_ID
            ||| scan_code == self.hotkey.code && self.hotkey.id == SWITCH_WINDOWS_HOTKEY_ID
                && !blacklisted
            ||| scan_code == SCANCODE_ESCAPE && self.hotkey.id == SWITCH_APPS_HOTKEY_ID
        }
    }
}

/// Maps each hotkey state to its model.
pub open spec fn state_views(states: Seq<HotKeyState>) -> Seq<HotKeyStateView> {
    states.map_values(|s: HotKeyState| s@)
}

/// The commits that the release of the key `scan_code` gives rise to, in the
/// order of the hotkeys.
pub open spec fn commits(states: Seq<HotKeyStateView>, scan_code: u32, previous_keycode: u32) -> Seq<
    SwitchIntent,
>
    decreases states.len(),
{
    if states.len() == 0 {
        Seq::empty()
    } else {
        let before = commits(states.drop_last(), scan_code, previous_keycode);
        match states.last().commit(scan_code, previous_keycode) {
            Some(intent) => before.push(intent),
            None => before,
        }
    }
}

/// The intent of the first hotkey that a press of the key `scan_code`
/// fires, if it fires any.
pub open spec fn first_fire(
    states: Seq<HotKeyStateView>,
    scan_code: u32,
    shift: bool,
    blacklisted: bool,
) -> Option<SwitchIntent>
    decreases states.len(),
{
    if states.len() == 0 {
        None
    } else {
        match first_fire(states.drop_last(), scan_code, shift, blacklisted) {
            Some(intent) => Some(intent),
            None => states.last().fire(scan_code, shift, blacklisted),
        }
    }
}

/// Whether `scan_code` is a modifier of one of the hotkeys.
pub open spec fn any_owns(states: Seq<HotKeyStateView>, scan_code: u32) -> bool {
    exists|i: int| 0 <= i < states.len() && (#[trigger] states[i]).owns(scan_code)
}

/// Whether a key event is a press, going by its flags.
pub open spec fn is_key_pressed(flags: u32) -> bool {
    flags & LLKHF_UP == 0
}

/// State of the hotkey matcher.
#[derive(Debug)]
pub struct KeyboardListener {
    /// The configured hotkeys, in the order in which they are evaluated.
    pub keyboard_state: Vec<HotKeyState>,
    /// Whether a shift key is down.
    pub is_shift_pressed: bool,
    /// The scan code of the last key that fired an intent.
    pub previous_keycode: u32,
}

/// Mathematical model of a [`KeyboardListener`].
#[verifier::ext_equal]
pub struct KeyboardView {
    pub states: Seq<HotKeyStateView>,
    pub is_shift_pressed: bool,
    pub previous_keycode: u32,
}

impl View for KeyboardListener {
    type V = KeyboardView;

    open spec fn view(&self) -> KeyboardView {
        KeyboardView {
            states: state_views(self.keyboard_state@),
            is_shift_pressed: self.is_shift_pressed,
            previous_keycode: self.previous_keycode,
        }
    }
}

impl KeyboardView {
    /// The matcher as the listener starts it: no modifier down, no shift
    /// key down, no key fired yet.
    pub open spec fn init(hotkeys: Seq<HotkeyView>) -> KeyboardView {
        KeyboardView {
            states: hotkeys.map_values(
                |h: HotkeyView| HotKeyStateView { hotkey: h, is_modifier_pressed: false },
            ),
            is_shift_pressed: false,
            previous_keycode: 0,
        }
    }

    /// Whether `scan_code` is a modifier of one of the hotkeys.
    pub open spec fn is_modifier(self, scan_code: u32) -> bool {
        any_owns(self.states, scan_code)
    }

    /// Whether a shift key is down after the event.
    pub open spec fn shift_after(self, scan_code: u32, pressed: bool) -> bool {
        if scan_code == SCANCODE_LSHIFT || scan_code == SCANCODE_RSHIFT {
            pressed
        } else {
            self.is_shift_pressed
        }
    }

    /// The intent that the event fires as a trigger, if any.
    pub open spec fn fired(self, scan_code: u32, pressed: bool, blacklisted: bool) -> Option<
        SwitchIntent,
    > {
        if pressed && !self.is_modifier(scan_code) {
            first_fire(self.states, scan_code, self.shift_after(scan_code, pressed), blacklisted)
        } else {
            None
        }
    }

    /// The intents that the event gives rise to, in the order in which they
    /// are to be posted.
    pub open spec fn intents(self, scan_code: u32, pressed: bool, blacklisted: bool) -> Seq<
        SwitchIntent,
    > {
        if self.is_modifier(scan_code) {
            if pressed {
                Seq::empty()
            } else {
                commits(self.states, scan_code, self.previous_keycode)
            }
        } else {
            match self.fired(scan_code, pressed, blacklisted) {
                Some(intent) => seq![intent],
                None => Seq::empty(),
            }
        }
    }

    /// Whether the event is kept from the rest of the input pipeline.
    pub open spec fn consumed(self, scan_code: u32, pressed: bool, blacklisted: bool) -> bool {
        self.fired(scan_code, pressed, blacklisted) is Some
    }

    /// Whether the event matches a configured combination: it is the press
    /// of a key that is nobody's modifier and that completes a combination
    /// of one of the hotkeys.
    pub open spec fn matches(self, scan_code: u32, pressed: bool, blacklisted: bool) -> bool {
        &&& pressed
        &&& !self.is_modifier(scan_code)
        &&& exists|i: int|
            0 <= i < self.states.len() && (#[trigger] self.states[i]).matches(
                scan_code,
                blacklisted,
            )
    }

    /// The matcher after the event.
    pub open spec fn after(self, scan_code: u32, pressed: bool, blacklisted: bool) -> KeyboardView {
        KeyboardView {
            states: self.states.map_values(|s: HotKeyStateView| s.after_modifier(scan_code, pressed)),
            is_shift_pressed: self.shift_after(scan_code, pressed),
            previous_keycode: if self.consumed(scan_code, pressed, blacklisted) {
                scan_code
            } else {
                self.previous_keycode
            },
        }
    }
}

/// What the hook is to do with a key event.
#[derive(Debug)]
pub struct KeyOutcome {
    /// The intents to post to the coordinator, in this order.
    pub intents: Vec<SwitchIntent>,
    /// Whether the event is kept from the rest of the input pipeline. An
    /// event that is not consumed is forwarded as it came.
    pub consumed: bool,
}

impl HotKeyState {
    /// The intent that a press of the key `scan_code`, which is nobody's
    /// modifier, fires for this hotkey: an advance if the hotkey's modifier
    /// is down and the key is its trigger, backwards if `shift` is down; a
    /// cancel if the modifier of the applications hotkey is down and the key
    /// is escape. `blacklisted` switches the window cycle off.
    pub fn fire(&self, scan_code: u32, shift: bool, blacklisted: bool) -> (intent: Option<
        SwitchIntent,
    >)
        ensures
            intent == self@.fire(scan_code, shift, blacklisted),
            intent is Some <==> self@.matches(scan_code, blacklisted),
    {
        if !self.is_modifier_pressed {
            return None;
        }
        let id = self.hotkey.id;
        if scan_code == self.hotkey.code {
            if id == SWITCH_APPS_HOTKEY_ID {
                Some(SwitchIntent::BeginOrAdvanceApps(shift))
            } else if id == SWITCH_WINDOWS_HOTKEY_ID && !blacklisted {
                Some(SwitchIntent::BeginOrAdvanceWindows(shift))
            } else {
                None
            }
        } else if scan_code == SCANCODE_ESCAPE && id == SWITCH_APPS_HOTKEY_ID {
            Some(SwitchIntent::CancelApps)
        } else {
            None
        }
    }
}

impl KeyboardListener {
    /// Starts the matcher for the given hotkeys.
    pub fn init(hotkeys: &[Hotkey]) -> (listener: KeyboardListener)
        ensures
            listener@ == KeyboardView::init(hotkey_views(hotkeys@)),
    {
        let mut keyboard_state: Vec<HotKeyState> = Vec::new();
        let mut i: usize = 0;
        while i < hotkeys.len()
            invariant
                i <= hotkeys@.len(),
                keyboard_state@.len() == i,
                forall|j: int|
                    0 <= j < i ==> (#[trigger] keyboard_state@[j])@ == (HotKeyStateView {
                        hotkey: hotkeys@[j]@,
                        is_modifier_pressed: false,
                    }),
            decreases hotkeys@.len() - i,
        {
            keyboard_state.push(
                HotKeyState { hotkey: hotkeys[i].clone(), is_modifier_pressed: false },
            );
            i += 1;
        }
        assert(state_views(keyboard_state@) =~= KeyboardView::init(hotkey_views(hotkeys@)).states);
        KeyboardListener { keyboard_state, is_shift_pressed: false, previous_keycode: 0 }
    }

    /// Whether `scan_code` is a modifier of one of the hotkeys.
    pub fn is_modifier(&self, scan_code: u32) -> (found: bool)
        ensures
            found == self@.is_modifier(scan_code),
    {
        let mut i: usize = 0;
        while i < self.keyboard_state.len()
            invariant
                i <= self.keyboard_state@.len(),
                forall|j: int| 0 <= j < i ==> !(#[trigger] self@.states[j]).owns(scan_code),
            decreases self.keyboard_state@.len() - i,
        {
            if self.keyboard_state[i].hotkey.has_modifier(scan_code) {
                assert(self@.states[i as int].owns(scan_code));
                return true;
            }
            i += 1;
        }
        false
    }
}

/// A key is a modifier among the first `upto + 1` hotkeys if it is one among
/// the first `upto` or a modifier of the next.
proof fn lemma_any_owns_step(states: Seq<HotKeyStateView>, upto: int, scan_code: u32)
    requires
        0 <= upto < states.len(),
    ensures
        any_owns(states.take(upto + 1), scan_code) <==> any_owns(states.take(upto), scan_code)
            || states[upto].owns(scan_code),
{
    let shorter = states.take(upto);
    let longer = states.take(upto + 1);
    if any_owns(longer, scan_code) {
        let i = choose|i: int| 0 <= i < longer.len() && (#[trigger] longer[i]).owns(scan_code);
        if i < upto {
            assert(shorter[i].owns(scan_code));
        }
    }
    if any_owns(shorter, scan_code) {
        let i = choose|i: int| 0 <= i < shorter.len() && (#[trigger] shorter[i]).owns(scan_code);
        assert(longer[i].owns(scan_code));
    }
    if states[upto].owns(scan_code) {
        assert(longer[upto].owns(scan_code));
    }
}

/// The release of a key that is nobody's modifier commits nothing.
proof fn lemma_commits_need_owner(
    states: Seq<HotKeyStateView>,
    scan_code: u32,
    previous_keycode: u32,
)
    requires
        !any_owns(states, scan_code),
    ensures
        commits(states, scan_code, previous_keycode) == Seq::<SwitchIntent>::empty(),
    decreases states.len(),
{
    if states.len() > 0 {
        let rest = states.drop_last();
        assert(!states[states.len() - 1].owns(scan_code));
        assert forall|i: int| 0 <= i < rest.len() implies !(#[trigger] rest[i]).owns(scan_code) by {
            assert(!states[i].owns(scan_code));
        }
        lemma_commits_need_owner(rest, scan_code, previous_keycode);
    }
}

/// A press fires if some hotkey fires, and then the first that does decides.
proof fn lemma_first_fire_prefix(
    states: Seq<HotKeyStateView>,
    upto: int,
    scan_code: u32,
    shift: bool,
    blacklisted: bool,
)
    requires
        0 <= upto <= states.len(),
        first_fire(states.take(upto), scan_code, shift, blacklisted) is Some,
    ensures
        first_fire(states, scan_code, shift, blacklisted) == first_fire(
            states.take(upto),
            scan_code,
            shift,
            blacklisted,
        ),
    decreases states.len() - upto,
{
    if upto < states.len() {
        assert(states.take(upto + 1).drop_last() =~= states.take(upto));
        lemma_first_fire_prefix(states, upto + 1, scan_code, shift, blacklisted);
    } else {
        assert(states.take(upto) =~= states);
    }
}

/// A press fires exactly if it completes a combination of some hotkey.
pub proof fn lemma_first_fire_matches(
    states: Seq<HotKeyStateView>,
    scan_code: u32,
    shift: bool,
    blacklisted: bool,
)
    ensures
        first_fire(states, scan_code, shift, blacklisted) is Some <==> exists|i: int|
            0 <= i < states.len() && (#[trigger] states[i]).matches(scan_code, blacklisted),
    decreases states.len(),
{
    if states.len() > 0 {
        let rest = states.drop_last();
        lemma_first_fire_matches(rest, scan_code, shift, blacklisted);
        if first_fire(states, scan_code, shift, blacklisted) is Some {
            if first_fire(rest, scan_code, shift, blacklisted) is Some {
                let i = choose|i: int|
                    0 <= i < rest.len() && (#[trigger] rest[i]).matches(scan_code, blacklisted);
                assert(states[i].matches(scan_code, blacklisted));
            } else {
                assert(states[states.len() - 1].matches(scan_code, blacklisted));
            }
        }
        if exists|i: int|
            0 <= i < states.len() && (#[trigger] states[i]).matches(scan_code, blacklisted) {
            let i = choose|i: int|
                0 <= i < states.len() && (#[trigger] states[i]).matches(scan_code, blacklisted);
            if i < rest.len() {
                assert(rest[i].matches(scan_code, blacklisted));
            }
        }
    }
}

/// The hook keeps an event from the rest of the input pipeline only if the
/// event matches a configured combination: every other event is forwarded.
/// An event that is consumed fires one intent, and a forwarded event of a
/// key that is nobody's modifier fires none.
pub proof fn lemma_consumed_only_if_matching(
    listener: KeyboardView,
    scan_code: u32,
    pressed: bool,
    blacklisted: bool,
)
    ensures
        listener.consumed(scan_code, pressed, blacklisted) <==> listener.matches(
            scan_code,
            pressed,
            blacklisted,
        ),
        !listener.matches(scan_code, pressed, blacklisted) ==> !listener.consumed(
            scan_code,
            pressed,
            blacklisted,
        ),
        !listener.is_modifier(scan_code) ==> listener.intents(
            scan_code,
            pressed,
            blacklisted,
        ).len() == if listener.consumed(scan_code, pressed, blacklisted) {
            1nat
        } else {
            0nat
        },
{
    lemma_first_fire_matches(
        listener.states,
        scan_code,
        listener.shift_after(scan_code, pressed),
        blacklisted,
    );
}

/// A key event as the hook sees it.
pub struct KeyEvent {
    pub scan_code: u32,
    pub pressed: bool,
    /// Whether window cycling is switched off for the application in front.
    pub blacklisted: bool,
}

/// The matcher after a sequence of events.
pub open spec fn after_events(listener: KeyboardView, events: Seq<KeyEvent>) -> KeyboardView
    decreases events.len(),
{
    if events.len() == 0 {
        listener
    } else {
        let e = events.last();
        after_events(listener, events.drop_last()).after(e.scan_code, e.pressed, e.blacklisted)
    }
}

/// In every sequence of key events, from every state of the matcher, each
/// event that does not match a configured combination is forwarded.
pub proof fn lemma_unmatched_events_are_forwarded(
    listener: KeyboardView,
    events: Seq<KeyEvent>,
    at: int,
)
    requires
        0 <= at < events.len(),
    ensures
        ({
            let before = after_events(listener, events.take(at));
            let e = events[at];
            !before.matches(e.scan_code, e.pressed, e.blacklisted) ==> !before.consumed(
                e.scan_code,
                e.pressed,
                e.blacklisted,
            )
        }),
{
    let before = after_events(listener, events.take(at));
    let e = events[at];
    lemma_consumed_only_if_matching(before, e.scan_code, e.pressed, e.blacklisted);
}

/// Handles one key event: keeps track of the shift keys and of the
/// modifiers of the hotkeys, and decides which intents to post and whether
/// the event is consumed.
///
/// The release of a hotkey's modifier commits the hotkey's cycle, if the
/// hotkey's trigger was the last key that fired. The press of another key
/// fires the first hotkey whose modifier is down and whose trigger it is (or
/// cancels the application cycle, if the key is escape), and only then is
/// the event consumed. `foreground_in_blacklist` tells that window cycling
/// is switched off for the application in front.
pub fn keyboard_proc(
    listener: &mut KeyboardListener,
    scan_code: u32,
    flags: u32,
    foreground_in_blacklist: bool,
) -> (outcome: KeyOutcome)
    ensures
        final(listener)@ == old(listener)@.after(
            scan_code,
            is_key_pressed(flags),
            foreground_in_blacklist,
        ),
        outcome.intents@ == old(listener)@.intents(
            scan_code,
            is_key_pressed(flags),
            foreground_in_blacklist,
        ),
        outcome.consumed == old(listener)@.consumed(
            scan_code,
            is_key_pressed(flags),
            foreground_in_blacklist,
        ),
        outcome.consumed == old(listener)@.matches(
            scan_code,
            is_key_pressed(flags),
            foreground_in_blacklist,
        ),
{
    let pressed = flags & LLKHF_UP == 0;
    let ghost before = listener@;
    proof {
        lemma_consumed_only_if_matching(before, scan_code, pressed, foreground_in_blacklist);
    }
    if scan_code == SCANCODE_LSHIFT || scan_code == SCANCODE_RSHIFT {
        listener.is_shift_pressed = pressed;
    }
    let mut intents: Vec<SwitchIntent> = Vec::new();
    let mut is_modifier = false;
    let mut i: usize = 0;
    while i < listener.keyboard_state.len()
        invariant
            i <= before.states.len(),
            listener@.states.len() == before.states.len(),
            listener.is_shift_pressed == before.shift_after(scan_code, pressed),
            listener.previous_keycode == before.previous_keycode,
            forall|j: int|
                0 <= j < i ==> (#[trigger] listener@.states[j]) == before.states[j].after_modifier(
                    scan_code,
                    pressed,
                ),
            forall|j: int|
                i <= j < before.states.len() ==> (#[trigger] listener@.states[j])
                    == before.states[j],
            is_modifier == any_owns(before.states.take(i as int), scan_code),
            intents@ == if pressed {
                Seq::<SwitchIntent>::empty()
            } else {
                commits(before.states.take(i as int), scan_code, before.previous_keycode)
            },
        decreases before.states.len() - i,
    {
        proof {
            assert(before.states.take(i + 1).drop_last() =~= before.states.take(i as int));
            assert(before.states.take(i + 1).last() == before.states[i as int]);
            assert(listener@.states[i as int] == before.states[i as int]);
            lemma_any_owns_step(before.states, i as int, scan_code);
        }
        let ghost entering = listener.keyboard_state@;
        if listener.keyboard_state[i].hotkey.has_modifier(scan_code) {
            is_modifier = true;
            if pressed {
                listener.keyboard_state[i].is_modifier_pressed = true;
            } else {
                listener.keyboard_state[i].is_modifier_pressed = false;
                if listener.previous_keycode == listener.keyboard_state[i].hotkey.code {
                    let id = listener.keyboard_state[i].hotkey.id;
                    if id == SWITCH_APPS_HOTKEY_ID {
                        intents.push(SwitchIntent::CommitApps);
                    } else if id == SWITCH_WINDOWS_HOTKEY_ID {
                        intents.push(SwitchIntent::CommitWindows);
                    }
                }
            }
        }
        proof {
            assert(listener.keyboard_state@.len() == entering.len());
            assert forall|j: int| 0 <= j < entering.len() && j != i implies listener.keyboard_state@[j]
                == entering[j] by {}
            assert(listener.keyboard_state@[i as int].hotkey == entering[i as int].hotkey);
            assert forall|j: int| 0 <= j < i + 1 implies (#[trigger] listener@.states[j])
                == before.states[j].after_modifier(scan_code, pressed) by {
                if j < i {
                    assert(listener@.states[j] == state_views(entering)[j]);
                }
            }
            assert forall|j: int| i + 1 <= j < before.states.len() implies (
            #[trigger] listener@.states[j]) == before.states[j] by {
                assert(listener@.states[j] == state_views(entering)[j]);
            }
        }
        i += 1;
    }
    proof {
        assert(before.states.take(i as int) =~= before.states);
        assert(listener@.states =~= before.after(
            scan_code,
            pressed,
            foreground_in_blacklist,
        ).states);
    }
    if is_modifier {
        return KeyOutcome { intents, consumed: false };
    }
    proof {
        lemma_commits_need_owner(before.states, scan_code, before.previous_keycode);
    }
    if !pressed {
        return KeyOutcome { intents, consumed: false };
    }
    proof {
        assert forall|j: int| 0 <= j < before.states.len() implies listener@.states[j]
            == before.states[j] by {
            assert(!before.states[j].owns(scan_code));
        }
        assert(listener@.states =~= before.states);
    }
    let shift = listener.is_shift_pressed;
    let mut k: usize = 0;
    while k < listener.keyboard_state.len()
        invariant
            k <= before.states.len(),
            before == old(listener)@,
            pressed,
            pressed == is_key_pressed(flags),
            !before.is_modifier(scan_code),
            shift == before.shift_after(scan_code, pressed),
            listener@.states == before.states,
            listener.is_shift_pressed == shift,
            listener.previous_keycode == before.previous_keycode,
            intents@ == Seq::<SwitchIntent>::empty(),
            first_fire(before.states.take(k as int), scan_code, shift, foreground_in_blacklist)
                is None,
        decreases before.states.len() - k,
    {
        proof {
            assert(before.states.take(k + 1).drop_last() =~= before.states.take(k as int));
            assert(before.states.take(k + 1).last() == before.states[k as int]);
            assert(listener@.states[k as int] == before.states[k as int]);
        }
        match listener.keyboard_state[k].fire(scan_code, shift, foreground_in_blacklist) {
            Some(intent) => {
                proof {
                    lemma_first_fire_prefix(
                        before.states,
                        k + 1,
                        scan_code,
                        shift,
                        foreground_in_blacklist,
                    );
                    lemma_consumed_only_if_matching(
                        before,
                        scan_code,
                        pressed,
                        foreground_in_blacklist,
                    );
                    assert(listener@.states =~= before.after(
                        scan_code,
                        pressed,
                        foreground_in_blacklist,
                    ).states);
                }
                intents.push(intent);
                listener.previous_keycode = scan_code;
                assert(intents@ =~= seq![intent]);
                return KeyOutcome { intents, consumed: true };
            },
            None => {},
        }
        k += 1;
    }
    assert(before.states.take(k as int) =~= before.states);
    KeyOutcome { intents, consumed: false }
}

} // verus!

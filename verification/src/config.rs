//! The configuration surface that the engine consumes: the ordered hotkey
//! definitions and the enumeration filters of the two cycling axes.

use vstd::prelude::*;

verus! {

/// Identifier of the hotkey that cycles through the windows of one
/// application.
pub const SWITCH_WINDOWS_HOTKEY_ID: u32 = 1;

/// Identifier of the hotkey that cycles through the running applications.
pub const SWITCH_APPS_HOTKEY_ID: u32 = 2;

/// One configured hotkey: the scan codes of its modifier keys and the scan
/// code of its trigger key.
#[derive(Debug)]
pub struct Hotkey {
    pub id: u32,
    pub modifier: Vec<u32>,
    pub code: u32,
}

/// Mathematical model of a [`Hotkey`].
pub struct HotkeyView {
    pub id: u32,
    pub modifier: Seq<u32>,
    pub code: u32,
}

impl View for Hotkey {
    type V = HotkeyView;

    open spec fn view(&self) -> HotkeyView {
        HotkeyView { id: self.id, modifier: self.modifier@, code: self.code }
    }
}

impl Clone for Hotkey {
    fn clone(&self) -> (copy: Hotkey)
        ensures
            copy@ == self@,
    {
        let modifier = self.modifier.clone();
        assert(modifier@ =~= self.modifier@);
        Hotkey { id: self.id, modifier, code: self.code }
    }
}

impl Hotkey {
    /// Whether `scan_code` is one of the hotkey's modifier keys.
    pub fn has_modifier(&self, scan_code: u32) -> (found: bool)
        ensures
            found == self@.modifier.contains(scan_code),
    {
        let mut i: usize = 0;
        while i < self.modifier.len()
            invariant
                i <= self.modifier@.len(),
                forall|j: int| 0 <= j < i ==> self.modifier@[j] != scan_code,
            decreases self.modifier@.len() - i,
        {
            if self.modifier[i] == scan_code {
                return true;
            }
            i += 1;
        }
        false
    }
}

/// Maps each hotkey to its model.
pub open spec fn hotkey_views(hotkeys: Seq<Hotkey>) -> Seq<HotkeyView> {
    hotkeys.map_values(|h: Hotkey| h@)
}

/// What the engine reads from the user's configuration.
#[derive(Debug)]
pub struct Config {
    /// The hotkeys, in the order in which the matcher evaluates them.
    pub hotkeys: Vec<Hotkey>,
    pub switch_windows_ignore_minimal: bool,
    pub switch_windows_only_current_desktop: bool,
    pub switch_apps_ignore_minimal: bool,
    pub switch_apps_only_current_desktop: bool,
}

/// Mathematical model of a [`Config`].
pub struct ConfigView {
    pub hotkeys: Seq<HotkeyView>,
    pub switch_windows_ignore_minimal: bool,
    pub switch_windows_only_current_desktop: bool,
    pub switch_apps_ignore_minimal: bool,
    pub switch_apps_only_current_desktop: bool,
}

impl View for Config {
    type V = ConfigView;

    open spec fn view(&self) -> ConfigView {
        ConfigView {
            hotkeys: hotkey_views(self.hotkeys@),
            switch_windows_ignore_minimal: self.switch_windows_ignore_minimal,
            switch_windows_only_current_desktop: self.switch_windows_only_current_desktop,
            switch_apps_ignore_minimal: self.switch_apps_ignore_minimal,
            switch_apps_only_current_desktop: self.switch_apps_only_current_desktop,
        }
    }
}

impl Clone for Config {
    fn clone(&self) -> (copy: Config)
        ensures
            copy@ == self@,
    {
        let mut hotkeys: Vec<Hotkey> = Vec::new();
        let mut i: usize = 0;
        while i < self.hotkeys.len()
            invariant
                i <= self.hotkeys@.len(),
                hotkeys@.len() == i,
                forall|j: int| 0 <= j < i ==> hotkeys@[j]@ == self.hotkeys@[j]@,
            decreases self.hotkeys@.len() - i,
        {
            hotkeys.push(self.hotkeys[i].clone());
            i += 1;
        }
        assert(hotkey_views(hotkeys@) =~= hotkey_views(self.hotkeys@));
        Config {
            hotkeys,
            switch_windows_ignore_minimal: self.switch_windows_ignore_minimal,
            switch_windows_only_current_desktop: self.switch_windows_only_current_desktop,
            switch_apps_ignore_minimal: self.switch_apps_ignore_minimal,
            switch_apps_only_current_desktop: self.switch_apps_only_current_desktop,
        }
    }
}

} // verus!

//! The settings: how many entries to keep, the global shortcut, the login
//! item and whether picking also pastes.
use vstd::prelude::*;

verus! {

/// The global shortcut used until the user picks another.
pub const DEFAULT_HOTKEY: &'static str = "CmdOrCtrl+Shift+V";

/// How many entries the history keeps until the user picks another number.
pub const DEFAULT_HISTORY_SIZE: usize = 10;

/// The fewest entries the settings let the history keep.
pub const HISTORY_SIZE_MIN: usize = 1;

/// The most entries the settings let the history keep.
pub const HISTORY_SIZE_MAX: usize = 200;

/// `n` held to `HISTORY_SIZE_MIN..=HISTORY_SIZE_MAX`.
pub open spec fn clamped_history_size(n: usize) -> usize {
    if n < HISTORY_SIZE_MIN {
        HISTORY_SIZE_MIN
    } else if n > HISTORY_SIZE_MAX {
        HISTORY_SIZE_MAX
    } else {
        n
    }
}

/// The user's settings.
pub struct Config {
    /// How many clipboard entries to keep.
    pub history_size: usize,
    /// Global shortcut, e.g. "CmdOrCtrl+Shift+V".
    pub hotkey: String,
    /// Launch the app when the user logs in.
    pub start_at_login: bool,
    /// Send Ctrl/Cmd+V after picking an entry instead of only copying it.
    pub paste_on_select: bool,
}

impl Clone for Config {
    fn clone(&self) -> (r: Self)
        ensures
            r == *self,
    {
        Config {
            history_size: self.history_size,
            hotkey: self.hotkey.clone(),
            start_at_login: self.start_at_login,
            paste_on_select: self.paste_on_select,
        }
    }
}

impl Default for Config {
    /// Ten entries, the default shortcut, no login item, paste on select.
    fn default() -> (r: Self)
        ensures
            r.history_size == DEFAULT_HISTORY_SIZE,
            r.hotkey@ == DEFAULT_HOTKEY@,
            !r.start_at_login,
            r.paste_on_select,
    {
        Config {
            history_size: DEFAULT_HISTORY_SIZE,
            hotkey: String::from_str(DEFAULT_HOTKEY),
            start_at_login: false,
            paste_on_select: true,
        }
    }
}

/// Any number of entries from `HISTORY_SIZE_MIN` to `HISTORY_SIZE_MAX` is
/// kept as it is; below that the minimum is kept, above it the maximum; and
/// the result always lies in that range.
pub proof fn lemma_history_size_range(n: usize)
    ensures
        1 <= n <= 200 ==> clamped_history_size(n) == n,
        n < 1 ==> clamped_history_size(n) == 1,
        n > 200 ==> clamped_history_size(n) == 200,
        1 <= clamped_history_size(n) <= 200,
{
}

} // verus!

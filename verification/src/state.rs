//! The rotation controller's process-wide state: the original background
//! captured at startup, the configuration snapshot, the active flag, the
//! sequential cursor, the last shown path, and the last observed mode
//! flag.  It lives for the whole process and is mutated only by the tick
//! handler and the configuration-update handlers.

use vstd::prelude::*;

use crate::config::AppConfig;

verus! {

/// Everything the rotation controller remembers between ticks.
pub struct AppState {
    /// The background in effect before rotation ever activated, captured
    /// once at startup; restored on deactivation and at shutdown.
    pub initial_wallpaper: Option<String>,
    /// The configuration snapshot the controller works from.
    pub config: AppConfig,
    /// Whether rotation is currently overriding the background.
    pub random_active: bool,
    /// The mode flag as last observed, used solely to detect a mode
    /// transition between ticks.
    pub last_random_enabled: bool,
    /// The sequential cursor: the next index to show, when set.
    pub current_index: Option<usize>,
    /// The most recently applied path, tracked in both modes.
    pub last_shown: Option<String>,
}

impl AppState {
    /// Fresh state at startup: inactive, no cursor, nothing shown yet, the
    /// mode flag seeded from the initial configuration.
    pub fn new(initial_wallpaper: Option<String>, config: AppConfig) -> (s: AppState)
        ensures
            s.initial_wallpaper == initial_wallpaper,
            s.config == config,
            s.random_active == false,
            s.last_random_enabled == config.random,
            s.current_index is None,
            s.last_shown is None,
    {
        let last_random_enabled = config.random;
        AppState {
            initial_wallpaper,
            config,
            random_active: false,
            last_random_enabled,
            current_index: None,
            last_shown: None,
        }
    }

    /// Installs a just-saved configuration record, as a whole.  The
    /// remembered mode flag follows the newly saved value; the rest of
    /// the rotation state is untouched.
    pub fn apply_saved_config(&mut self, saved: AppConfig)
        ensures
            final(self).config == saved,
            final(self).last_random_enabled == saved.random,
            final(self).initial_wallpaper == old(self).initial_wallpaper,
            final(self).random_active == old(self).random_active,
            final(self).current_index == old(self).current_index,
            final(self).last_shown == old(self).last_shown,
    {
        self.last_random_enabled = saved.random;
        self.config = saved;
    }

    /// Installs an edited target list, leaving the rest of the
    /// configuration and of the state untouched.
    pub fn set_targets(&mut self, targets: Vec<String>)
        ensures
            final(self).config == (AppConfig { file_targets: targets, ..old(self).config }),
            final(self).initial_wallpaper == old(self).initial_wallpaper,
            final(self).random_active == old(self).random_active,
            final(self).last_random_enabled == old(self).last_random_enabled,
            final(self).current_index == old(self).current_index,
            final(self).last_shown == old(self).last_shown,
    {
        self.config.file_targets = targets;
    }
}

} // verus!

//! The configuration record that the rotation controller reads a snapshot of
//! on every cycle.  It mirrors the persisted settings: the tick interval,
//! optional time-of-day bounds, optional weekday and day-of-month filters,
//! the ordered list of target image paths, the selection-mode flag, and the
//! remembered window geometry.

use vstd::prelude::*;

verus! {

/// The settings the rotation controller works from.  `file_targets` is an
/// ordered list of image paths; order matters in sequential mode and
/// duplicates are suppressed when the list is edited, not when it is read.
#[derive(Debug, Clone)]
pub struct AppConfig {
    /// Seconds between ticks; `0` is read back as the default on every cycle.
    pub interval: u64,
    /// Optional inclusive lower time-of-day bound, as an `"HH:MM"` string.
    pub start_dt: Option<String>,
    /// Optional inclusive upper time-of-day bound, as an `"HH:MM"` string.
    pub end_dt: Option<String>,
    /// Optional weekday-name filter; rotation only on matching days.
    pub weekly: Option<Vec<String>>,
    /// Optional day-of-month filter; rotation only on matching days.
    pub monthly: Option<Vec<u32>>,
    /// A default background path kept in the persisted record.
    pub default_wallpaper_path: Option<String>,
    /// The ordered list of image paths eligible for selection.
    pub file_targets: Vec<String>,
    /// `true` selects random mode, `false` sequential mode.
    pub random: bool,
    /// Persisted window width, in pixels.
    pub window_width: Option<u32>,
    /// Persisted window height, in pixels.
    pub window_height: Option<u32>,
    /// Persisted minimized flag.
    pub window_minimized: Option<bool>,
}

/// The tick interval used when the configuration does not set one.
pub fn default_interval() -> (r: u64)
    ensures
        r == 60,
{
    60
}

/// The selection mode used when the configuration does not set one.
pub fn default_random() -> (r: bool)
    ensures
        r == true,
{
    true
}

impl Default for AppConfig {
    /// A configuration with no constraints, no targets, the default
    /// interval and random mode.
    fn default() -> (c: AppConfig)
        ensures
            c.interval == 60,
            c.start_dt is None,
            c.end_dt is None,
            c.weekly is None,
            c.monthly is None,
            c.default_wallpaper_path is None,
            c.file_targets@.len() == 0,
            c.random == true,
            c.window_width is None,
            c.window_height is None,
            c.window_minimized is None,
    {
        AppConfig {
            interval: default_interval(),
            start_dt: None,
            end_dt: None,
            weekly: None,
            monthly: None,
            default_wallpaper_path: None,
            file_targets: Vec::new(),
            random: default_random(),
            window_width: None,
            window_height: None,
            window_minimized: None,
        }
    }
}

/// The interval actually slept between ticks: a stored `0` means the
/// default.  The coercion is applied wherever the interval is read, on
/// every cycle, so a stored `0` never leaks out.
pub open spec fn spec_effective_interval(cfg: AppConfig) -> u64 {
    if cfg.interval == 0 {
        60
    } else {
        cfg.interval
    }
}

impl AppConfig {
    /// The seconds to sleep until the next tick.
    pub fn effective_interval(&self) -> (r: u64)
        ensures
            r == spec_effective_interval(*self),
    {
        if self.interval == 0 {
            60
        } else {
            self.interval
        }
    }
}

} // verus!

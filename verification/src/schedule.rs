//! The schedule evaluator: a pure, total decision of whether rotation is
//! allowed at a given wall-clock instant, from optional weekday,
//! day-of-month and time-of-day constraints.  A time string that does not
//! parse is treated as an absent constraint, by design.

use vstd::prelude::*;

use crate::config::AppConfig;
use crate::platform::{parse_hhmm, parse_hhmm_of};
use crate::text::{eq_ignore_ascii_case, eq_ignore_case};

verus! {

/// A day of the week.
#[derive(Clone, Copy, Debug, PartialEq, Eq, Structural)]
pub enum Weekday {
    Sun,
    Mon,
    Tue,
    Wed,
    Thu,
    Fri,
    Sat,
}

/// A snapshot of the local wall clock: everything the schedule evaluator
/// reads of "now".
#[derive(Clone, Copy, Debug, PartialEq, Eq, Structural)]
pub struct LocalTime {
    /// Today's weekday.
    pub weekday: Weekday,
    /// Today's day of the month, `1..=31`.
    pub day_of_month: u32,
    /// Seconds since local midnight, below 86400.
    pub secs_of_day: u32,
}

/// Clock snapshots that a real clock can produce.
pub open spec fn now_valid(t: LocalTime) -> bool {
    1 <= t.day_of_month <= 31 && t.secs_of_day < 86400
}

/// Which weekday a configuration string names: the seven three-letter
/// names, with the longer spellings of Tuesday and Thursday, ignoring
/// ASCII case; anything else names none.
pub open spec fn spec_weekday_of(s: Seq<char>) -> Option<Weekday> {
    if eq_ignore_case(s, "sun"@) {
        Some(Weekday::Sun)
    } else if eq_ignore_case(s, "mon"@) {
        Some(Weekday::Mon)
    } else if eq_ignore_case(s, "tue"@) || eq_ignore_case(s, "tues"@) {
        Some(Weekday::Tue)
    } else if eq_ignore_case(s, "wed"@) {
        Some(Weekday::Wed)
    } else if eq_ignore_case(s, "thu"@) || eq_ignore_case(s, "thur"@) || eq_ignore_case(
        s,
        "thurs"@,
    ) {
        Some(Weekday::Thu)
    } else if eq_ignore_case(s, "fri"@) {
        Some(Weekday::Fri)
    } else if eq_ignore_case(s, "sat"@) {
        Some(Weekday::Sat)
    } else {
        None
    }
}

/// Parses a weekday name, ignoring ASCII case.
pub fn weekday_str_to_enum(s: &str) -> (r: Option<Weekday>)
    ensures
        r == spec_weekday_of(s@),
{
    if eq_ignore_ascii_case(s, "sun") {
        Some(Weekday::Sun)
    } else if eq_ignore_ascii_case(s, "mon") {
        Some(Weekday::Mon)
    } else if eq_ignore_ascii_case(s, "tue") || eq_ignore_ascii_case(s, "tues") {
        Some(Weekday::Tue)
    } else if eq_ignore_ascii_case(s, "wed") {
        Some(Weekday::Wed)
    } else if eq_ignore_ascii_case(s, "thu") || eq_ignore_ascii_case(s, "thur")
        || eq_ignore_ascii_case(s, "thurs") {
        Some(Weekday::Thu)
    } else if eq_ignore_ascii_case(s, "fri") {
        Some(Weekday::Fri)
    } else if eq_ignore_ascii_case(s, "sat") {
        Some(Weekday::Sat)
    } else {
        None
    }
}

/// Some string in `days` names `wd`.
pub open spec fn some_weekday_matches(days: Seq<String>, wd: Weekday) -> bool {
    exists|i: int| 0 <= i < days.len() && spec_weekday_of(days[i]@) == Some(wd)
}

/// Whether some string in `days` names `wd`.
fn weekday_listed(days: &Vec<String>, wd: Weekday) -> (r: bool)
    ensures
        r == some_weekday_matches(days@, wd),
{
    let mut i: usize = 0;
    while i < days.len()
        invariant
            i <= days@.len(),
            forall|j: int| 0 <= j < i ==> spec_weekday_of(days@[j]@) != Some(wd),
        decreases days@.len() - i,
    {
        if let Some(w) = weekday_str_to_enum(days[i].as_str()) {
            if w == wd {
                assert(spec_weekday_of(days@[i as int]@) == Some(wd));
                return true;
            }
        }
        i += 1;
    }
    false
}

/// Whether `d` occurs in `days`.
fn month_day_listed(days: &Vec<u32>, d: u32) -> (r: bool)
    ensures
        r == days@.contains(d),
{
    let mut i: usize = 0;
    while i < days.len()
        invariant
            i <= days@.len(),
            forall|j: int| 0 <= j < i ==> days@[j] != d,
        decreases days@.len() - i,
    {
        if days[i] == d {
            assert(days@[i as int] == d);
            return true;
        }
        i += 1;
    }
    false
}

/// The optional bound strings, parsed: an absent or unparseable string is
/// an absent bound.
pub open spec fn spec_bound(o: Option<String>) -> Option<u32> {
    match o {
        Some(s) => parse_hhmm_of(s@),
        None => None,
    }
}

/// Whether `secs` (seconds since midnight) lies within the optional
/// inclusive time-of-day bounds.
pub open spec fn time_window_allows(secs: u32, start: Option<u32>, end: Option<u32>) -> bool {
    &&& (start matches Some(t) ==> secs >= t)
    &&& (end matches Some(t) ==> secs <= t)
}

/// The schedule evaluator's decision: every present constraint must allow
/// `now` — the weekday filter, the day-of-month filter, and the inclusive
/// time-of-day window.
pub open spec fn spec_should_run(now: LocalTime, cfg: AppConfig) -> bool {
    &&& (cfg.weekly matches Some(days) ==> some_weekday_matches(days@, now.weekday))
    &&& (cfg.monthly matches Some(days) ==> days@.contains(now.day_of_month))
    &&& time_window_allows(now.secs_of_day, spec_bound(cfg.start_dt), spec_bound(cfg.end_dt))
}

/// Decides whether rotation is allowed at `now`: pure, total, and
/// short-circuiting on the first failing constraint, in the order weekday,
/// day of month, start bound, end bound.
pub fn should_run(now: &LocalTime, cfg: &AppConfig) -> (r: bool)
    ensures
        r == spec_should_run(*now, *cfg),
{
    if let Some(days) = &cfg.weekly {
        if !weekday_listed(days, now.weekday) {
            return false;
        }
    }
    if let Some(days) = &cfg.monthly {
        if !month_day_listed(days, now.day_of_month) {
            return false;
        }
    }
    if let Some(s) = &cfg.start_dt {
        if let Some(t) = parse_hhmm(s.as_str()) {
            if now.secs_of_day < t {
                return false;
            }
        }
    }
    if let Some(s) = &cfg.end_dt {
        if let Some(t) = parse_hhmm(s.as_str()) {
            if now.secs_of_day > t {
                return false;
            }
        }
    }
    true
}

/// Law: a weekday filter that does not name today's weekday blocks
/// rotation, whatever the time of day and the other constraints.
pub proof fn lemma_weekly_mismatch_blocks(now: LocalTime, cfg: AppConfig)
    requires
        cfg.weekly matches Some(days) && !some_weekday_matches(days@, now.weekday),
    ensures
        !spec_should_run(now, cfg),
{
}

/// Law: with only a start bound set, rotation is allowed exactly from that
/// bound on — the boundary itself is allowed (the bound is inclusive).
pub proof fn lemma_start_bound_inclusive(now: LocalTime, cfg: AppConfig, t: u32)
    requires
        cfg.weekly is None,
        cfg.monthly is None,
        cfg.end_dt is None,
        cfg.start_dt matches Some(s) && parse_hhmm_of(s@) == Some(t),
    ensures
        spec_should_run(now, cfg) <==> now.secs_of_day >= t,
{
}

} // verus!

//! The trusted boundary: every call into an outside crate that the library
//! makes goes through one of the wrappers here.  Verus believes their
//! contracts; nothing else in the library is taken on trust.

use vstd::prelude::*;

use crate::schedule::{LocalTime, Weekday, now_valid};
use chrono::{Datelike, Timelike};
use rand::seq::SliceRandom;

verus! {

/// What `chrono::NaiveTime::parse_from_str` with format `"%H:%M"` returns
/// on a given string, as seconds since midnight: the result depends on the
/// string alone.
pub uninterp spec fn parse_hhmm_of(s: Seq<char>) -> Option<u32>;

/// An ASCII decimal digit.
pub open spec fn is_digit_char(c: char) -> bool {
    '0' <= c && c <= '9'
}

/// The hour named by the first two characters of an `"HH:MM"` string.
pub open spec fn hhmm_hour(s: Seq<char>) -> int {
    (s[0] as int - 48) * 10 + (s[1] as int - 48)
}

/// The minute named by the last two characters of an `"HH:MM"` string.
pub open spec fn hhmm_minute(s: Seq<char>) -> int {
    (s[3] as int - 48) * 10 + (s[4] as int - 48)
}

/// A canonical time-of-day string: exactly two digits, a colon and two
/// digits, naming an hour below 24 and a minute below 60.
pub open spec fn is_canonical_hhmm(s: Seq<char>) -> bool {
    &&& s.len() == 5
    &&& is_digit_char(s[0])
    &&& is_digit_char(s[1])
    &&& s[2] == ':'
    &&& is_digit_char(s[3])
    &&& is_digit_char(s[4])
    &&& hhmm_hour(s) < 24
    &&& hhmm_minute(s) < 60
}

/// Relies on `chrono::NaiveTime::parse_from_str` with the fixed format
/// `"%H:%M"`, and on `Timelike::num_seconds_from_midnight`: the result is a
/// function of the string alone; a canonical `"HH:MM"` string parses to
/// that hour and minute; a parsed time of day lies below 24 hours.
#[verifier::external_body]
pub(crate) fn parse_hhmm(s: &str) -> (r: Option<u32>)
    ensures
        r == parse_hhmm_of(s@),
        is_canonical_hhmm(s@) ==> r == Some((hhmm_hour(s@) * 3600 + hhmm_minute(s@) * 60) as u32),
        r matches Some(t) ==> t < 86400,
{
    match chrono::NaiveTime::parse_from_str(s, "%H:%M") {
        Ok(t) => Some(t.num_seconds_from_midnight()),
        Err(_) => None,
    }
}

/// Relies on `chrono::Local::now` and its `Datelike` and `Timelike`
/// accessors `weekday`, `day` and `time().num_seconds_from_midnight()`: a
/// day of month lies in `1..=31` and the seconds since midnight below
/// 86400.  The weekday variants are mapped one to one.
#[verifier::external_body]
pub(crate) fn now_stamp() -> (r: LocalTime)
    ensures
        now_valid(r),
{
    let now = chrono::Local::now();
    let weekday = match now.weekday() {
        chrono::Weekday::Sun => Weekday::Sun,
        chrono::Weekday::Mon => Weekday::Mon,
        chrono::Weekday::Tue => Weekday::Tue,
        chrono::Weekday::Wed => Weekday::Wed,
        chrono::Weekday::Thu => Weekday::Thu,
        chrono::Weekday::Fri => Weekday::Fri,
        chrono::Weekday::Sat => Weekday::Sat,
    };
    LocalTime { weekday, day_of_month: now.day(), secs_of_day: now.time().num_seconds_from_midnight() }
}

/// Relies on `rand::seq::SliceRandom::choose` with `rand::thread_rng`: it
/// returns `None` exactly on an empty slice and otherwise some element of
/// the slice; which one depends on the random generator, so no more is
/// assumed.
#[verifier::external_body]
pub(crate) fn choose_target(targets: &Vec<String>) -> (r: Option<String>)
    ensures
        r is Some <==> targets@.len() > 0,
        r matches Some(p) ==> exists|i: int| 0 <= i < targets@.len() && p == targets@[i],
{
    targets.as_slice().choose(&mut rand::thread_rng()).cloned()
}

/// Relies on `wallpaper::get`: a best-effort read of the platform's current
/// background, `None` on failure.  The result depends on the environment,
/// so nothing is assumed about it.
#[verifier::external_body]
pub(crate) fn query_background() -> (r: Option<String>) {
    match wallpaper::get() {
        Ok(p) => Some(p),
        Err(_) => None,
    }
}

/// Relies on `wallpaper::set_from_path`: a best-effort platform call; the
/// result only reports whether the platform accepted it.
#[verifier::external_body]
pub(crate) fn set_background(path: &String) -> (r: bool) {
    wallpaper::set_from_path(path.as_str()).is_ok()
}

} // verus!

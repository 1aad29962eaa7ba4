//! Calendar dates of timestamps.

use vstd::prelude::*;

verus! {

/// Whether the calendar has a date-time for this many milliseconds since the
/// epoch: whether `chrono::DateTime::from_timestamp_millis` returns one.
pub uninterp spec fn millis_has_date(millis: int) -> bool;

/// The date, in UTC, of this many milliseconds since the epoch, written as
/// day, month and year with hyphens between them: what
/// `chrono::DateTime::format` gives for `%d-%m-%Y`.
pub uninterp spec fn day_month_year(millis: int) -> Seq<char>;

/// Calls `chrono::DateTime::from_timestamp_millis` and, where it returns a
/// date-time, `chrono::DateTime::format` on it with `%d-%m-%Y`. Nothing is
/// proved of either: the contract only gives their results the names above.
#[verifier::external_body]
fn date_text_of_millis(millis: i64) -> (text: Option<String>)
    ensures
        text.is_some() == millis_has_date(millis as int),
        text matches Some(t) ==> t@ == day_month_year(millis as int),
{
    match chrono::DateTime::from_timestamp_millis(millis) {
        Some(date) => Some(date.format("%d-%m-%Y").to_string()),
        None => None,
    }
}

/// The greatest number of seconds that is still an `i64` in milliseconds.
pub const MAX_SECONDS: i64 = 9223372036854775;

/// Whether a timestamp in seconds has a calendar date: it must fit in
/// milliseconds, and the calendar must reach that far.
pub open spec fn seconds_have_date(seconds: int) -> bool {
    -MAX_SECONDS <= seconds <= MAX_SECONDS && millis_has_date(seconds * 1000)
}

/// A moment that has a calendar date, with that date as text.
#[derive(Debug)]
pub struct WatchDate {
    pub unix_seconds: i64,
    pub day_month_year: String,
}

impl WatchDate {
    /// The text is the date of the seconds.
    pub open spec fn wf(&self) -> bool {
        &&& seconds_have_date(self.unix_seconds as int)
        &&& self.day_month_year@ == day_month_year(self.unix_seconds * 1000)
    }
}

/// The date of a timestamp in seconds since the epoch, or nothing where the
/// timestamp has no calendar date.
pub fn unix_seconds_to_date(unix_seconds: i64) -> (date: Option<WatchDate>)
    ensures
        date.is_some() == seconds_have_date(unix_seconds as int),
        date matches Some(d) ==> d.wf() && d.unix_seconds == unix_seconds,
{
    if unix_seconds > MAX_SECONDS || unix_seconds < -MAX_SECONDS {
        return None;
    }
    match date_text_of_millis(unix_seconds * 1000) {
        Some(text) => Some(WatchDate { unix_seconds, day_month_year: text }),
        None => None,
    }
}

} // verus!

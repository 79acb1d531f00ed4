//! What a page shows of a post's date: the date in words. The calendar is
//! `chrono`'s; what is decided here is which instant, which zone and which
//! pattern.

use std::fmt::Write;
use vstd::prelude::*;
use crate::posts::Post;

verus! {

/// Seconds that the site's clock is west of Greenwich: six hours.
pub const ZONE_WEST_SECONDS: i32 = 21_600;

/// The pattern of a post's date: weekday, month, day and year in words,
/// as in `Friday, March 1, 2019`.
pub open spec fn date_pattern() -> Seq<char> {
    "%A, %B %-d, %-Y"@
}

/// The text that `chrono` writes in `pattern` for the instant `seconds`
/// and `nanos` after the Unix epoch, on the clock of a zone `west` seconds
/// west of Greenwich. `None` where the zone or the instant is out of
/// `chrono`'s range or the pattern is not one.
pub uninterp spec fn formatted_instant(
    seconds: i64,
    nanos: u32,
    west: i32,
    pattern: Seq<char>,
) -> Option<Seq<char>>;

/// Makes the zone with `chrono::FixedOffset::west_opt` and the instant
/// with `chrono::DateTime::from_timestamp`, moves the instant to the zone
/// with `DateTime::with_timezone` and writes it with `DateTime::format`.
#[verifier::external_body]
pub(crate) fn format_instant(seconds: i64, nanos: u32, west: i32, pattern: &str) -> (r: Option<
    String,
>)
    ensures
        match r {
            Some(text) => formatted_instant(seconds, nanos, west, pattern@) == Some(text@),
            None => formatted_instant(seconds, nanos, west, pattern@) is None,
        },
{
    let zone = chrono::FixedOffset::west_opt(west)?;
    let instant = chrono::DateTime::from_timestamp(seconds, nanos)?.with_timezone(&zone);
    let mut text = String::new();
    write!(text, "{}", instant.format(pattern)).ok()?;
    Some(text)
}

/// The instant of a date in milliseconds, as the calendar is asked for it:
/// whole seconds, and the milliseconds as they stand times a thousand.
pub open spec fn instant_of(date: u64) -> (i64, u32) {
    ((date / 1000) as i64, (date % 1000 * 1000) as u32)
}

impl Post {
    /// The post's date in words, on the site's clock. `None` where the
    /// date is beyond the calendar.
    pub fn render_date(&self) -> (r: Option<String>)
        ensures
            match r {
                Some(text) => formatted_instant(
                    instant_of(self.date).0,
                    instant_of(self.date).1,
                    ZONE_WEST_SECONDS,
                    date_pattern(),
                ) == Some(text@),
                None => formatted_instant(
                    instant_of(self.date).0,
                    instant_of(self.date).1,
                    ZONE_WEST_SECONDS,
                    date_pattern(),
                ) is None,
            },
    {
        let seconds: i64 = (self.date / 1000) as i64;
        let nanos: u32 = (self.date % 1000 * 1000) as u32;
        format_instant(seconds, nanos, ZONE_WEST_SECONDS, "%A, %B %-d, %-Y")
    }
}

} // verus!

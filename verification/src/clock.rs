//! What the library learns from the clock.

use chrono::Timelike;
use vstd::prelude::*;

use crate::text;

verus! {

#[verifier::external_type_specification]
#[verifier::external_body]
pub struct ExSystemTime(std::time::SystemTime);

#[verifier::external_type_specification]
#[verifier::external_body]
pub struct ExSystemTimeError(std::time::SystemTimeError);

/// `SystemTime::now`. Nothing is claimed of the moment it returns.
pub assume_specification[ std::time::SystemTime::now ]() -> std::time::SystemTime
;

/// `SystemTime::duration_since`. Nothing is claimed of the span, nor of when it fails.
pub assume_specification[ std::time::SystemTime::duration_since ](
    this: &std::time::SystemTime,
    earlier: std::time::SystemTime,
) -> Result<std::time::Duration, std::time::SystemTimeError>
;

/// `Duration::subsec_nanos`: the part of the span below a second, in nanoseconds.
pub assume_specification[ std::time::Duration::subsec_nanos ](this: &std::time::Duration) -> (nanos:
    u32)
    ensures
        nanos < 1_000_000_000,
;

/// `UNIX_EPOCH`, the moment from which the time is counted. Nothing is claimed of it.
#[verifier::external_body]
fn unix_epoch() -> std::time::SystemTime {
    std::time::UNIX_EPOCH
}

/// The nanoseconds of the current second, zero if the clock stands before 1970.
pub fn clock_nanos() -> (nanos: u32)
    ensures
        nanos < 1_000_000_000,
{
    match std::time::SystemTime::now().duration_since(unix_epoch()) {
        Ok(span) => nanos_of(Some(span.subsec_nanos())),
        Err(_) => nanos_of(None),
    }
}

/// The nanoseconds that are taken from a reading of the clock: those of the span since 1970,
/// zero where there is no such span.
pub fn nanos_of(reading: Option<u32>) -> (nanos: u32)
    ensures
        nanos == (match reading {
            Some(part) => part,
            None => 0,
        }),
{
    match reading {
        Some(part) => part,
        None => 0,
    }
}

/// A moment, as the local clock shows it.
#[derive(Debug)]
pub struct LocalMoment {
    pub hour: u32,
    pub minute: u32,
    /// Hour and minute on a clock of twelve hours, as in `09:05 PM`.
    pub clock: String,
    /// The English name of the day of the week.
    pub weekday: String,
}

/// Two decimal digits.
pub open spec fn two_digits(n: int) -> Seq<char> {
    seq![text::digit((n / 10) as nat), text::digit((n % 10) as nat)]
}

/// Hour and minute on a clock of twelve hours.
pub open spec fn clock_text(hour: u32, minute: u32) -> Seq<char> {
    let shown = if hour % 12 == 0 {
        12
    } else {
        hour as int % 12
    };
    two_digits(shown) + ":"@ + two_digits(minute as int) + (if hour < 12 {
        " AM"@
    } else {
        " PM"@
    })
}

/// Tells whether a text is the English name of a day of the week.
pub open spec fn is_weekday(s: Seq<char>) -> bool {
    ||| s == "Monday"@
    ||| s == "Tuesday"@
    ||| s == "Wednesday"@
    ||| s == "Thursday"@
    ||| s == "Friday"@
    ||| s == "Saturday"@
    ||| s == "Sunday"@
}

/// Tells whether a moment is one that a clock can show.
pub open spec fn is_moment(m: LocalMoment) -> bool {
    &&& m.hour < 24
    &&& m.minute < 60
    &&& m.clock@ == clock_text(m.hour, m.minute)
    &&& is_weekday(m.weekday@)
}

/// The current moment by the local clock, as `chrono` makes a `DateTime<Local>` of the system time:
/// its `hour` and `minute`, and the texts that its `format` makes of `%I:%M %p` and `%A`. Which
/// moment it is, is not claimed; the clock text goes with hour and minute, and the other text names
/// a day. A clock that stands before 1970 is read like any other.
#[verifier::external_body]
pub(crate) fn local_now() -> (m: LocalMoment)
    ensures
        is_moment(m),
{
    let now = chrono::DateTime::<chrono::Local>::from(std::time::SystemTime::now());
    LocalMoment {
        hour: now.hour(),
        minute: now.minute(),
        clock: now.format("%I:%M %p").to_string(),
        weekday: now.format("%A").to_string(),
    }
}

} // verus!

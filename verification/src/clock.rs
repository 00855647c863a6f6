//! Time: local wall-clock stamps, and readings of a monotonic clock.

use crate::text::digit;
use vstd::prelude::*;

verus! {

/// The last millisecond, counted from the Unix epoch, that a stamp can hold:
/// the end of the year 262142.
pub const MAX_MILLIS: i64 = 8_210_266_876_799_999;

/// The number of seconds in a day; the offset of a time zone is smaller.
pub const DAY_SECS: i32 = 86_400;

/// Nanoseconds in a second.
pub const NANOS_PER_SEC: u128 = 1_000_000_000;

/// The longest span that a monotonic clock reading can show, in nanoseconds.
pub const MAX_SPAN_NANOS: u128 = 18_446_744_073_709_551_615_999_999_999;

/// A point in time as a wall clock shows it: milliseconds since the Unix epoch,
/// and the offset of the local time zone from UTC in seconds.
#[derive(Debug, Clone, Copy, PartialEq, Eq, Structural)]
pub struct Stamp {
    millis: i64,
    offset: i32,
}

impl Stamp {
    #[verifier::type_invariant]
    spec fn in_range(self) -> bool {
        stamp_in_range(self.millis as int, self.offset as int)
    }

    /// Milliseconds since the Unix epoch.
    pub closed spec fn since_epoch(self) -> int {
        self.millis as int
    }

    /// Seconds by which local time is ahead of UTC.
    pub closed spec fn utc_offset(self) -> int {
        self.offset as int
    }

    /// The stamp is in the range that stamps have.
    pub open spec fn is_valid(self) -> bool {
        stamp_in_range(self.since_epoch(), self.utc_offset())
    }

    /// The stamp's text in the notation `fmt`.
    pub open spec fn text(self, fmt: Seq<char>) -> Seq<char> {
        match time_of_day(self.since_epoch(), self.utc_offset(), fmt) {
            Some(text) => text,
            None => formatted_time(self.since_epoch(), self.utc_offset(), fmt),
        }
    }

    /// The stamp at `millis` milliseconds since the Unix epoch in a zone that is
    /// `offset` seconds ahead of UTC, if both are in range.
    pub fn new(millis: i64, offset: i32) -> (r: Option<Stamp>)
        ensures
            r is Some <==> stamp_in_range(millis as int, offset as int),
            r matches Some(s) ==> s.since_epoch() == millis && s.utc_offset() == offset,
    {
        if 0 <= millis && millis <= MAX_MILLIS && -DAY_SECS < offset && offset < DAY_SECS {
            Some(Stamp { millis, offset })
        } else {
            None
        }
    }

    /// Milliseconds since the Unix epoch.
    pub fn millis(&self) -> (r: i64)
        ensures
            r == self.since_epoch(),
            0 <= r <= MAX_MILLIS,
    {
        proof {
            use_type_invariant(self);
        }
        self.millis
    }

    /// The time now, in the local time zone. Which time that is depends on the
    /// machine; only the range is known beforehand.
    pub fn now() -> (r: Stamp)
        ensures
            r.is_valid(),
    {
        let (millis, offset) = local_now();
        Stamp { millis, offset }
    }

    /// The stamp's text in one of the notations that the screens, the log and
    /// the files use.
    pub fn format(&self, fmt: &str) -> (r: String)
        requires
            known_notation(fmt@),
        ensures
            r@ == self.text(fmt@),
            shows_time(self.since_epoch(), self.utc_offset(), fmt@, r@),
    {
        proof {
            use_type_invariant(self);
        }
        format_time(self.millis, self.offset, fmt)
    }
}

/// What a stamp can hold.
pub open spec fn stamp_in_range(millis: int, offset: int) -> bool {
    0 <= millis <= MAX_MILLIS && -DAY_SECS < offset < DAY_SECS
}

/// The notations in which a stamp is written.
pub open spec fn known_notation(fmt: Seq<char>) -> bool {
    ||| fmt == "%H:%M"@
    ||| fmt == "%H:%M:%S"@
    ||| fmt == " │ %H:%M:%S"@
    ||| fmt == "%H:%M:%S%.3f"@
    ||| fmt == "%Y-%m-%d %H:%M:%S"@
    ||| fmt == "%Y%m%d-%H%M%S"@
}

/// The second of the local day.
pub open spec fn day_second(millis: int, offset: int) -> int {
    (millis / 1000 + offset) % (DAY_SECS as int)
}

/// A number below a hundred in two digits.
pub open spec fn two_digits(n: int) -> Seq<char> {
    seq![digit((n / 10) as nat), digit((n % 10) as nat)]
}

/// A number below a thousand in three digits.
pub open spec fn three_digits(n: int) -> Seq<char> {
    seq![digit((n / 100) as nat)] + two_digits(n % 100)
}

/// Hours and minutes of a second of the day.
pub open spec fn hours_minutes(second: int) -> Seq<char> {
    two_digits(second / 3600) + ":"@ + two_digits(second / 60 % 60)
}

/// Hours, minutes and seconds of a second of the day.
pub open spec fn hours_minutes_seconds(second: int) -> Seq<char> {
    hours_minutes(second) + ":"@ + two_digits(second % 60)
}

/// The text in a notation that shows no date.
pub open spec fn time_of_day(millis: int, offset: int, fmt: Seq<char>) -> Option<Seq<char>> {
    let second = day_second(millis, offset);
    if fmt == "%H:%M"@ {
        Some(hours_minutes(second))
    } else if fmt == "%H:%M:%S"@ {
        Some(hours_minutes_seconds(second))
    } else if fmt == " │ %H:%M:%S"@ {
        Some(" │ "@ + hours_minutes_seconds(second))
    } else if fmt == "%H:%M:%S%.3f"@ {
        Some(hours_minutes_seconds(second) + "."@ + three_digits(millis % 1000))
    } else {
        None
    }
}

/// The text ends in the given one.
pub open spec fn ends_in(text: Seq<char>, end: Seq<char>) -> bool {
    text.len() >= end.len() && text.skip(text.len() - end.len()) == end
}

/// The text shows the time of day: by itself in a notation without a date, at its
/// end in one with a date.
pub open spec fn shows_time(millis: int, offset: int, fmt: Seq<char>, text: Seq<char>) -> bool {
    let second = day_second(millis, offset);
    &&& time_of_day(millis, offset, fmt) matches Some(time) ==> text == time
    &&& fmt == "%Y-%m-%d %H:%M:%S"@ ==> ends_in(text, " "@ + hours_minutes_seconds(second))
    &&& fmt == "%Y%m%d-%H%M%S"@ ==> ends_in(
        text,
        "-"@ + two_digits(second / 3600) + two_digits(second / 60 % 60) + two_digits(second % 60),
    )
}

/// What chrono's `DateTime::format` writes, in the notation `fmt`, for the time
/// `millis` milliseconds after the Unix epoch at `offset` seconds ahead of UTC.
pub uninterp spec fn formatted_time(millis: int, offset: int, fmt: Seq<char>) -> Seq<char>;

/// chrono's `DateTime::format`, on the time that the two numbers stand for. In a
/// notation without a date it writes hours, minutes, seconds and milliseconds of
/// the local day, with leading zeros; behind a date it writes the time of day in
/// the same way. The date itself is named, not described; the whole text depends
/// on these three values only.
#[verifier::external_body]
fn format_time(millis: i64, offset: i32, fmt: &str) -> (r: String)
    requires
        stamp_in_range(millis as int, offset as int),
        known_notation(fmt@),
    ensures
        r@ == formatted_time(millis as int, offset as int, fmt@),
        shows_time(millis as int, offset as int, fmt@, r@),
{
    let zone = chrono::FixedOffset::east_opt(offset).unwrap();
    let time = chrono::DateTime::from_timestamp_millis(millis).unwrap();
    time.with_timezone(&zone).format(fmt).to_string()
}

/// chrono's `Local::now`, as milliseconds since the Unix epoch and seconds ahead
/// of UTC. Both lie in the range that chrono's types hold, and the first is not
/// negative; which time it is depends on the machine.
#[verifier::external_body]
fn local_now() -> (r: (i64, i32))
    ensures
        stamp_in_range(r.0 as int, r.1 as int),
{
    let now = chrono::Local::now();
    (now.timestamp_millis(), now.offset().local_minus_utc())
}

/// A reading of the machine's monotonic clock, opaque.
#[verifier::external_type_specification]
#[verifier::external_body]
pub struct ExInstant(std::time::Instant);

/// `Instant::now`: the monotonic clock now. Nothing is promised of the reading.
pub assume_specification[ std::time::Instant::now ]() -> std::time::Instant
;

/// `Instant::elapsed`, in nanoseconds: a span that a `Duration` can hold. How long
/// it is depends on the machine's clock, not on `origin` alone, and is left open.
#[verifier::external_body]
fn elapsed_nanos(origin: &std::time::Instant) -> (r: u128)
    ensures
        r <= MAX_SPAN_NANOS,
{
    origin.elapsed().as_nanos()
}

/// A monotonic clock that counts from the moment it was made.
pub struct Stopwatch {
    origin: std::time::Instant,
}

impl Stopwatch {
    /// A clock that starts counting now. Nothing is known of the reading it keeps.
    pub fn start() -> Stopwatch {
        Stopwatch { origin: std::time::Instant::now() }
    }

    /// Nanoseconds since the clock was started. How many depends on the machine's
    /// clock; only that a `Duration` can hold them is known beforehand.
    pub fn nanos(&self) -> (r: u128)
        ensures
            r <= MAX_SPAN_NANOS,
    {
        elapsed_nanos(&self.origin)
    }
}

} // verus!

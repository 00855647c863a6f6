//! How times are written.

use crate::clock::{
    day_second, hours_minutes, hours_minutes_seconds, stamp_in_range, three_digits,
    two_digits, Stamp, MAX_MILLIS,
};
use crate::text::digit;
use crate::text_laws::number;
use vstd::prelude::*;

verus! {

/// A stamp holds any time from the Unix epoch on that can be counted, in any zone less
/// than a day ahead of UTC or behind it.
pub proof fn stamps_hold_any_time(millis: int, offset: int)
    ensures
        stamp_in_range(millis, offset) <==> 0 <= millis <= MAX_MILLIS && -86_400 < offset < 86_400,
{
}

/// The time of the stamp, in its own zone, is the given one: hours, minutes, seconds and
/// milliseconds of some day.
pub open spec fn is_at(
    stamp: Stamp,
    day: int,
    hour: int,
    minute: int,
    second: int,
    milli: int,
) -> bool {
    &&& 0 <= hour < 24
    &&& 0 <= minute < 60
    &&& 0 <= second < 60
    &&& 0 <= milli < 1000
    &&& stamp.since_epoch() + stamp.utc_offset() * 1000 == (((day * 24 + hour) * 60 + minute) * 60
        + second) * 1000 + milli
}

proof fn two_digits_are_read_back(n: int)
    requires
        0 <= n < 100,
    ensures
        two_digits(n).len() == 2,
        number(two_digits(n)) == n,
{
    let a = seq![digit((n / 10) as nat)];
    let t = two_digits(n);
    assert(t.drop_last() =~= a);
    assert(a.drop_last() =~= seq![]);
    assert(number(seq![]) == 0);
    assert(number(a) == n / 10);
}

proof fn three_digits_are_read_back(n: int)
    requires
        0 <= n < 1000,
    ensures
        three_digits(n).len() == 3,
        number(three_digits(n)) == n,
{
    let a = seq![digit((n / 100) as nat)];
    let b = seq![digit((n / 100) as nat), digit((n % 100 / 10) as nat)];
    let t = three_digits(n);
    assert(t =~= seq![
        digit((n / 100) as nat),
        digit((n % 100 / 10) as nat),
        digit((n % 100 % 10) as nat),
    ]);
    assert(t.drop_last() =~= b);
    assert(b.drop_last() =~= a);
    assert(a.drop_last() =~= seq![]);
    assert(number(seq![]) == 0);
    assert(number(a) == n / 100);
    assert(number(b) == number(a) * 10 + n % 100 / 10);
}

proof fn day_second_of(stamp: Stamp, day: int, hour: int, minute: int, second: int, milli: int)
    requires
        is_at(stamp, day, hour, minute, second, milli),
    ensures
        day_second(stamp.since_epoch(), stamp.utc_offset()) == (hour * 60 + minute) * 60 + second,
        stamp.since_epoch() % 1000 == milli,
{
}

/// The text has hours and minutes in two digits each, with a colon between them.
pub open spec fn shows_minutes(text: Seq<char>, hour: int, minute: int) -> bool {
    &&& text.len() == 5
    &&& number(text.subrange(0, 2)) == hour
    &&& text[2] == ':'
    &&& number(text.subrange(3, 5)) == minute
}

/// The text has hours, minutes and seconds in two digits each, with colons between them.
pub open spec fn shows_seconds(text: Seq<char>, hour: int, minute: int, second: int) -> bool {
    &&& text.len() == 8
    &&& shows_minutes(text.subrange(0, 5), hour, minute)
    &&& text[5] == ':'
    &&& number(text.subrange(6, 8)) == second
}

proof fn minutes_are_shown(second: int, h: int, m: int, s: int)
    requires
        0 <= h < 24,
        0 <= m < 60,
        0 <= s < 60,
        second == (h * 60 + m) * 60 + s,
    ensures
        shows_minutes(hours_minutes(second), h, m),
        shows_seconds(hours_minutes_seconds(second), h, m, s),
{
    reveal_strlit(":");
    two_digits_are_read_back(h);
    two_digits_are_read_back(m);
    two_digits_are_read_back(s);
    assert(second / 3600 == h);
    assert(second / 60 % 60 == m);
    assert(second % 60 == s);
    let a = hours_minutes(second);
    let b = hours_minutes_seconds(second);
    assert(a.subrange(0, 2) =~= two_digits(h));
    assert(a.subrange(3, 5) =~= two_digits(m));
    assert(b.subrange(0, 5) =~= a);
    assert(b.subrange(6, 8) =~= two_digits(s));
}

/// A stamp shows the time of day in its own zone: hours and minutes in the table, seconds
/// too in the header and the detail pane, milliseconds too in the log.
pub proof fn stamps_show_the_time_of_day(
    stamp: Stamp,
    day: int,
    hour: int,
    minute: int,
    second: int,
    milli: int,
)
    requires
        is_at(stamp, day, hour, minute, second, milli),
    ensures
        shows_minutes(stamp.text("%H:%M"@), hour, minute),
        shows_seconds(stamp.text("%H:%M:%S"@), hour, minute, second),
        ({
            let text = stamp.text(" │ %H:%M:%S"@);
            &&& text.len() == 11
            &&& text.subrange(0, 3) == " │ "@
            &&& shows_seconds(text.subrange(3, 11), hour, minute, second)
        }),
        ({
            let text = stamp.text("%H:%M:%S%.3f"@);
            &&& text.len() == 12
            &&& shows_seconds(text.subrange(0, 8), hour, minute, second)
            &&& text[8] == '.'
            &&& number(text.subrange(9, 12)) == milli
        }),
{
    reveal_strlit("%H:%M");
    reveal_strlit("%H:%M:%S");
    reveal_strlit(" │ %H:%M:%S");
    reveal_strlit("%H:%M:%S%.3f");
    reveal_strlit(" │ ");
    reveal_strlit(".");
    assert("%H:%M"@.len() == 5);
    assert("%H:%M:%S"@.len() == 8);
    assert(" │ %H:%M:%S"@.len() == 11);
    assert("%H:%M:%S%.3f"@.len() == 12);
    day_second_of(stamp, day, hour, minute, second, milli);
    let at = day_second(stamp.since_epoch(), stamp.utc_offset());
    minutes_are_shown(at, hour, minute, second);
    three_digits_are_read_back(milli);
    let time = hours_minutes_seconds(at);
    let header = " │ "@ + time;
    assert(header.subrange(0, 3) =~= " │ "@);
    assert(header.subrange(3, 11) =~= time);
    let log = time + "."@ + three_digits(milli);
    assert(log.subrange(0, 8) =~= time);
    assert(log.subrange(9, 12) =~= three_digits(milli));
}

} // verus!

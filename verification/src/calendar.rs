//! The local calendar, for the start of the current day.

use chrono::{Datelike, TimeZone};
use vstd::prelude::*;

verus! {

/// Milliseconds in a day.
pub const DAY_MS: i64 = 86_400_000;

/// Whether `year` has a 29 February.
pub open spec fn is_leap(year: int) -> bool {
    year % 4 == 0 && (year % 100 != 0 || year % 400 == 0)
}

/// The days of `year` before its month `month`.
pub open spec fn days_before_month(year: int, month: int) -> int {
    let leap: int = if is_leap(year) && month > 2 {
        1
    } else {
        0
    };
    leap + if month == 1 {
        0int
    } else if month == 2 {
        31
    } else if month == 3 {
        59
    } else if month == 4 {
        90
    } else if month == 5 {
        120
    } else if month == 6 {
        151
    } else if month == 7 {
        181
    } else if month == 8 {
        212
    } else if month == 9 {
        243
    } else if month == 10 {
        273
    } else if month == 11 {
        304
    } else if month == 12 {
        334
    } else {
        365
    }
}

/// Whether the date exists in the proleptic Gregorian calendar.
pub open spec fn is_date(year: int, month: int, day: int) -> bool {
    &&& 1 <= month <= 12
    &&& 1 <= day <= days_before_month(year, month + 1) - days_before_month(year, month)
}

/// The number of the date, where 1 January 1970 has the number 0.
pub open spec fn day_number(year: int, month: int, day: int) -> int {
    let past = year - 1;
    365 * past + past / 4 - past / 100 + past / 400 - 719_162 + days_before_month(year, month) + day
        - 1
}

/// The instant, in milliseconds since the epoch, of a date and time of day in
/// UTC.
pub open spec fn utc_ms(
    year: int,
    month: int,
    day: int,
    hour: int,
    minute: int,
    second: int,
) -> int {
    1000 * (86_400 * day_number(year, month, day) + 3600 * hour + 60 * minute + second)
}

/// Every month has at least 28 days and none has more than 31. All but February
/// have 30, and January, March, May, July, August, October and December have 31.
/// February has 29 in leap years, which are every fourth year but those of a full
/// century that 400 does not divide.
pub proof fn law_lengths_of_months(year: int, month: int)
    ensures
        forall|day: int| #[trigger]
            is_date(year, month, day) ==> 1 <= month <= 12 && 1 <= day <= 31,
        1 <= month <= 12 ==> forall|day: int| 1 <= day <= 28 ==> #[trigger] is_date(year, month, day),
        is_date(year, month, 29) <==> 1 <= month <= 12 && (month != 2 || (year % 4 == 0 && (year
            % 100 != 0 || year % 400 == 0))),
        is_date(year, month, 30) <==> 1 <= month <= 12 && month != 2,
        is_date(year, month, 31) <==> month == 1 || month == 3 || month == 5 || month == 7 || month
            == 8 || month == 10 || month == 12,
{
}

/// The first day of 1970 has the number 0, and the day after each has the next
/// number: the next day of the month, or the first of the next month, or the
/// first of the next year.
pub proof fn law_days_are_numbered_in_order(year: int, month: int, day: int)
    requires
        is_date(year, month, day),
    ensures
        day_number(1970, 1, 1) == 0,
        is_date(year, month, day + 1) ==> day_number(year, month, day + 1) == day_number(
            year,
            month,
            day,
        ) + 1,
        !is_date(year, month, day + 1) && month < 12 ==> day_number(year, month + 1, 1)
            == day_number(year, month, day) + 1,
        !is_date(year, month, day + 1) && month == 12 ==> day_number(year + 1, 1, 1) == day_number(
            year,
            month,
            day,
        ) + 1,
{
    if !is_date(year, month, day + 1) && month == 12 {
        assert(day == 31);
        let past = year - 1;
        assert(year / 4 - past / 4 == if year % 4 == 0 {
            1int
        } else {
            0
        });
        assert(year / 100 - past / 100 == if year % 100 == 0 {
            1int
        } else {
            0
        });
        assert(year / 400 - past / 400 == if year % 400 == 0 {
            1int
        } else {
            0
        });
        assert(year % 400 == 0 ==> year % 100 == 0);
        assert(year % 100 == 0 ==> year % 4 == 0);
    }
}

/// An instant in UTC is as many milliseconds after that of the epoch as the days,
/// hours, minutes and seconds since then have.
pub proof fn law_instants_count_milliseconds(
    year: int,
    month: int,
    day: int,
    hour: int,
    minute: int,
    second: int,
)
    ensures
        utc_ms(1970, 1, 1, 0, 0, 0) == 0,
        utc_ms(year, month, day, 0, 0, 0) == day_number(year, month, day) * 24 * 60 * 60 * 1000,
        utc_ms(year, month, day, hour, minute, second) - utc_ms(year, month, day, 0, 0, 0) == hour
            * 60 * 60 * 1000 + minute * 60 * 1000 + second * 1000,
{
}

/// `chrono::Local::now`, and its date: the current date in the machine's time
/// zone as year, month and day. The date exists. Nothing is said of which date
/// it is, which rests on the clock and the time zone. The clock must not stand
/// before 1970.
#[verifier::external_body]
fn local_date() -> (r: (i32, u32, u32))
    ensures
        is_date(r.0 as int, r.1 as int, r.2 as int),
{
    let date = chrono::Local::now().date_naive();
    (date.year(), date.month(), date.day())
}

/// `chrono::Local.with_ymd_and_hms` where it is unambiguous: the instant, in
/// milliseconds since the epoch, at which clocks in the machine's time zone
/// show a date and time of day. There is none where the date or the time does
/// not exist. Otherwise the instant is a whole second less than a day from the
/// one at which clocks in UTC show that time. Which one it is, and whether
/// there is exactly one, rests on the time zone, and nothing is said of it.
#[verifier::external_body]
fn local_instant(
    year: i32,
    month: u32,
    day: u32,
    hour: u32,
    minute: u32,
    second: u32,
) -> (r: Option<i64>)
    ensures
        r matches Some(ms) ==> {
            &&& is_date(year as int, month as int, day as int)
            &&& hour < 24 && minute < 60 && second < 60
            &&& ms as int % 1000 == 0
            &&& -DAY_MS < ms - utc_ms(
                year as int,
                month as int,
                day as int,
                hour as int,
                minute as int,
                second as int,
            ) < DAY_MS
        },
{
    chrono::Local.with_ymd_and_hms(year, month, day, hour, minute, second).single().map(
        |t| t.timestamp_millis(),
    )
}

/// An instant as an unsigned number. One before 1970 wraps around.
pub fn unsigned_ms(ms: i64) -> (r: u64)
    ensures
        ms >= 0 ==> r == ms,
        ms < 0 ==> r == ms + 0x1_0000_0000_0000_0000,
{
    let r = #[verifier::truncate] (ms as u64);
    assert(ms >= 0 ==> r == ms) by (bit_vector)
        requires
            r == ms as u64,
    ;
    assert(ms < 0 ==> r == ms + 0x1_0000_0000_0000_0000) by (bit_vector)
        requires
            r == ms as u64,
    ;
    r
}

/// An instant, if there is one, as an unsigned number.
pub open spec fn unsigned_of(instant: Option<i64>) -> Option<int> {
    match instant {
        Some(ms) => if ms >= 0 {
            Some(ms as int)
        } else {
            Some(ms + 0x1_0000_0000_0000_0000)
        },
        None => None,
    }
}

/// An instant as an unsigned number is the instant itself from the epoch on, and
/// wraps around once before it. There is one exactly if there is an instant.
pub proof fn law_instants_wrap_around(instant: Option<i64>)
    ensures
        unsigned_of(instant) is Some <==> instant is Some,
        instant is Some ==> {
            let n = unsigned_of(instant)->0;
            &&& 0 <= n <= u64::MAX
            &&& (n - instant->0) % (u64::MAX + 1) == 0
            &&& instant->0 >= 0 ==> n == instant->0
        },
{
}

/// The start of a day as an unsigned number, where `instant` is the one instant
/// at which clocks show its midnight. There is none if and only if there is no
/// such instant.
pub fn start_of_day(instant: Option<i64>) -> (r: Option<u64>)
    ensures
        match r {
            Some(ms) => Some(ms as int),
            None => None,
        } == unsigned_of(instant),
{
    match instant {
        Some(ms) => Some(unsigned_ms(ms)),
        None => None,
    }
}

/// Whether `instant` can be what the time zone makes of midnight on a date: no
/// single instant, or a whole second less than a day from midnight in UTC.
pub open spec fn may_be_start(year: int, month: int, day: int, instant: Option<i64>) -> bool {
    instant matches Some(ms) ==> {
        &&& ms as int % 1000 == 0
        &&& -DAY_MS < ms - utc_ms(year, month, day, 0, 0, 0) < DAY_MS
    }
}

/// What the time zone makes of midnight on a date lies less than a day before or
/// after midnight on that date in UTC, on a whole second.
pub proof fn law_midnight_is_near_that_of_utc(year: int, month: int, day: int, ms: i64)
    requires
        may_be_start(year, month, day, Some(ms)),
    ensures
        ms as int % 1000 == 0,
        -24 * 60 * 60 * 1000 < ms - day_number(year, month, day) * 24 * 60 * 60 * 1000 < 24 * 60
            * 60 * 1000,
{
}

/// Whether `midnight` can be what the time zone makes of midnight on the date.
pub open spec fn may_be_midnight_of(
    year: int,
    month: int,
    day: int,
    midnight: Option<u64>,
) -> bool {
    exists|instant: Option<i64>|
        {
            &&& #[trigger] may_be_start(year, month, day, instant)
            &&& match midnight {
                Some(ms) => Some(ms as int),
                None => None,
            } == unsigned_of(instant)
        }
}

/// Whether `midnight` can be what the time zone makes of midnight on some date
/// that exists. Every instant lies near some date, so for an instant this says
/// only that it is a whole second.
pub open spec fn may_be_midnight(midnight: Option<u64>) -> bool {
    exists|year: int, month: int, day: int|
        is_date(year, month, day) && #[trigger] may_be_midnight_of(year, month, day, midnight)
}

/// Whether `date` can be what asking the clock and the time zone for the current
/// date gives.
pub closed spec fn clock_gives(date: (i32, u32, u32)) -> bool {
    call_ensures(local_date, (), date)
}

/// Whether `instant` can be what asking the time zone for midnight on the date
/// gives.
pub closed spec fn zone_gives(year: i32, month: u32, day: u32, instant: Option<i64>) -> bool {
    call_ensures(local_instant, (year, month, day, 0, 0, 0), instant)
}

/// The start of a day in local time, in milliseconds since the epoch: the
/// single instant at which clocks in the machine's time zone show midnight on
/// the date. There is none for a date that does not exist, nor where the time
/// zone skips or repeats that midnight.
pub fn midnight_of(year: i32, month: u32, day: u32) -> (r: Option<u64>)
    ensures
        exists|instant: Option<i64>| #[trigger]
            zone_gives(year, month, day, instant) && match r {
                Some(ms) => Some(ms as int),
                None => None,
            } == unsigned_of(instant),
        may_be_midnight_of(year as int, month as int, day as int, r),
        r is Some ==> is_date(year as int, month as int, day as int),
{
    let instant = local_instant(year, month, day, 0, 0, 0);
    assert(zone_gives(year, month, day, instant));
    assert(may_be_start(year as int, month as int, day as int, instant));
    start_of_day(instant)
}

/// The start of the current day in local time, in milliseconds since the epoch:
/// `midnight_of` the date that the clock and the time zone give.
pub fn midnight_today_ms() -> (r: Option<u64>)
    ensures
        exists|date: (i32, u32, u32)| #[trigger]
            clock_gives(date) && call_ensures(midnight_of, (date.0, date.1, date.2), r),
        may_be_midnight(r),
{
    let (year, month, day) = local_date();
    assert(clock_gives((year, month, day)));
    midnight_of(year, month, day)
}

} // verus!

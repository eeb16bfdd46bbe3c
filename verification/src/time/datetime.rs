//! The calendar model: a plain civil date-time, its validity, conversion
//! to and from seconds since the Unix epoch, and the fixed textual
//! renderings the rest of the crate builds on.
//!
//! Supported years run from 1600 through 3999, comfortably around every
//! timestamp the organizer recognizes.

use vstd::prelude::*;
use crate::text;

verus! {

/// First supported year.
pub const MIN_YEAR: i32 = 1600;

/// Last supported year.
pub const MAX_YEAR: i32 = 3999;

/// A civil date and time of day, naive of time zone.
#[derive(Debug, Clone, Copy, PartialEq, Eq, Structural)]
pub struct DateTime {
    pub year: i32,
    pub month: u8,
    pub day: u8,
    pub hour: u8,
    pub minute: u8,
    pub second: u8,
}

/// Gregorian leap-year rule.
pub open spec fn is_leap_year(y: int) -> bool {
    y % 4 == 0 && (y % 100 != 0 || y % 400 == 0)
}

/// Days in a month of a given year.
pub open spec fn days_in_month_spec(y: int, m: int) -> int {
    if m == 2 {
        if is_leap_year(y) {
            29
        } else {
            28
        }
    } else if m == 4 || m == 6 || m == 9 || m == 11 {
        30
    } else {
        31
    }
}

/// Days in a given year.
pub open spec fn days_in_year_spec(y: int) -> int {
    if is_leap_year(y) {
        366
    } else {
        365
    }
}

/// Days from 1970-01-01 to the first day of year `y` (negative for
/// earlier years).
pub open spec fn days_before_year(y: int) -> int
    decreases
            (if y >= 1970 {
                y - 1970
            } else {
                1970 - y
            }),
{
    if y > 1970 {
        days_before_year(y - 1) + days_in_year_spec(y - 1)
    } else if y == 1970 {
        0
    } else {
        days_before_year(y + 1) - days_in_year_spec(y)
    }
}

/// Days from the first day of year `y` to the first day of its month `m`.
pub open spec fn days_before_month(y: int, m: int) -> int
    decreases m,
{
    if m <= 1 {
        0
    } else {
        days_before_month(y, m - 1) + days_in_month_spec(y, m - 1)
    }
}

/// Day number of a date-time, counted from 1970-01-01.
pub open spec fn day_number(dt: DateTime) -> int {
    days_before_year(dt.year as int) + days_before_month(dt.year as int, dt.month as int)
        + dt.day as int - 1
}

/// Seconds from the Unix epoch to a date-time.
pub open spec fn epoch_seconds_spec(dt: DateTime) -> int {
    day_number(dt) * 86400 + dt.hour as int * 3600 + dt.minute as int * 60 + dt.second as int
}

impl DateTime {
    /// A calendar-valid date-time within the supported years.
    pub open spec fn valid(self) -> bool {
        &&& MIN_YEAR <= self.year <= MAX_YEAR
        &&& 1 <= self.month <= 12
        &&& 1 <= self.day <= days_in_month_spec(self.year as int, self.month as int)
        &&& self.hour <= 23
        &&& self.minute <= 59
        &&& self.second <= 59
    }
}

/// The earliest supported date-time.
pub open spec fn min_datetime() -> DateTime {
    DateTime { year: MIN_YEAR, month: 1, day: 1, hour: 0, minute: 0, second: 0 }
}

/// The latest supported date-time.
pub open spec fn max_datetime() -> DateTime {
    DateTime { year: MAX_YEAR, month: 12, day: 31, hour: 23, minute: 59, second: 59 }
}

/// Epoch seconds within the supported calendar range.
pub open spec fn in_supported_range(secs: int) -> bool {
    epoch_seconds_spec(min_datetime()) <= secs <= epoch_seconds_spec(max_datetime())
}

/// Whether `y` is a leap year.
pub fn is_leap(y: i32) -> (r: bool)
    ensures
        r == is_leap_year(y as int),
{
    y % 4 == 0 && (y % 100 != 0 || y % 400 == 0)
}

/// Days in month `m` of year `y`.
pub fn days_in_month(y: i32, m: u8) -> (r: u8)
    ensures
        r == days_in_month_spec(y as int, m as int),
{
    if m == 2 {
        if is_leap(y) {
            29
        } else {
            28
        }
    } else if m == 4 || m == 6 || m == 9 || m == 11 {
        30
    } else {
        31
    }
}

/// Days in year `y`.
pub fn days_in_year(y: i32) -> (r: u16)
    ensures
        r == days_in_year_spec(y as int),
{
    if is_leap(y) {
        366
    } else {
        365
    }
}

/// One year's step of the day count before a year.
pub proof fn lemma_days_before_year_step(y: int)
    ensures
        days_before_year(y + 1) == days_before_year(y) + days_in_year_spec(y),
{
    if y + 1 > 1970 {
    } else if y + 1 == 1970 {
        assert(days_before_year(1969) == days_before_year(1970) - days_in_year_spec(1969));
    } else {
        assert(days_before_year(y) == days_before_year(y + 1) - days_in_year_spec(y));
    }
}

/// Linear bounds on the day count before a year, tight enough to rule
/// out overflow in the conversions.
pub proof fn lemma_days_before_year_bounds(y: int)
    requires
        1500 <= y <= 4100,
    ensures
        y >= 1970 ==> 365 * (y - 1970) <= days_before_year(y) <= 366 * (y - 1970),
        y < 1970 ==> -366 * (1970 - y) <= days_before_year(y) <= -365 * (1970 - y),
    decreases
            (if y >= 1970 {
                y - 1970
            } else {
                1970 - y
            }),
{
    if y > 1970 {
        lemma_days_before_year_bounds(y - 1);
        lemma_days_before_year_step(y - 1);
    } else if y < 1970 {
        lemma_days_before_year_bounds(y + 1);
        lemma_days_before_year_step(y);
    }
}

/// Bounds on the day count before a month.
pub proof fn lemma_days_before_month_bounds(y: int, m: int)
    requires
        1 <= m <= 13,
    ensures
        0 <= days_before_month(y, m) <= 31 * (m - 1),
    decreases m,
{
    if m > 1 {
        lemma_days_before_month_bounds(y, m - 1);
    }
}

/// The day count before the month past December is the year's length.
pub proof fn lemma_days_before_month_full_year(y: int)
    ensures
        days_before_month(y, 13) == days_in_year_spec(y),
{
    reveal_with_fuel(days_before_month, 14);
}

impl DateTime {
    /// Seconds from the Unix epoch to this date-time.
    pub fn to_epoch_seconds(&self) -> (r: i64)
        requires
            self.valid(),
        ensures
            r == epoch_seconds_spec(*self),
    {
        let mut days: i64 = 0;
        let mut y: i32 = 1970;
        if self.year >= 1970 {
            while y < self.year
                invariant
                    1970 <= y <= self.year <= MAX_YEAR,
                    days == days_before_year(y as int),
                    0 <= days <= 366 * (y - 1970),
                decreases self.year - y,
            {
                proof {
                    lemma_days_before_year_step(y as int);
                    lemma_days_before_year_bounds(y as int);
                }
                days = days + days_in_year(y) as i64;
                y = y + 1;
                proof {
                    lemma_days_before_year_bounds(y as int);
                }
            }
        } else {
            while y > self.year
                invariant
                    MIN_YEAR <= self.year <= y <= 1970,
                    days == days_before_year(y as int),
                    -366 * (1970 - y) <= days <= 0,
                decreases y - self.year,
            {
                proof {
                    lemma_days_before_year_step(y as int - 1);
                    lemma_days_before_year_bounds(y as int - 1);
                }
                y = y - 1;
                days = days - days_in_year(y) as i64;
            }
        }
        proof {
            lemma_days_before_year_bounds(y as int);
        }
        let mut m: u8 = 1;
        let mut month_days: i64 = 0;
        while m < self.month
            invariant
                1 <= m <= self.month <= 12,
                month_days == days_before_month(self.year as int, m as int),
                0 <= month_days <= 372,
            decreases self.month - m,
        {
            proof {
                lemma_days_before_month_bounds(self.year as int, m as int + 1);
            }
            month_days = month_days + days_in_month(self.year, m) as i64;
            m = m + 1;
        }
        let total_days: i64 = days + month_days + self.day as i64 - 1;
        total_days * 86400 + self.hour as i64 * 3600 + self.minute as i64 * 60 + self.second as i64
    }
}

/// Monotone growth of the day count across whole years.
pub proof fn lemma_days_before_year_monotone(a: int, b: int)
    requires
        a <= b,
    ensures
        days_before_year(a) <= days_before_year(b),
    decreases b - a,
{
    if a < b {
        lemma_days_before_year_monotone(a, b - 1);
        lemma_days_before_year_step(b - 1);
    }
}

/// Monotone growth of the day count across months of one year.
pub proof fn lemma_days_before_month_monotone(y: int, m1: int, m2: int)
    requires
        m1 <= m2,
    ensures
        days_before_month(y, m1) <= days_before_month(y, m2),
    decreases m2 - m1,
{
    if m1 < m2 {
        lemma_days_before_month_monotone(y, m1, m2 - 1);
    }
}

/// A valid date-time's offset into its year stays below the year's
/// length.
pub proof fn lemma_day_offset_in_year(dt: DateTime)
    requires
        dt.valid(),
    ensures
        0 <= days_before_month(dt.year as int, dt.month as int) + dt.day - 1 < days_in_year_spec(
            dt.year as int,
        ),
{
    lemma_days_before_month_bounds(dt.year as int, dt.month as int);
    lemma_days_before_month_monotone(dt.year as int, dt.month as int + 1, 13);
    lemma_days_before_month_full_year(dt.year as int);
    assert(days_before_month(dt.year as int, dt.month as int + 1) == days_before_month(
        dt.year as int,
        dt.month as int,
    ) + days_in_month_spec(dt.year as int, dt.month as int));
}

/// Two valid date-times with the same epoch seconds are the same.
pub proof fn lemma_epoch_seconds_injective(a: DateTime, b: DateTime)
    requires
        a.valid(),
        b.valid(),
        epoch_seconds_spec(a) == epoch_seconds_spec(b),
    ensures
        a == b,
{
    let tod_a = a.hour as int * 3600 + a.minute as int * 60 + a.second as int;
    let tod_b = b.hour as int * 3600 + b.minute as int * 60 + b.second as int;
    assert(0 <= tod_a < 86400 && 0 <= tod_b < 86400);
    // Same day number and same time of day.
    assert(day_number(a) == day_number(b) && tod_a == tod_b) by {
        if day_number(a) > day_number(b) {
            assert(day_number(a) * 86400 >= (day_number(b) + 1) * 86400) by (nonlinear_arith)
                requires
                    day_number(a) >= day_number(b) + 1,
            ;
            assert((day_number(b) + 1) * 86400 == day_number(b) * 86400 + 86400) by (nonlinear_arith);
        }
        if day_number(b) > day_number(a) {
            assert(day_number(b) * 86400 >= (day_number(a) + 1) * 86400) by (nonlinear_arith)
                requires
                    day_number(b) >= day_number(a) + 1,
            ;
            assert((day_number(a) + 1) * 86400 == day_number(a) * 86400 + 86400) by (nonlinear_arith);
        }
    }
    // Time of day determines the three fields.
    assert(a.hour == b.hour && a.minute == b.minute && a.second == b.second) by {
        assert(0 <= (a.minute as int) * 60 + (a.second as int) < 3600);
        assert(0 <= (b.minute as int) * 60 + (b.second as int) < 3600);
    }
    // The day number determines the year.
    lemma_day_offset_in_year(a);
    lemma_day_offset_in_year(b);
    lemma_days_before_year_step(a.year as int);
    lemma_days_before_year_step(b.year as int);
    assert(a.year == b.year) by {
        if a.year < b.year {
            lemma_days_before_year_monotone(a.year as int + 1, b.year as int);
        }
        if b.year < a.year {
            lemma_days_before_year_monotone(b.year as int + 1, a.year as int);
        }
    }
    // Within the year, the month, then the day.
    assert(a.month == b.month) by {
        lemma_days_before_month_monotone(a.year as int, a.month as int + 1, 13);
        if a.month < b.month {
            lemma_days_before_month_monotone(a.year as int, a.month as int + 1, b.month as int);
        }
        if b.month < a.month {
            lemma_days_before_month_monotone(a.year as int, b.month as int + 1, a.month as int);
        }
    }
}

/// The unique valid date-time at a given epoch second, for seconds in
/// the supported range.
pub open spec fn datetime_of_epoch(secs: int) -> DateTime {
    choose|dt: DateTime| dt.valid() && epoch_seconds_spec(dt) == secs
}

/// Construct a date-time, accepting exactly the calendar-valid field
/// combinations within the supported years.
pub fn datetime_new_checked(year: i64, month: i64, day: i64, hour: i64, minute: i64, second: i64)
    -> (r: Option<DateTime>)
    ensures
        match r {
            Some(dt) => {
                &&& dt.valid()
                &&& dt.year == year
                &&& dt.month == month
                &&& dt.day == day
                &&& dt.hour == hour
                &&& dt.minute == minute
                &&& dt.second == second
            },
            None => !(MIN_YEAR <= year <= MAX_YEAR && 1 <= month <= 12 && 1 <= day
                <= days_in_month_spec(year as int, month as int) && 0 <= hour <= 23 && 0 <= minute
                <= 59 && 0 <= second <= 59),
        },
{
    if year < MIN_YEAR as i64 || year > MAX_YEAR as i64 {
        return None;
    }
    if month < 1 || month > 12 {
        return None;
    }
    let dim = days_in_month(year as i32, month as u8);
    if day < 1 || day > dim as i64 {
        return None;
    }
    if hour < 0 || hour > 23 || minute < 0 || minute > 59 || second < 0 || second > 59 {
        return None;
    }
    Some(
        DateTime {
            year: year as i32,
            month: month as u8,
            day: day as u8,
            hour: hour as u8,
            minute: minute as u8,
            second: second as u8,
        },
    )
}

/// Date-time reached by counting `secs` epoch seconds, defined for the
/// supported range.
pub fn from_epoch_seconds(secs: i64) -> (r: DateTime)
    requires
        in_supported_range(secs as int),
    ensures
        r.valid(),
        epoch_seconds_spec(r) == secs,
        r == datetime_of_epoch(secs as int),
{
    let min_dt = DateTime { year: MIN_YEAR, month: 1, day: 1, hour: 0, minute: 0, second: 0 };
    proof {
        assert(min_dt == min_datetime());
        assert(days_before_month(MIN_YEAR as int, 1) == 0);
        lemma_days_before_year_bounds(MIN_YEAR as int);
        lemma_days_before_year_bounds(MAX_YEAR as int);
        lemma_days_before_month_bounds(MAX_YEAR as int, 12);
    }
    let base = min_dt.to_epoch_seconds();
    let off: i64 = secs - base;
    let mut rem_days: i64 = off / 86400;
    let rem_secs: i64 = off % 86400;
    proof {
        vstd::arithmetic::div_mod::lemma_fundamental_div_mod(off as int, 86400);
        assert(off >= 0);
        assert(rem_days == off as int / 86400);
        assert(rem_secs == off as int % 86400);
        assert(0 <= rem_secs < 86400);
    }
    let ghost total_day: int = rem_days as int;
    proof {
        // The requires-range bound turns into a bound on whole days: the
        // day offset stays strictly below the span of the supported years.
        lemma_days_before_year_step(MAX_YEAR as int);
        lemma_days_before_month_full_year(MAX_YEAR as int);
        assert(days_before_month(MAX_YEAR as int, 13) == days_before_month(MAX_YEAR as int, 12)
            + days_in_month_spec(MAX_YEAR as int, 12));
        assert(days_before_month(MIN_YEAR as int, 1) == 0);
        let total = days_before_year(MAX_YEAR as int + 1) - days_before_year(MIN_YEAR as int);
        assert(day_number(max_datetime()) == days_before_year(MAX_YEAR as int + 1) - 1);
        assert(epoch_seconds_spec(min_datetime()) == days_before_year(MIN_YEAR as int) * 86400);
        assert(off as int <= epoch_seconds_spec(max_datetime()) - epoch_seconds_spec(
            min_datetime(),
        ));
        assert(epoch_seconds_spec(max_datetime()) == day_number(max_datetime()) * 86400 + 86399);
        assert((days_before_year(MAX_YEAR as int + 1) - 1) * 86400 == days_before_year(
            MAX_YEAR as int + 1,
        ) * 86400 - 86400) by (nonlinear_arith);
        assert((days_before_year(MAX_YEAR as int + 1) - 1 - days_before_year(MIN_YEAR as int))
            * 86400 == (days_before_year(MAX_YEAR as int + 1) - 1) * 86400 - days_before_year(
            MIN_YEAR as int,
        ) * 86400) by (nonlinear_arith);
        assert(off as int <= total * 86400 - 1);
        assert(total_day * 86400 + rem_secs == off);
        assert(total_day <= total - 1) by {
            if total_day >= total {
                assert(total_day * 86400 >= total * 86400) by (nonlinear_arith)
                    requires
                        total_day >= total,
                ;
            }
        }
    }
    let mut y: i32 = MIN_YEAR;
    while rem_days >= days_in_year(y) as i64 && y < MAX_YEAR
        invariant
            MIN_YEAR <= y <= MAX_YEAR,
            days_before_year(y as int) - days_before_year(MIN_YEAR as int) + rem_days == total_day,
            0 <= rem_days,
            total_day <= days_before_year(MAX_YEAR as int + 1) - days_before_year(MIN_YEAR as int)
                - 1,
        decreases MAX_YEAR - y,
    {
        proof {
            lemma_days_before_year_step(y as int);
            lemma_days_before_year_bounds(y as int);
            lemma_days_before_year_bounds(y as int + 1);
            lemma_days_before_year_bounds(MIN_YEAR as int);
        }
        rem_days = rem_days - days_in_year(y) as i64;
        y = y + 1;
    }
    proof {
        // Exiting with rem_days >= days_in_year(y) would only be possible at
        // y == MAX_YEAR, which the total-day bound rules out.
        if rem_days >= days_in_year_spec(y as int) {
            assert(y == MAX_YEAR);
            lemma_days_before_year_step(y as int);
            assert(false);
        }
        lemma_days_before_year_bounds(y as int);
        lemma_days_before_year_bounds(MIN_YEAR as int);
    }
    let mut m: u8 = 1;
    while rem_days >= days_in_month(y, m) as i64 && m < 12
        invariant
            1 <= m <= 12,
            days_before_month(y as int, m as int) + rem_days < days_in_year_spec(y as int),
            0 <= rem_days,
            MIN_YEAR <= y <= MAX_YEAR,
            days_before_year(y as int) - days_before_year(MIN_YEAR as int) + days_before_month(
                y as int,
                m as int,
            ) + rem_days == total_day,
        decreases 12 - m,
    {
        rem_days = rem_days - days_in_month(y, m) as i64;
        m = m + 1;
    }
    proof {
        // At m == 12 the remaining days fit inside December because the
        // year's total was never reached.
        if rem_days >= days_in_month_spec(y as int, m as int) {
            assert(m == 12);
            lemma_days_before_month_full_year(y as int);
            assert(days_before_month(y as int, 13) == days_before_month(y as int, 12)
                + days_in_month_spec(y as int, 12));
            assert(false);
        }
    }
    let day: u8 = (rem_days + 1) as u8;
    let hour: u8 = (rem_secs / 3600) as u8;
    let minute: u8 = ((rem_secs % 3600) / 60) as u8;
    let second: u8 = (rem_secs % 60) as u8;
    proof {
        vstd::arithmetic::div_mod::lemma_fundamental_div_mod(rem_secs as int, 3600);
        vstd::arithmetic::div_mod::lemma_fundamental_div_mod(rem_secs as int % 3600, 60);
        vstd::arithmetic::div_mod::lemma_mod_mod(rem_secs as int, 60, 60);
        assert(hour <= 23 && minute <= 59 && second <= 59);
    }
    let r = DateTime { year: y, month: m, day, hour, minute, second };
    proof {
        assert(r.valid());
        assert(day_number(r) == days_before_year(MIN_YEAR as int) + total_day);
        assert(day_number(min_datetime()) == days_before_year(MIN_YEAR as int));
        assert(epoch_seconds_spec(min_datetime()) == days_before_year(MIN_YEAR as int) * 86400);
        assert(rem_secs as int == hour as int * 3600 + minute as int * 60 + second as int) by {
            vstd::arithmetic::div_mod::lemma_fundamental_div_mod(rem_secs as int, 3600);
            vstd::arithmetic::div_mod::lemma_fundamental_div_mod(rem_secs as int % 3600, 60);
        }
        assert(epoch_seconds_spec(r) == (days_before_year(MIN_YEAR as int) + total_day) * 86400
            + rem_secs);
        assert((days_before_year(MIN_YEAR as int) + total_day) * 86400 == days_before_year(
            MIN_YEAR as int,
        ) * 86400 + total_day * 86400) by (nonlinear_arith);
        assert(off as int == total_day * 86400 + rem_secs);
        assert(epoch_seconds_spec(r) == secs);
        let picked = datetime_of_epoch(secs as int);
        assert(picked.valid() && epoch_seconds_spec(picked) == secs) by {
            assert(r.valid() && epoch_seconds_spec(r) == secs);
        }
        lemma_epoch_seconds_injective(r, picked);
    }
    r
}

impl DateTime {
    /// Whether this date-time is calendar-valid within the supported
    /// years.
    pub fn is_valid(&self) -> (r: bool)
        ensures
            r == self.valid(),
    {
        MIN_YEAR <= self.year && self.year <= MAX_YEAR && 1 <= self.month && self.month <= 12 && 1
            <= self.day && self.day <= days_in_month(self.year, self.month) && self.hour <= 23
            && self.minute <= 59 && self.second <= 59
    }

    /// True when this date-time is strictly after `other`, by epoch order.
    pub fn is_after(&self, other: &DateTime) -> (r: bool)
        requires
            self.valid(),
            other.valid(),
        ensures
            r == (epoch_seconds_spec(*self) > epoch_seconds_spec(*other)),
    {
        self.to_epoch_seconds() > other.to_epoch_seconds()
    }
}

/// The nineteen-character rendering `YYYY-MM-DDTHH:MM:SS`.
pub open spec fn iso_chars(dt: DateTime) -> Seq<char> {
    text::dec_pad(dt.year as int, 4) + seq!['-'] + text::dec_pad(dt.month as int, 2) + seq!['-']
        + text::dec_pad(dt.day as int, 2) + seq!['T'] + text::dec_pad(dt.hour as int, 2)
        + seq![':'] + text::dec_pad(dt.minute as int, 2) + seq![':'] + text::dec_pad(
        dt.second as int,
        2,
    )
}

/// Append the `YYYY-MM-DDTHH:MM:SS` rendering of `dt` to `out`.
pub fn push_iso_chars(out: &mut Vec<char>, dt: &DateTime)
    requires
        dt.valid(),
    ensures
        final(out)@ == old(out)@ + iso_chars(*dt),
{
    text::push_dec_pad(out, dt.year as u64, 4);
    out.push('-');
    text::push_dec_pad(out, dt.month as u64, 2);
    out.push('-');
    text::push_dec_pad(out, dt.day as u64, 2);
    out.push('T');
    text::push_dec_pad(out, dt.hour as u64, 2);
    out.push(':');
    text::push_dec_pad(out, dt.minute as u64, 2);
    out.push(':');
    text::push_dec_pad(out, dt.second as u64, 2);
    assert(out@ =~= old(out)@ + iso_chars(*dt));
}

/// Whether a nineteen-character sequence has the `YYYY-MM-DDTHH:MM:SS`
/// shape; a space is accepted in place of the `T`.
pub open spec fn iso_shape(s: Seq<char>) -> bool {
    &&& s.len() == 19
    &&& text::all_digits(s.subrange(0, 4))
    &&& s[4] == '-'
    &&& text::all_digits(s.subrange(5, 7))
    &&& s[7] == '-'
    &&& text::all_digits(s.subrange(8, 10))
    &&& (s[10] == 'T' || s[10] == ' ')
    &&& text::all_digits(s.subrange(11, 13))
    &&& s[13] == ':'
    &&& text::all_digits(s.subrange(14, 16))
    &&& s[16] == ':'
    &&& text::all_digits(s.subrange(17, 19))
}

/// What parsing a nineteen-character ISO rendering yields: the checked
/// date-time when the shape and the calendar both agree, nothing
/// otherwise.
pub open spec fn parse_iso_spec(s: Seq<char>) -> Option<DateTime> {
    if iso_shape(s) {
        let year = text::digits_val(s.subrange(0, 4));
        let month = text::digits_val(s.subrange(5, 7));
        let day = text::digits_val(s.subrange(8, 10));
        let hour = text::digits_val(s.subrange(11, 13));
        let minute = text::digits_val(s.subrange(14, 16));
        let second = text::digits_val(s.subrange(17, 19));
        if MIN_YEAR <= year <= MAX_YEAR && 1 <= month <= 12 && 1 <= day <= days_in_month_spec(
            year,
            month,
        ) && hour <= 23 && minute <= 59 && second <= 59 {
            Some(
                DateTime {
                    year: year as i32,
                    month: month as u8,
                    day: day as u8,
                    hour: hour as u8,
                    minute: minute as u8,
                    second: second as u8,
                },
            )
        } else {
            None
        }
    } else {
        None
    }
}

/// Parse the nineteen characters starting at `start` as an ISO
/// date-time.
pub fn parse_iso(s: &Vec<char>, start: usize) -> (r: Option<DateTime>)
    requires
        start + 19 <= s@.len(),
    ensures
        r == parse_iso_spec(s@.subrange(start as int, start as int + 19)),
        r matches Some(dt) ==> dt.valid(),
{
    let n = s.len();
    let ghost sub = s@.subrange(start as int, start as int + 19);
    proof {
        assert(forall|i: int| 0 <= i < 19 ==> #[trigger] sub[i] == s@[start + i]);
    }
    let seps_ok = s[start + 4] == '-' && s[start + 7] == '-' && (s[start + 10] == 'T' || s[start
        + 10] == ' ') && s[start + 13] == ':' && s[start + 16] == ':';
    let digits_ok = text::char_is_digit(s[start]) && text::char_is_digit(s[start + 1])
        && text::char_is_digit(s[start + 2]) && text::char_is_digit(s[start + 3])
        && text::char_is_digit(s[start + 5]) && text::char_is_digit(s[start + 6])
        && text::char_is_digit(s[start + 8]) && text::char_is_digit(s[start + 9])
        && text::char_is_digit(s[start + 11]) && text::char_is_digit(s[start + 12])
        && text::char_is_digit(s[start + 14]) && text::char_is_digit(s[start + 15])
        && text::char_is_digit(s[start + 17]) && text::char_is_digit(s[start + 18]);
    proof {
        if seps_ok && digits_ok {
            assert forall|i: int| 0 <= i < 4 implies text::is_digit(
                #[trigger] sub.subrange(0, 4)[i],
            ) by {
                assert(sub.subrange(0, 4)[i] == sub[i]);
                assert(i == 0 || i == 1 || i == 2 || i == 3);
            }
            assert forall|i: int| 0 <= i < 2 implies text::is_digit(
                #[trigger] sub.subrange(5, 7)[i],
            ) by {
                assert(sub.subrange(5, 7)[i] == sub[i + 5]);
                assert(i == 0 || i == 1);
            }
            assert forall|i: int| 0 <= i < 2 implies text::is_digit(
                #[trigger] sub.subrange(8, 10)[i],
            ) by {
                assert(sub.subrange(8, 10)[i] == sub[i + 8]);
                assert(i == 0 || i == 1);
            }
            assert forall|i: int| 0 <= i < 2 implies text::is_digit(
                #[trigger] sub.subrange(11, 13)[i],
            ) by {
                assert(sub.subrange(11, 13)[i] == sub[i + 11]);
                assert(i == 0 || i == 1);
            }
            assert forall|i: int| 0 <= i < 2 implies text::is_digit(
                #[trigger] sub.subrange(14, 16)[i],
            ) by {
                assert(sub.subrange(14, 16)[i] == sub[i + 14]);
                assert(i == 0 || i == 1);
            }
            assert forall|i: int| 0 <= i < 2 implies text::is_digit(
                #[trigger] sub.subrange(17, 19)[i],
            ) by {
                assert(sub.subrange(17, 19)[i] == sub[i + 17]);
                assert(i == 0 || i == 1);
            }
            assert(iso_shape(sub));
        }
        if !(seps_ok && digits_ok) && iso_shape(sub) {
            assert(text::is_digit(sub[0])) by {
                assert(sub.subrange(0, 4)[0] == sub[0]);
            }
            assert(text::is_digit(sub[1])) by {
                assert(sub.subrange(0, 4)[1] == sub[1]);
            }
            assert(text::is_digit(sub[2])) by {
                assert(sub.subrange(0, 4)[2] == sub[2]);
            }
            assert(text::is_digit(sub[3])) by {
                assert(sub.subrange(0, 4)[3] == sub[3]);
            }
            assert(text::is_digit(sub[5])) by {
                assert(sub.subrange(5, 7)[0] == sub[5]);
            }
            assert(text::is_digit(sub[6])) by {
                assert(sub.subrange(5, 7)[1] == sub[6]);
            }
            assert(text::is_digit(sub[8])) by {
                assert(sub.subrange(8, 10)[0] == sub[8]);
            }
            assert(text::is_digit(sub[9])) by {
                assert(sub.subrange(8, 10)[1] == sub[9]);
            }
            assert(text::is_digit(sub[11])) by {
                assert(sub.subrange(11, 13)[0] == sub[11]);
            }
            assert(text::is_digit(sub[12])) by {
                assert(sub.subrange(11, 13)[1] == sub[12]);
            }
            assert(text::is_digit(sub[14])) by {
                assert(sub.subrange(14, 16)[0] == sub[14]);
            }
            assert(text::is_digit(sub[15])) by {
                assert(sub.subrange(14, 16)[1] == sub[15]);
            }
            assert(text::is_digit(sub[17])) by {
                assert(sub.subrange(17, 19)[0] == sub[17]);
            }
            assert(text::is_digit(sub[18])) by {
                assert(sub.subrange(17, 19)[1] == sub[18]);
            }
            assert(false);
        }
        assert((seps_ok && digits_ok) == iso_shape(sub));
    }
    if !(seps_ok && digits_ok) {
        return None;
    }
    proof {
        assert(s@.subrange(start as int, start as int + 4) =~= sub.subrange(0, 4));
        assert(s@.subrange(start as int + 5, start as int + 7) =~= sub.subrange(5, 7));
        assert(s@.subrange(start as int + 8, start as int + 10) =~= sub.subrange(8, 10));
        assert(s@.subrange(start as int + 11, start as int + 13) =~= sub.subrange(11, 13));
        assert(s@.subrange(start as int + 14, start as int + 16) =~= sub.subrange(14, 16));
        assert(s@.subrange(start as int + 17, start as int + 19) =~= sub.subrange(17, 19));
        text::lemma_digits_val_bounds(sub.subrange(0, 4));
        text::lemma_digits_val_bounds(sub.subrange(5, 7));
        text::lemma_digits_val_bounds(sub.subrange(8, 10));
        text::lemma_digits_val_bounds(sub.subrange(11, 13));
        text::lemma_digits_val_bounds(sub.subrange(14, 16));
        text::lemma_digits_val_bounds(sub.subrange(17, 19));
        text::lemma_pow10_small();
    }
    let year = text::parse_dec_value(s, start, start + 4);
    let month = text::parse_dec_value(s, start + 5, start + 7);
    let day = text::parse_dec_value(s, start + 8, start + 10);
    let hour = text::parse_dec_value(s, start + 11, start + 13);
    let minute = text::parse_dec_value(s, start + 14, start + 16);
    let second = text::parse_dec_value(s, start + 17, start + 19);
    datetime_new_checked(
        year as i64,
        month as i64,
        day as i64,
        hour as i64,
        minute as i64,
        second as i64,
    )
}

// ---------------------------------------------------------------------
// Textual date-time grammars for metadata values
// ---------------------------------------------------------------------
/// The whitespace characters trimmed from metadata values.
pub open spec fn is_ws(c: char) -> bool {
    c == ' ' || c == '\t' || c == '\n' || c == '\r' || c == '\u{b}' || c == '\u{c}'
}

/// Drop leading whitespace.
pub open spec fn trim_start_spec(s: Seq<char>) -> Seq<char>
    decreases s.len(),
{
    if s.len() > 0 && is_ws(s[0]) {
        trim_start_spec(s.drop_first())
    } else {
        s
    }
}

/// Drop trailing whitespace.
pub open spec fn trim_end_spec(s: Seq<char>) -> Seq<char>
    decreases s.len(),
{
    if s.len() > 0 && is_ws(s.last()) {
        trim_end_spec(s.drop_last())
    } else {
        s
    }
}

/// Drop whitespace from both ends.
pub open spec fn trim_spec(s: Seq<char>) -> Seq<char> {
    trim_end_spec(trim_start_spec(s))
}

/// Trim whitespace from both ends of a character vector.
pub fn trim_chars(s: &Vec<char>) -> (r: Vec<char>)
    ensures
        r@ == trim_spec(s@),
{
    let n = s.len();
    let mut a: usize = 0;
    proof {
        assert(s@.skip(0) =~= s@);
    }
    while a < n && (s[a] == ' ' || s[a] == '\t' || s[a] == '\n' || s[a] == '\r' || s[a] == '\u{b}'
        || s[a] == '\u{c}')
        invariant
            a <= n,
            n == s@.len(),
            trim_start_spec(s@) == trim_start_spec(s@.skip(a as int)),
        decreases n - a,
    {
        proof {
            assert(s@.skip(a as int).drop_first() =~= s@.skip(a as int + 1));
        }
        a += 1;
    }
    proof {
        if a < n {
            assert(trim_start_spec(s@.skip(a as int)) == s@.skip(a as int));
        } else {
            assert(s@.skip(a as int) =~= Seq::<char>::empty());
            assert(trim_start_spec(s@.skip(a as int)) == s@.skip(a as int));
        }
    }
    let mut b: usize = n;
    proof {
        assert(s@.skip(a as int).take(n as int - a as int) =~= s@.skip(a as int));
    }
    while b > a && (s[b - 1] == ' ' || s[b - 1] == '\t' || s[b - 1] == '\n' || s[b - 1] == '\r'
        || s[b - 1] == '\u{b}' || s[b - 1] == '\u{c}')
        invariant
            a <= b <= n,
            n == s@.len(),
            trim_start_spec(s@) == s@.skip(a as int),
            trim_end_spec(s@.skip(a as int)) == trim_end_spec(
                s@.skip(a as int).take(b as int - a as int),
            ),
        decreases b,
    {
        proof {
            let cur = s@.skip(a as int).take(b as int - a as int);
            assert(cur.len() > 0 && cur.last() == s@[b as int - 1]);
            assert(cur.drop_last() =~= s@.skip(a as int).take(b as int - 1 - a as int));
        }
        b -= 1;
    }
    proof {
        let cur = s@.skip(a as int).take(b as int - a as int);
        if b > a {
            assert(cur.last() == s@[b as int - 1]);
            assert(!is_ws(cur.last()));
            assert(trim_end_spec(cur) == cur);
        } else {
            assert(cur =~= Seq::<char>::empty());
            assert(trim_end_spec(cur) == cur);
        }
    }
    let mut out: Vec<char> = Vec::new();
    let mut k: usize = a;
    while k < b
        invariant
            a <= k <= b <= n,
            n == s@.len(),
            out@ == s@.skip(a as int).take(k as int - a as int),
        decreases b - k,
    {
        out.push(s[k]);
        k += 1;
        assert(out@ =~= s@.skip(a as int).take(k as int - a as int));
    }
    out
}

/// Drop leading double quotes.
pub open spec fn strip_quotes_start(s: Seq<char>) -> Seq<char>
    decreases s.len(),
{
    if s.len() > 0 && s[0] == '"' {
        strip_quotes_start(s.drop_first())
    } else {
        s
    }
}

/// Drop trailing double quotes.
pub open spec fn strip_quotes_end(s: Seq<char>) -> Seq<char>
    decreases s.len(),
{
    if s.len() > 0 && s.last() == '"' {
        strip_quotes_end(s.drop_last())
    } else {
        s
    }
}

/// Drop double quotes from both ends.
pub open spec fn strip_quotes_spec(s: Seq<char>) -> Seq<char> {
    strip_quotes_end(strip_quotes_start(s))
}

/// Strip double quotes from both ends of a character vector.
pub fn strip_quotes(s: &Vec<char>) -> (r: Vec<char>)
    ensures
        r@ == strip_quotes_spec(s@),
{
    let n = s.len();
    let mut a: usize = 0;
    proof {
        assert(s@.skip(0) =~= s@);
    }
    while a < n && s[a] == '"'
        invariant
            a <= n,
            n == s@.len(),
            strip_quotes_start(s@) == strip_quotes_start(s@.skip(a as int)),
        decreases n - a,
    {
        proof {
            assert(s@.skip(a as int).drop_first() =~= s@.skip(a as int + 1));
        }
        a += 1;
    }
    proof {
        if a < n {
            assert(strip_quotes_start(s@.skip(a as int)) == s@.skip(a as int));
        } else {
            assert(s@.skip(a as int) =~= Seq::<char>::empty());
            assert(strip_quotes_start(s@.skip(a as int)) == s@.skip(a as int));
        }
    }
    let mut b: usize = n;
    proof {
        assert(s@.skip(a as int).take(n as int - a as int) =~= s@.skip(a as int));
    }
    while b > a && s[b - 1] == '"'
        invariant
            a <= b <= n,
            n == s@.len(),
            strip_quotes_start(s@) == s@.skip(a as int),
            strip_quotes_end(s@.skip(a as int)) == strip_quotes_end(
                s@.skip(a as int).take(b as int - a as int),
            ),
        decreases b,
    {
        proof {
            let cur = s@.skip(a as int).take(b as int - a as int);
            assert(cur.len() > 0 && cur.last() == s@[b as int - 1]);
            assert(cur.drop_last() =~= s@.skip(a as int).take(b as int - 1 - a as int));
        }
        b -= 1;
    }
    proof {
        let cur = s@.skip(a as int).take(b as int - a as int);
        if b > a {
            assert(cur.last() == s@[b as int - 1]);
            assert(strip_quotes_end(cur) == cur);
        } else {
            assert(cur =~= Seq::<char>::empty());
            assert(strip_quotes_end(cur) == cur);
        }
    }
    let mut out: Vec<char> = Vec::new();
    let mut k: usize = a;
    while k < b
        invariant
            a <= k <= b <= n,
            n == s@.len(),
            out@ == s@.skip(a as int).take(k as int - a as int),
        decreases b - k,
    {
        out.push(s[k]);
        k += 1;
        assert(out@ =~= s@.skip(a as int).take(k as int - a as int));
    }
    out
}

/// The date-time shapes a metadata value may take, tried in a fixed
/// order: colon dates as image metadata writes them (with or without a
/// fraction), then dashed and slashed dates.
#[derive(Debug, Clone, Copy, PartialEq, Eq, Structural)]
pub enum DateFormat {
    /// `YYYY:MM:DD HH:MM:SS`
    YmdColon,
    /// `YYYY:MM:DD HH:MM:SS.fff`
    YmdColonFrac,
    /// `YYYY-MM-DD HH:MM:SS`
    YmdDashSpace,
    /// `YYYY-MM-DDTHH:MM:SS`
    YmdDashT,
    /// `YYYY/MM/DD HH:MM:SS`
    YmdSlashSpace,
}

/// The nineteen-character prefix shape with the given separators.
pub open spec fn dt_shape(s: Seq<char>, date_sep: char, dt_sep: char) -> bool {
    &&& s.len() >= 19
    &&& text::all_digits(s.subrange(0, 4))
    &&& s[4] == date_sep
    &&& text::all_digits(s.subrange(5, 7))
    &&& s[7] == date_sep
    &&& text::all_digits(s.subrange(8, 10))
    &&& s[10] == dt_sep
    &&& text::all_digits(s.subrange(11, 13))
    &&& s[13] == ':'
    &&& text::all_digits(s.subrange(14, 16))
    &&& s[16] == ':'
    &&& text::all_digits(s.subrange(17, 19))
}

/// The calendar check applied to the six fields of a textual match.
pub open spec fn checked_datetime_spec(y: int, mo: int, d: int, h: int, mi: int, se: int) -> Option<
    DateTime,
> {
    if MIN_YEAR <= y <= MAX_YEAR && 1 <= mo <= 12 && 1 <= d <= days_in_month_spec(y, mo) && 0 <= h
        <= 23 && 0 <= mi <= 59 && 0 <= se <= 59 {
        Some(
            DateTime {
                year: y as i32,
                month: mo as u8,
                day: d as u8,
                hour: h as u8,
                minute: mi as u8,
                second: se as u8,
            },
        )
    } else {
        None
    }
}

/// The six field values of a nineteen-character prefix.
pub open spec fn dt_fields(s: Seq<char>) -> Option<DateTime> {
    checked_datetime_spec(
        text::digits_val(s.subrange(0, 4)),
        text::digits_val(s.subrange(5, 7)),
        text::digits_val(s.subrange(8, 10)),
        text::digits_val(s.subrange(11, 13)),
        text::digits_val(s.subrange(14, 16)),
        text::digits_val(s.subrange(17, 19)),
    )
}

/// A fraction tail: a dot followed by one to nine digits reaching the
/// end of the string.
pub open spec fn frac_tail(s: Seq<char>, from: int) -> bool {
    &&& from < s.len()
    &&& s[from] == '.'
    &&& 1 <= s.len() - (from + 1) <= 9
    &&& text::all_digits(s.subrange(from + 1, s.len() as int))
}

/// Parse one naive format: the whole string is the nineteen-character
/// shape, plus a discarded fraction where the format allows one.
pub open spec fn parse_naive_spec(
    s: Seq<char>,
    date_sep: char,
    dt_sep: char,
    allow_frac: bool,
) -> Option<DateTime> {
    if dt_shape(s, date_sep, dt_sep) && (s.len() == 19 || (allow_frac && frac_tail(s, 19))) {
        dt_fields(s)
    } else {
        None
    }
}

/// What one format reads from a trimmed value.
pub open spec fn format_spec(s: Seq<char>, f: DateFormat) -> Option<DateTime> {
    match f {
        DateFormat::YmdColon => parse_naive_spec(s, ':', ' ', false),
        DateFormat::YmdColonFrac => parse_naive_spec(s, ':', ' ', true),
        DateFormat::YmdDashSpace => parse_naive_spec(s, '-', ' ', false),
        DateFormat::YmdDashT => parse_naive_spec(s, '-', 'T', false),
        DateFormat::YmdSlashSpace => parse_naive_spec(s, '/', ' ', false),
    }
}

/// The first format in the list that accepts the value wins.
pub open spec fn parse_multi_spec(s: Seq<char>, fmts: Seq<DateFormat>) -> Option<DateTime>
    decreases fmts.len(),
{
    if fmts.len() == 0 {
        None
    } else {
        match format_spec(s, fmts[0]) {
            Some(dt) => Some(dt),
            None => parse_multi_spec(s, fmts.drop_first()),
        }
    }
}

/// The stock format list for plain date values.
pub open spec fn date_formats_seq() -> Seq<DateFormat> {
    seq![
        DateFormat::YmdColon,
        DateFormat::YmdColonFrac,
        DateFormat::YmdDashSpace,
        DateFormat::YmdDashT,
        DateFormat::YmdSlashSpace,
    ]
}

/// The stock format list for plain date values.
pub fn date_formats() -> (r: Vec<DateFormat>)
    ensures
        r@ == date_formats_seq(),
{
    let v: Vec<DateFormat> = vec![
        DateFormat::YmdColon,
        DateFormat::YmdColonFrac,
        DateFormat::YmdDashSpace,
        DateFormat::YmdDashT,
        DateFormat::YmdSlashSpace,
    ];
    proof {
        assert(v@ =~= date_formats_seq());
    }
    v
}

/// Check the nineteen-character prefix shape.
fn dt_shape_check(s: &Vec<char>, date_sep: char, dt_sep: char) -> (r: bool)
    ensures
        r == dt_shape(s@, date_sep, dt_sep),
{
    let n = s.len();
    if n < 19 {
        return false;
    }
    let seps_ok = s[4] == date_sep && s[7] == date_sep && s[10] == dt_sep && s[13] == ':' && s[16]
        == ':';
    let digits_ok = text::char_is_digit(s[0]) && text::char_is_digit(s[1]) && text::char_is_digit(
        s[2],
    ) && text::char_is_digit(s[3]) && text::char_is_digit(s[5]) && text::char_is_digit(s[6])
        && text::char_is_digit(s[8]) && text::char_is_digit(s[9]) && text::char_is_digit(s[11])
        && text::char_is_digit(s[12]) && text::char_is_digit(s[14]) && text::char_is_digit(s[15])
        && text::char_is_digit(s[17]) && text::char_is_digit(s[18]);
    proof {
        lemma_shape_pieces(s@, date_sep, dt_sep, seps_ok && digits_ok);
    }
    seps_ok && digits_ok
}

/// The elementwise shape checks agree with the subrange form.
proof fn lemma_shape_pieces(s: Seq<char>, date_sep: char, dt_sep: char, ok: bool)
    requires
        s.len() >= 19,
        ok == (s[4] == date_sep && s[7] == date_sep && s[10] == dt_sep && s[13] == ':' && s[16]
            == ':' && text::is_digit(s[0]) && text::is_digit(s[1]) && text::is_digit(s[2])
            && text::is_digit(s[3]) && text::is_digit(s[5]) && text::is_digit(s[6])
            && text::is_digit(s[8]) && text::is_digit(s[9]) && text::is_digit(s[11])
            && text::is_digit(s[12]) && text::is_digit(s[14]) && text::is_digit(s[15])
            && text::is_digit(s[17]) && text::is_digit(s[18])),
    ensures
        ok == dt_shape(s, date_sep, dt_sep),
{
    if ok {
        assert forall|i: int| 0 <= i < 4 implies text::is_digit(#[trigger] s.subrange(0, 4)[i]) by {
            assert(s.subrange(0, 4)[i] == s[i]);
            assert(i == 0 || i == 1 || i == 2 || i == 3);
        }
        assert forall|i: int| 0 <= i < 2 implies text::is_digit(#[trigger] s.subrange(5, 7)[i]) by {
            assert(s.subrange(5, 7)[i] == s[i + 5]);
            assert(i == 0 || i == 1);
        }
        assert forall|i: int| 0 <= i < 2 implies text::is_digit(#[trigger] s.subrange(8, 10)[i]) by {
            assert(s.subrange(8, 10)[i] == s[i + 8]);
            assert(i == 0 || i == 1);
        }
        assert forall|i: int| 0 <= i < 2 implies text::is_digit(
            #[trigger] s.subrange(11, 13)[i],
        ) by {
            assert(s.subrange(11, 13)[i] == s[i + 11]);
            assert(i == 0 || i == 1);
        }
        assert forall|i: int| 0 <= i < 2 implies text::is_digit(
            #[trigger] s.subrange(14, 16)[i],
        ) by {
            assert(s.subrange(14, 16)[i] == s[i + 14]);
            assert(i == 0 || i == 1);
        }
        assert forall|i: int| 0 <= i < 2 implies text::is_digit(
            #[trigger] s.subrange(17, 19)[i],
        ) by {
            assert(s.subrange(17, 19)[i] == s[i + 17]);
            assert(i == 0 || i == 1);
        }
        assert(dt_shape(s, date_sep, dt_sep));
    } else {
        if dt_shape(s, date_sep, dt_sep) {
            assert(text::is_digit(s[0])) by {
                assert(s.subrange(0, 4)[0] == s[0]);
            }
            assert(text::is_digit(s[1])) by {
                assert(s.subrange(0, 4)[1] == s[1]);
            }
            assert(text::is_digit(s[2])) by {
                assert(s.subrange(0, 4)[2] == s[2]);
            }
            assert(text::is_digit(s[3])) by {
                assert(s.subrange(0, 4)[3] == s[3]);
            }
            assert(text::is_digit(s[5])) by {
                assert(s.subrange(5, 7)[0] == s[5]);
            }
            assert(text::is_digit(s[6])) by {
                assert(s.subrange(5, 7)[1] == s[6]);
            }
            assert(text::is_digit(s[8])) by {
                assert(s.subrange(8, 10)[0] == s[8]);
            }
            assert(text::is_digit(s[9])) by {
                assert(s.subrange(8, 10)[1] == s[9]);
            }
            assert(text::is_digit(s[11])) by {
                assert(s.subrange(11, 13)[0] == s[11]);
            }
            assert(text::is_digit(s[12])) by {
                assert(s.subrange(11, 13)[1] == s[12]);
            }
            assert(text::is_digit(s[14])) by {
                assert(s.subrange(14, 16)[0] == s[14]);
            }
            assert(text::is_digit(s[15])) by {
                assert(s.subrange(14, 16)[1] == s[15]);
            }
            assert(text::is_digit(s[17])) by {
                assert(s.subrange(17, 19)[0] == s[17]);
            }
            assert(text::is_digit(s[18])) by {
                assert(s.subrange(17, 19)[1] == s[18]);
            }
            assert(false);
        }
    }
}

/// Parse the six fields of a checked nineteen-character prefix.
fn dt_fields_parse(s: &Vec<char>) -> (r: Option<DateTime>)
    requires
        s@.len() >= 19,
        dt_shape(s@, s@[4], s@[10]),
    ensures
        r == dt_fields(s@),
        r matches Some(dt) ==> dt.valid(),
{
    proof {
        text::lemma_pow10_small();
        text::lemma_digits_val_bounds(s@.subrange(0, 4));
        text::lemma_digits_val_bounds(s@.subrange(5, 7));
        text::lemma_digits_val_bounds(s@.subrange(8, 10));
        text::lemma_digits_val_bounds(s@.subrange(11, 13));
        text::lemma_digits_val_bounds(s@.subrange(14, 16));
        text::lemma_digits_val_bounds(s@.subrange(17, 19));
        assert forall|i: int| 0 <= i < 4 implies text::is_digit(#[trigger] s@[i]) by {
            assert(s@.subrange(0, 4)[i] == s@[i]);
        }
        assert forall|i: int| 5 <= i < 7 implies text::is_digit(#[trigger] s@[i]) by {
            assert(s@.subrange(5, 7)[i - 5] == s@[i]);
        }
        assert forall|i: int| 8 <= i < 10 implies text::is_digit(#[trigger] s@[i]) by {
            assert(s@.subrange(8, 10)[i - 8] == s@[i]);
        }
        assert forall|i: int| 11 <= i < 13 implies text::is_digit(#[trigger] s@[i]) by {
            assert(s@.subrange(11, 13)[i - 11] == s@[i]);
        }
        assert forall|i: int| 14 <= i < 16 implies text::is_digit(#[trigger] s@[i]) by {
            assert(s@.subrange(14, 16)[i - 14] == s@[i]);
        }
        assert forall|i: int| 17 <= i < 19 implies text::is_digit(#[trigger] s@[i]) by {
            assert(s@.subrange(17, 19)[i - 17] == s@[i]);
        }
    }
    let year = text::parse_dec_value(s, 0, 4);
    let month = text::parse_dec_value(s, 5, 7);
    let day = text::parse_dec_value(s, 8, 10);
    let hour = text::parse_dec_value(s, 11, 13);
    let minute = text::parse_dec_value(s, 14, 16);
    let second = text::parse_dec_value(s, 17, 19);
    datetime_new_checked(
        year as i64,
        month as i64,
        day as i64,
        hour as i64,
        minute as i64,
        second as i64,
    )
}

/// Parse one naive format against the whole vector.
fn parse_naive(s: &Vec<char>, date_sep: char, dt_sep: char, allow_frac: bool) -> (r: Option<
    DateTime,
>)
    ensures
        r == parse_naive_spec(s@, date_sep, dt_sep, allow_frac),
        r matches Some(dt) ==> dt.valid(),
{
    if !dt_shape_check(s, date_sep, dt_sep) {
        return None;
    }
    let n = s.len();
    let tail_ok: bool;
    if n == 19 {
        tail_ok = true;
    } else if allow_frac && n >= 21 && n <= 29 && s[19] == '.' {
        let mut k: usize = 20;
        let mut digits = true;
        while k < n
            invariant
                20 <= k <= n,
                n == s@.len(),
                digits == (forall|j: int| 20 <= j < k ==> text::is_digit(#[trigger] s@[j])),
            decreases n - k,
        {
            digits = digits && text::char_is_digit(s[k]);
            k += 1;
        }
        tail_ok = digits;
        proof {
            if digits {
                assert forall|i: int| 0 <= i < n - 20 implies text::is_digit(
                    #[trigger] s@.subrange(20, n as int)[i],
                ) by {
                    assert(s@.subrange(20, n as int)[i] == s@[i + 20]);
                }
                assert(frac_tail(s@, 19));
            } else {
                if frac_tail(s@, 19) {
                    assert forall|j: int| 20 <= j < n implies text::is_digit(#[trigger] s@[j]) by {
                        assert(s@.subrange(20, n as int)[j - 20] == s@[j]);
                    }
                    assert(false);
                }
            }
        }
    } else {
        tail_ok = false;
        proof {
            if allow_frac && frac_tail(s@, 19) {
                assert(s@[19] == '.');
                assert(1 <= s@.len() - 20 <= 9);
                assert(21 <= n <= 29);
                assert(false);
            }
        }
    }
    if !tail_ok {
        return None;
    }
    dt_fields_parse(s)
}

/// Try each format against a value, first hit wins.
pub fn parse_multi(s: &str, formats: &Vec<DateFormat>) -> (r: Option<DateTime>)
    ensures
        r == parse_multi_spec(trim_spec(s@), formats@),
        r matches Some(dt) ==> dt.valid(),
{
    let chars = text::str_to_chars(s);
    let t = trim_chars(&chars);
    parse_multi_on(&t, formats)
}

/// Try each format against an already-trimmed vector.
fn parse_multi_on(t: &Vec<char>, formats: &Vec<DateFormat>) -> (r: Option<DateTime>)
    ensures
        r == parse_multi_spec(t@, formats@),
        r matches Some(dt) ==> dt.valid(),
{
    let n = formats.len();
    let mut i: usize = 0;
    proof {
        assert(formats@.skip(0) =~= formats@);
    }
    while i < n
        invariant
            i <= n,
            n == formats@.len(),
            parse_multi_spec(t@, formats@) == parse_multi_spec(t@, formats@.skip(i as int)),
        decreases n - i,
    {
        let f = formats[i];
        let r = match f {
            DateFormat::YmdColon => parse_naive(t, ':', ' ', false),
            DateFormat::YmdColonFrac => parse_naive(t, ':', ' ', true),
            DateFormat::YmdDashSpace => parse_naive(t, '-', ' ', false),
            DateFormat::YmdDashT => parse_naive(t, '-', 'T', false),
            DateFormat::YmdSlashSpace => parse_naive(t, '/', ' ', false),
        };
        proof {
            assert(formats@.skip(i as int)[0] == formats@[i as int]);
            assert(formats@.skip(i as int).drop_first() =~= formats@.skip(i as int + 1));
        }
        if let Some(dt) = r {
            return Some(dt);
        }
        i += 1;
    }
    proof {
        assert(formats@.skip(i as int).len() == 0);
    }
    None
}

/// Parse an image-metadata date value: trimmed, stripped of quotes, and
/// held against the stock formats.
pub fn parse_exif(s: &str) -> (r: Option<DateTime>)
    ensures
        r == parse_multi_spec(
            trim_spec(strip_quotes_spec(trim_spec(s@))),
            date_formats_seq(),
        ),
        r matches Some(dt) ==> dt.valid(),
{
    let chars = text::str_to_chars(s);
    let t = trim_chars(&strip_quotes(&trim_chars(&chars)));
    let formats = date_formats();
    parse_multi_on(&t, &formats)
}

/// Numeric bounds on the epoch seconds of any valid date-time, used to
/// rule out machine overflow around epoch arithmetic.
pub proof fn lemma_epoch_bounds(dt: DateTime)
    requires
        dt.valid(),
    ensures
        -12000000000 <= epoch_seconds_spec(dt) <= 65000000000,
{
    lemma_days_before_year_bounds(dt.year as int);
    lemma_days_before_month_bounds(dt.year as int, dt.month as int);
    assert(-135420 <= day_number(dt) <= 742985);
    assert(day_number(dt) * 86400 >= (-135420) * 86400) by (nonlinear_arith)
        requires
            day_number(dt) >= -135420,
    ;
    assert(day_number(dt) * 86400 <= 742985 * 86400) by (nonlinear_arith)
        requires
            day_number(dt) <= 742985,
    ;
}

/// Count of consecutive digits starting at `p`.
pub open spec fn digit_run(s: Seq<char>, p: int) -> int
    decreases s.len() - p,
{
    if 0 <= p < s.len() && text::is_digit(s[p]) {
        1 + digit_run(s, p + 1)
    } else {
        0
    }
}

/// A digit run stays within the sequence.
pub proof fn lemma_digit_run_range(s: Seq<char>, p: int)
    requires
        0 <= p <= s.len(),
    ensures
        0 <= digit_run(s, p) <= s.len() - p,
        forall|j: int| p <= j < p + digit_run(s, p) ==> text::is_digit(#[trigger] s[j]),
    decreases s.len() - p,
{
    if 0 <= p < s.len() && text::is_digit(s[p]) {
        lemma_digit_run_range(s, p + 1);
    }
}

/// Count consecutive digits starting at `p`.
fn digit_run_exec(s: &Vec<char>, p: usize) -> (r: usize)
    requires
        p <= s@.len(),
    ensures
        r == digit_run(s@, p as int),
        p + r <= s@.len(),
{
    let n = s.len();
    let mut q = p;
    while q < n && text::char_is_digit(s[q])
        invariant
            p <= q <= n,
            n == s@.len(),
            digit_run(s@, p as int) == q - p + digit_run(s@, q as int),
        decreases n - q,
    {
        q += 1;
    }
    proof {
        assert(digit_run(s@, q as int) == 0);
    }
    q - p
}

/// The timezone tail of an offset value: `Z`, `z`, `+HH:MM`, `-HH:MM`,
/// `+HHMM` or `-HHMM`, filling the rest of the string; hours to 23,
/// minutes to 59. The result is the offset in seconds.
pub open spec fn tz_tail_spec(s: Seq<char>, q: int) -> Option<int> {
    if !(0 <= q < s.len()) {
        None
    } else if (s[q] == 'Z' || s[q] == 'z') && q + 1 == s.len() {
        Some(0)
    } else if s[q] == '+' || s[q] == '-' {
        let sign: int = if s[q] == '+' {
            1
        } else {
            -1
        };
        if s.len() - q == 6 && s[q + 3] == ':' && text::all_digits(s.subrange(q + 1, q + 3))
            && text::all_digits(s.subrange(q + 4, q + 6)) {
            let hh = text::digits_val(s.subrange(q + 1, q + 3));
            let mm = text::digits_val(s.subrange(q + 4, q + 6));
            if hh <= 23 && mm <= 59 {
                Some(sign * (hh * 3600 + mm * 60))
            } else {
                None
            }
        } else if s.len() - q == 5 && text::all_digits(s.subrange(q + 1, q + 5)) {
            let hh = text::digits_val(s.subrange(q + 1, q + 3));
            let mm = text::digits_val(s.subrange(q + 3, q + 5));
            if hh <= 23 && mm <= 59 {
                Some(sign * (hh * 3600 + mm * 60))
            } else {
                None
            }
        } else {
            None
        }
    } else {
        None
    }
}

/// Parse the timezone tail starting at `q`.
fn tz_tail(s: &Vec<char>, q: usize) -> (r: Option<i64>)
    requires
        q <= s@.len(),
    ensures
        match r {
            Some(off) => tz_tail_spec(s@, q as int) == Some(off as int) && -86400 < off < 86400,
            None => tz_tail_spec(s@, q as int) is None,
        },
{
    let n = s.len();
    if q >= n {
        return None;
    }
    let c = s[q];
    if (c == 'Z' || c == 'z') && q + 1 == n {
        return Some(0);
    }
    if c == '+' || c == '-' {
        let sign: i64 = if c == '+' {
            1
        } else {
            -1
        };
        if n - q == 6 && s[q + 3] == ':' && digits_at_check(s, q + 1, 2) && digits_at_check(
            s,
            q + 4,
            2,
        ) {
            proof {
                assert forall|j: int| q + 1 <= j < q + 3 implies text::is_digit(
                    #[trigger] s@[j],
                ) by {
                    assert(s@.subrange(q as int + 1, q as int + 3)[j - q - 1] == s@[j]);
                }
                assert forall|j: int| q + 4 <= j < q + 6 implies text::is_digit(
                    #[trigger] s@[j],
                ) by {
                    assert(s@.subrange(q as int + 4, q as int + 6)[j - q - 4] == s@[j]);
                }
            }
            let hh = text::parse_dec_value(s, q + 1, q + 3);
            let mm = text::parse_dec_value(s, q + 4, q + 6);
            proof {
                text::lemma_pow10_small();
                text::lemma_digits_val_bounds(s@.subrange(q as int + 1, q as int + 3));
                text::lemma_digits_val_bounds(s@.subrange(q as int + 4, q as int + 6));
            }
            if hh <= 23 && mm <= 59 {
                return Some(sign * (hh as i64 * 3600 + mm as i64 * 60));
            } else {
                return None;
            }
        }
        if n - q == 5 && digits_at_check(s, q + 1, 4) {
            proof {
                assert forall|j: int| q + 1 <= j < q + 5 implies text::is_digit(
                    #[trigger] s@[j],
                ) by {
                    assert(s@.subrange(q as int + 1, q as int + 5)[j - q - 1] == s@[j]);
                }
                assert forall|j: int| 0 <= j < 2 implies text::is_digit(
                    #[trigger] s@.subrange(q as int + 1, q as int + 3)[j],
                ) by {
                    assert(s@.subrange(q as int + 1, q as int + 3)[j] == s@[q + 1 + j]);
                }
                assert forall|j: int| 0 <= j < 2 implies text::is_digit(
                    #[trigger] s@.subrange(q as int + 3, q as int + 5)[j],
                ) by {
                    assert(s@.subrange(q as int + 3, q as int + 5)[j] == s@[q + 3 + j]);
                }
            }
            let hh = text::parse_dec_value(s, q + 1, q + 3);
            let mm = text::parse_dec_value(s, q + 3, q + 5);
            proof {
                text::lemma_pow10_small();
                text::lemma_digits_val_bounds(s@.subrange(q as int + 1, q as int + 3));
                text::lemma_digits_val_bounds(s@.subrange(q as int + 3, q as int + 5));
            }
            if hh <= 23 && mm <= 59 {
                return Some(sign * (hh as i64 * 3600 + mm as i64 * 60));
            } else {
                return None;
            }
        }
        return None;
    }
    None
}

/// Check `n` consecutive digits at `i`, against the subrange form.
fn digits_at_check(s: &Vec<char>, i: usize, n: usize) -> (r: bool)
    requires
        i + n <= s@.len(),
    ensures
        r == text::all_digits(s@.subrange(i as int, i as int + n as int)),
{
    let len = s.len();
    let mut k: usize = 0;
    let mut ok = true;
    while k < n
        invariant
            k <= n,
            i + n <= len,
            len == s@.len(),
            ok == (forall|j: int| i <= j < i + k ==> text::is_digit(#[trigger] s@[j])),
        decreases n - k,
    {
        ok = ok && text::char_is_digit(s[i + k]);
        k += 1;
    }
    proof {
        if ok {
            assert forall|j: int| 0 <= j < n implies text::is_digit(
                #[trigger] s@.subrange(i as int, i as int + n as int)[j],
            ) by {
                assert(s@.subrange(i as int, i as int + n as int)[j] == s@[i + j]);
            }
        } else {
            if text::all_digits(s@.subrange(i as int, i as int + n as int)) {
                assert forall|j: int| i <= j < i + n implies text::is_digit(#[trigger] s@[j]) by {
                    assert(s@.subrange(i as int, i as int + n as int)[j - i] == s@[j]);
                }
                assert(false);
            }
        }
    }
    ok
}

/// An offset-carrying value rendered back to universal time: the
/// nineteen-character shape with `T` or `t`, an optional fraction, and
/// a timezone tail. The local fields must be calendar-valid and the
/// shifted instant must stay within the supported years.
pub open spec fn parse_offset_utc_spec(s: Seq<char>) -> Option<DateTime> {
    if s.len() >= 20 && (dt_shape(s, '-', 'T') || dt_shape(s, '-', 't')) {
        let q = if s.len() > 20 && s[19] == '.' && digit_run(s, 20) >= 1 {
            20 + digit_run(s, 20)
        } else {
            19
        };
        let frac_ok = q == 19 || 1 <= digit_run(s, 20) <= 9;
        match tz_tail_spec(s, q) {
            Some(off) => if frac_ok {
                match dt_fields(s) {
                    Some(local) => {
                        let utc = epoch_seconds_spec(local) - off;
                        if in_supported_range(utc) {
                            Some(datetime_of_epoch(utc))
                        } else {
                            None
                        }
                    },
                    None => None,
                }
            } else {
                None
            },
            None => None,
        }
    } else {
        None
    }
}

/// Parse an offset-carrying value into universal time.
pub fn parse_offset_utc(s: &Vec<char>) -> (r: Option<DateTime>)
    ensures
        r == parse_offset_utc_spec(s@),
        r matches Some(dt) ==> dt.valid(),
{
    let n = s.len();
    if n < 20 {
        return None;
    }
    let shape_t = dt_shape_check(s, '-', 'T');
    let shape_lt = dt_shape_check(s, '-', 't');
    if !shape_t && !shape_lt {
        return None;
    }
    let run: usize = if n > 20 && s[19] == '.' {
        digit_run_exec(s, 20)
    } else {
        0
    };
    let q: usize = if n > 20 && s[19] == '.' && run >= 1 {
        20 + run
    } else {
        19
    };
    let frac_ok = q == 19 || (run >= 1 && run <= 9);
    let off = match tz_tail(s, q) {
        Some(off) => off,
        None => {
            return None;
        },
    };
    if !frac_ok {
        return None;
    }
    let local = match dt_fields_parse(s) {
        Some(local) => local,
        None => {
            return None;
        },
    };
    proof {
        lemma_epoch_bounds(local);
    }
    let local_epoch = local.to_epoch_seconds();
    let utc = local_epoch - off;
    let min_dt = DateTime { year: MIN_YEAR, month: 1, day: 1, hour: 0, minute: 0, second: 0 };
    let max_dt = DateTime { year: MAX_YEAR, month: 12, day: 31, hour: 23, minute: 59, second: 59 };
    proof {
        assert(min_dt == min_datetime());
        assert(max_dt == max_datetime());
        assert(days_in_month_spec(MIN_YEAR as int, 1) == 31);
        assert(days_in_month_spec(MAX_YEAR as int, 12) == 31);
    }
    let lo = min_dt.to_epoch_seconds();
    let hi = max_dt.to_epoch_seconds();
    if lo <= utc && utc <= hi {
        Some(from_epoch_seconds(utc))
    } else {
        None
    }
}

/// A date-only value `YYYY-MM-DD`, read as midnight.
pub open spec fn parse_date_only_spec(s: Seq<char>) -> Option<DateTime> {
    if s.len() == 10 && text::all_digits(s.subrange(0, 4)) && s[4] == '-' && text::all_digits(
        s.subrange(5, 7),
    ) && s[7] == '-' && text::all_digits(s.subrange(8, 10)) {
        checked_datetime_spec(
            text::digits_val(s.subrange(0, 4)),
            text::digits_val(s.subrange(5, 7)),
            text::digits_val(s.subrange(8, 10)),
            0,
            0,
            0,
        )
    } else {
        None
    }
}

/// Parse a date-only value.
fn parse_date_only(s: &Vec<char>) -> (r: Option<DateTime>)
    ensures
        r == parse_date_only_spec(s@),
        r matches Some(dt) ==> dt.valid(),
{
    let n = s.len();
    if n != 10 {
        return None;
    }
    if !(s[4] == '-' && s[7] == '-') {
        return None;
    }
    if !(digits_at_check(s, 0, 4) && digits_at_check(s, 5, 2) && digits_at_check(s, 8, 2)) {
        return None;
    }
    proof {
        text::lemma_pow10_small();
        text::lemma_digits_val_bounds(s@.subrange(0, 4));
        text::lemma_digits_val_bounds(s@.subrange(5, 7));
        text::lemma_digits_val_bounds(s@.subrange(8, 10));
        assert forall|j: int| 0 <= j < 4 implies text::is_digit(#[trigger] s@[j]) by {
            assert(s@.subrange(0, 4)[j] == s@[j]);
        }
        assert forall|j: int| 5 <= j < 7 implies text::is_digit(#[trigger] s@[j]) by {
            assert(s@.subrange(5, 7)[j - 5] == s@[j]);
        }
        assert forall|j: int| 8 <= j < 10 implies text::is_digit(#[trigger] s@[j]) by {
            assert(s@.subrange(8, 10)[j - 8] == s@[j]);
        }
    }
    let year = text::parse_dec_value(s, 0, 4);
    let month = text::parse_dec_value(s, 5, 7);
    let day = text::parse_dec_value(s, 8, 10);
    datetime_new_checked(year as i64, month as i64, day as i64, 0, 0, 0)
}

/// A video-metadata timestamp, assumed universal: offset-carrying
/// values are shifted to universal time; naive values are taken as they
/// stand; a bare date reads as midnight.
pub open spec fn parse_video_datetime_spec(s: Seq<char>) -> Option<DateTime> {
    let t = trim_spec(s);
    if parse_offset_utc_spec(t) is Some {
        parse_offset_utc_spec(t)
    } else if parse_multi_spec(t, date_formats_seq()) is Some {
        parse_multi_spec(t, date_formats_seq())
    } else {
        parse_date_only_spec(t)
    }
}

/// Parse a video-metadata timestamp into universal time.
pub fn parse_video_datetime(s: &str) -> (r: Option<DateTime>)
    ensures
        r == parse_video_datetime_spec(s@),
        r matches Some(dt) ==> dt.valid(),
{
    let chars = text::str_to_chars(s);
    let t = trim_chars(&chars);
    if let Some(dt) = parse_offset_utc(&t) {
        return Some(dt);
    }
    let formats = date_formats();
    if let Some(dt) = parse_multi_on(&t, &formats) {
        return Some(dt);
    }
    parse_date_only(&t)
}

/// Truncating division, as machine division rounds: toward zero.
pub open spec fn trunc_div(a: int, b: int) -> int {
    if a >= 0 {
        a / b
    } else {
        -((-a) / b)
    }
}

/// The instant `delta` seconds away, clamped to the supported years.
pub open spec fn add_seconds_spec(dt: DateTime, delta: int) -> DateTime {
    let e = epoch_seconds_spec(dt) + delta;
    if e < epoch_seconds_spec(min_datetime()) {
        min_datetime()
    } else if e > epoch_seconds_spec(max_datetime()) {
        max_datetime()
    } else {
        datetime_of_epoch(e)
    }
}

impl DateTime {
    /// Move this date-time by `delta` seconds, clamping at the edges of
    /// the supported years.
    pub fn add_seconds_clamped(&self, delta: i64) -> (r: DateTime)
        requires
            self.valid(),
            -86400000 <= delta <= 86400000,
        ensures
            r == add_seconds_spec(*self, delta as int),
            r.valid(),
    {
        proof {
            lemma_epoch_bounds(*self);
        }
        let e = self.to_epoch_seconds() + delta;
        let min_dt = DateTime { year: MIN_YEAR, month: 1, day: 1, hour: 0, minute: 0, second: 0 };
        let max_dt = DateTime {
            year: MAX_YEAR,
            month: 12,
            day: 31,
            hour: 23,
            minute: 59,
            second: 59,
        };
        proof {
            assert(min_dt == min_datetime());
            assert(max_dt == max_datetime());
            assert(days_in_month_spec(MIN_YEAR as int, 1) == 31);
            assert(days_in_month_spec(MAX_YEAR as int, 12) == 31);
        }
        let lo = min_dt.to_epoch_seconds();
        let hi = max_dt.to_epoch_seconds();
        if e < lo {
            min_dt
        } else if e > hi {
            max_dt
        } else {
            from_epoch_seconds(e)
        }
    }
}

/// The date-time of an epoch second, clamped to the supported years.
pub open spec fn epoch_clamped_spec(secs: int) -> DateTime {
    if secs < epoch_seconds_spec(min_datetime()) {
        min_datetime()
    } else if secs > epoch_seconds_spec(max_datetime()) {
        max_datetime()
    } else {
        datetime_of_epoch(secs)
    }
}

/// The date-time of an epoch second, clamped to the supported years;
/// total over every second value.
pub fn epoch_clamped(secs: i64) -> (r: DateTime)
    ensures
        r == epoch_clamped_spec(secs as int),
        r.valid(),
{
    let min_dt = DateTime { year: MIN_YEAR, month: 1, day: 1, hour: 0, minute: 0, second: 0 };
    let max_dt = DateTime { year: MAX_YEAR, month: 12, day: 31, hour: 23, minute: 59, second: 59 };
    proof {
        assert(min_dt == min_datetime());
        assert(max_dt == max_datetime());
        assert(days_in_month_spec(MIN_YEAR as int, 1) == 31);
        assert(days_in_month_spec(MAX_YEAR as int, 12) == 31);
    }
    let lo = min_dt.to_epoch_seconds();
    let hi = max_dt.to_epoch_seconds();
    if secs < lo {
        min_dt
    } else if secs > hi {
        max_dt
    } else {
        from_epoch_seconds(secs)
    }
}

/// The ISO rendering is nineteen characters, none of them a quote or a
/// line break.
pub proof fn lemma_iso_chars_clean(dt: DateTime)
    requires
        dt.valid(),
    ensures
        iso_chars(dt).len() == 19,
        forall|i: int|
            0 <= i < 19 ==> (#[trigger] iso_chars(dt)[i]) != '"' && iso_chars(dt)[i] != '\n',
{
    lemma_iso_round_trip(dt);
    let s = iso_chars(dt);
    assert(iso_shape(s));
    assert forall|i: int| 0 <= i < 19 implies (#[trigger] s[i]) != '"' && s[i] != '\n' by {
        if i < 4 {
            assert(text::is_digit(s.subrange(0, 4)[i]));
            assert(s.subrange(0, 4)[i] == s[i]);
        } else if i == 4 || i == 7 {
        } else if i < 7 {
            assert(text::is_digit(s.subrange(5, 7)[i - 5]));
            assert(s.subrange(5, 7)[i - 5] == s[i]);
        } else if i < 10 {
            assert(text::is_digit(s.subrange(8, 10)[i - 8]));
            assert(s.subrange(8, 10)[i - 8] == s[i]);
        } else if i == 10 || i == 13 || i == 16 {
        } else if i < 13 {
            assert(text::is_digit(s.subrange(11, 13)[i - 11]));
            assert(s.subrange(11, 13)[i - 11] == s[i]);
        } else if i < 16 {
            assert(text::is_digit(s.subrange(14, 16)[i - 14]));
            assert(s.subrange(14, 16)[i - 14] == s[i]);
        } else {
            assert(text::is_digit(s.subrange(17, 19)[i - 17]));
            assert(s.subrange(17, 19)[i - 17] == s[i]);
        }
    }
}

/// A valid date-time survives the round trip through its ISO rendering.
pub proof fn lemma_iso_round_trip(dt: DateTime)
    requires
        dt.valid(),
    ensures
        parse_iso_spec(iso_chars(dt)) == Some(dt),
{
    let s = iso_chars(dt);
    text::lemma_pow10_small();
    text::lemma_dec_pad_val(dt.year as int, 4);
    text::lemma_dec_pad_val(dt.month as int, 2);
    text::lemma_dec_pad_val(dt.day as int, 2);
    text::lemma_dec_pad_val(dt.hour as int, 2);
    text::lemma_dec_pad_val(dt.minute as int, 2);
    text::lemma_dec_pad_val(dt.second as int, 2);
    assert(s.subrange(0, 4) =~= text::dec_pad(dt.year as int, 4));
    assert(s.subrange(5, 7) =~= text::dec_pad(dt.month as int, 2));
    assert(s.subrange(8, 10) =~= text::dec_pad(dt.day as int, 2));
    assert(s.subrange(11, 13) =~= text::dec_pad(dt.hour as int, 2));
    assert(s.subrange(14, 16) =~= text::dec_pad(dt.minute as int, 2));
    assert(s.subrange(17, 19) =~= text::dec_pad(dt.second as int, 2));
    assert(iso_shape(s));
}

} // verus!

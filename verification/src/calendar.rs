//! The proleptic Gregorian calendar: day numbers, month lengths and the
//! calendar operations that the time axis needs.
//!
//! A date is held as plain numbers. What a date is worth in days is a spec
//! function; the operations themselves are performed by `chrono`, each behind
//! one wrapper whose contract is stated over that day number.
use chrono::{DateTime, Datelike, Days, FixedOffset, Local, Months, NaiveDate, TimeZone};
use vstd::prelude::*;

verus! {

/// Milliseconds in a day.
pub const DAY_MS: i64 = 86_400_000;

/// First and last year that a date can lie in.
pub const MIN_YEAR: i32 = -262_143;

pub const MAX_YEAR: i32 = 262_142;

/// First and last millisecond, counted from 1970-01-01 00:00 UTC, of those years.
pub const MIN_TIMESTAMP_MS: i64 = -8_334_601_228_800_000;

pub const MAX_TIMESTAMP_MS: i64 = 8_210_266_876_799_999;

/// First and last day, counted from 1970-01-01, of those years.
pub const MIN_DAY: i64 = -96_465_292;

pub const MAX_DAY: i64 = 95_026_236;

/// Days between 0001-01-01 and 1970-01-01.
pub const EPOCH_DAYS_FROM_CE: i64 = 719_162;

pub open spec fn is_leap_year(year: int) -> bool {
    year % 4 == 0 && (year % 100 != 0 || year % 400 == 0)
}

pub open spec fn year_length(year: int) -> int {
    if is_leap_year(year) {
        366
    } else {
        365
    }
}

pub open spec fn month_length(year: int, month: int) -> int {
    if month == 2 {
        if is_leap_year(year) {
            29
        } else {
            28
        }
    } else if month == 4 || month == 6 || month == 9 || month == 11 {
        30
    } else {
        31
    }
}

/// Days of `year` that lie before the first day of `month`.
pub open spec fn days_before_month(year: int, month: int) -> int
    decreases month,
{
    if month <= 1 {
        0
    } else {
        days_before_month(year, month - 1) + month_length(year, month - 1)
    }
}

/// Days from 0001-01-01 to the first day of `year`.
pub open spec fn days_before_year(year: int) -> int {
    let past = year - 1;
    365 * past + past / 4 - past / 100 + past / 400
}

/// A calendar date.
#[derive(Debug, Clone, Copy, PartialEq, Eq, Structural)]
pub struct CivilDate {
    pub year: i32,
    pub month: u32,
    pub day: u32,
}

impl CivilDate {
    /// The date exists.
    pub open spec fn exists_in_calendar(self) -> bool {
        &&& 1 <= self.month <= 12
        &&& 1 <= self.day <= month_length(self.year as int, self.month as int)
    }

    /// The date exists and its year can be represented.
    pub open spec fn valid(self) -> bool {
        &&& MIN_YEAR <= self.year <= MAX_YEAR
        &&& self.exists_in_calendar()
    }

    /// Days from 1970-01-01 to this date.
    pub open spec fn day_number(self) -> int {
        days_before_year(self.year as int) + days_before_month(self.year as int, self.month as int)
            + self.day - 1 - EPOCH_DAYS_FROM_CE
    }

    pub open spec fn first_of_month_spec(self) -> CivilDate {
        CivilDate { year: self.year, month: self.month, day: 1 }
    }

    pub open spec fn first_of_year_spec(self) -> CivilDate {
        CivilDate { year: self.year, month: 1, day: 1 }
    }

    /// Months from the start of year 0 to the month of this date.
    pub open spec fn month_number(self) -> int {
        self.year * 12 + self.month - 1
    }

    /// The first day of the month that this date lies in.
    pub fn first_of_month(&self) -> (r: CivilDate)
        requires
            self.valid(),
        ensures
            r == self.first_of_month_spec(),
            r.valid(),
    {
        CivilDate { year: self.year, month: self.month, day: 1 }
    }

    /// The first day of the year that this date lies in.
    pub fn first_of_year(&self) -> (r: CivilDate)
        requires
            self.valid(),
        ensures
            r == self.first_of_year_spec(),
            r.valid(),
    {
        CivilDate { year: self.year, month: 1, day: 1 }
    }
}

/// The date with the given day number.
pub open spec fn date_on(day: int) -> CivilDate {
    choose|d: CivilDate| d.exists_in_calendar() && d.day_number() == day
}

/// The day on which `timestamp_ms` falls, `offset_secs` east of UTC.
pub open spec fn local_day(timestamp_ms: int, offset_secs: int) -> int {
    (timestamp_ms + offset_secs * 1000) / DAY_MS as int
}

/// Milliseconds since local midnight at `timestamp_ms`, `offset_secs` east of UTC.
pub open spec fn local_time_of_day(timestamp_ms: int, offset_secs: int) -> int {
    (timestamp_ms + offset_secs * 1000) % DAY_MS as int
}

/// An offset from UTC that a clock can have: less than a day either way.
pub open spec fn valid_offset(offset_secs: int) -> bool {
    -86_400 < offset_secs < 86_400
}

/// The instant is one that a date can be found for.
pub open spec fn representable(timestamp_ms: int) -> bool {
    MIN_TIMESTAMP_MS <= timestamp_ms <= MAX_TIMESTAMP_MS
}

/// The number of months `n` after the month of `date`, with the day cut down
/// to the length of the month that is reached; none past the last year.
pub open spec fn months_later(date: CivilDate, n: int) -> Option<CivilDate> {
    let total = date.month_number() + n;
    let year = total / 12;
    let month = total % 12 + 1;
    let longest = month_length(year, month);
    if year > MAX_YEAR {
        None
    } else {
        Some(
            CivilDate {
                year: year as i32,
                month: month as u32,
                day: if date.day > longest {
                    longest as u32
                } else {
                    date.day
                },
            },
        )
    }
}

/// `chrono::DateTime::from_timestamp_millis`, `DateTime::with_timezone` for a
/// `FixedOffset` and `DateTime::date_naive`: the calendar date at an instant, a
/// given number of seconds east of UTC. There is one for every instant of the
/// representable years; the caller keeps the local date inside them too.
#[verifier::external_body]
pub(crate) fn chrono_date_at(timestamp_ms: i64, offset_secs: i32) -> (r: Option<CivilDate>)
    requires
        valid_offset(offset_secs as int),
        representable(timestamp_ms as int) ==> representable(timestamp_ms + offset_secs * 1000),
    ensures
        r is Some <==> representable(timestamp_ms as int),
        r matches Some(d) ==> d.valid() && d.day_number() == local_day(
            timestamp_ms as int,
            offset_secs as int,
        ),
{
    let offset = FixedOffset::east_opt(offset_secs)?;
    let date = DateTime::from_timestamp_millis(timestamp_ms)?.with_timezone(&offset).date_naive();
    Some(CivilDate { year: date.year(), month: date.month(), day: date.day() })
}

/// `chrono::TimeZone::from_local_datetime` of a `FixedOffset`, `earliest` and
/// `DateTime::timestamp_millis`: the instant of midnight on a date, a given
/// number of seconds east of UTC, unless it lies outside the representable years.
#[verifier::external_body]
pub(crate) fn chrono_midnight_ms(date: CivilDate, offset_secs: i32) -> (r: Option<i64>)
    requires
        date.valid(),
        valid_offset(offset_secs as int),
    ensures
        r is Some <==> representable(date.day_number() * DAY_MS - offset_secs * 1000),
        r matches Some(ms) ==> ms == date.day_number() * DAY_MS - offset_secs * 1000,
{
    let midnight = NaiveDate::from_ymd_opt(date.year, date.month, date.day)?.and_hms_opt(0, 0, 0)?;
    let offset = FixedOffset::east_opt(offset_secs)?;
    Some(offset.from_local_datetime(&midnight).earliest()?.timestamp_millis())
}

/// `chrono::TimeZone::from_local_datetime` of `chrono::Local`, `earliest` and
/// `DateTime::timestamp_millis`: an instant of midnight on a date by the clock of
/// the machine. Which offset the machine's zone has then, and whether it has
/// that midnight at all, is left open.
#[verifier::external_body]
pub(crate) fn chrono_local_midnight_ms(date: CivilDate) -> (r: Option<i64>)
    requires
        date.valid(),
    ensures
        r matches Some(ms) ==> exists|offset: int| #[trigger]
            valid_offset(offset) && ms == date.day_number() * DAY_MS - offset * 1000,
        r matches Some(ms) ==> representable(ms as int),
{
    let midnight = NaiveDate::from_ymd_opt(date.year, date.month, date.day)?.and_hms_opt(0, 0, 0)?;
    Some(Local.from_local_datetime(&midnight).earliest()?.timestamp_millis())
}

/// `chrono::DateTime::with_timezone` for `chrono::Local`: the machine's offset
/// from UTC at an instant of the representable years. Which one it is depends on
/// the machine; it is less than a day.
#[verifier::external_body]
pub(crate) fn chrono_local_offset_secs(timestamp_ms: i64) -> (r: Option<i32>)
    ensures
        r is Some <==> representable(timestamp_ms as int),
        r matches Some(offset) ==> valid_offset(offset as int),
{
    let instant = DateTime::from_timestamp_millis(timestamp_ms)?;
    Some(instant.with_timezone(&Local).offset().local_minus_utc())
}

/// `chrono::Local::now`: the machine's offset from UTC at this moment.
#[verifier::external_body]
pub(crate) fn chrono_local_now_offset_secs() -> (r: i32)
    ensures
        valid_offset(r as int),
{
    Local::now().offset().local_minus_utc()
}

/// `chrono::NaiveDate::checked_add_months`: the same day of a later month, or the
/// last day of that month where it is shorter.
#[verifier::external_body]
pub(crate) fn chrono_add_months(date: CivilDate, n: u32) -> (r: Option<CivilDate>)
    requires
        date.valid(),
    ensures
        r == months_later(date, n as int),
{
    let start = NaiveDate::from_ymd_opt(date.year, date.month, date.day)?;
    let later = start.checked_add_months(Months::new(n))?;
    Some(CivilDate { year: later.year(), month: later.month(), day: later.day() })
}

/// `chrono::NaiveDate::checked_add_days`: the date a number of days later, unless
/// it lies past the last representable day.
#[verifier::external_body]
pub(crate) fn chrono_add_days(date: CivilDate, n: u64) -> (r: Option<CivilDate>)
    requires
        date.valid(),
    ensures
        r is Some <==> date.day_number() + n <= MAX_DAY,
        r matches Some(d) ==> d.valid() && d.day_number() == date.day_number() + n,
{
    let start = NaiveDate::from_ymd_opt(date.year, date.month, date.day)?;
    let later = start.checked_add_days(Days::new(n))?;
    Some(CivilDate { year: later.year(), month: later.month(), day: later.day() })
}

/// `chrono::NaiveDate::signed_duration_since` and `TimeDelta::num_days`: the days
/// from one date to another.
#[verifier::external_body]
pub(crate) fn chrono_days_between(from: CivilDate, to: CivilDate) -> (r: i64)
    requires
        from.valid(),
        to.valid(),
    ensures
        r == to.day_number() - from.day_number(),
{
    let start = NaiveDate::from_ymd_opt(from.year, from.month, from.day).unwrap();
    let end = NaiveDate::from_ymd_opt(to.year, to.month, to.day).unwrap();
    end.signed_duration_since(start).num_days()
}

proof fn lemma_quotient_step(n: int, k: int)
    requires
        k > 1,
    ensures
        n / k - (n - 1) / k == if n % k == 0 {
            1int
        } else {
            0
        },
{
    let q = (n - 1) / k;
    let r = (n - 1) % k;
    vstd::arithmetic::div_mod::lemma_fundamental_div_mod(n - 1, k);
    vstd::arithmetic::div_mod::lemma_mod_bound(n - 1, k);
    vstd::arithmetic::mul::lemma_mul_is_commutative(q, k);
    if r + 1 == k {
        assert(n == (q + 1) * k) by (nonlinear_arith)
            requires
                n - 1 == q * k + r,
                r + 1 == k,
        ;
        vstd::arithmetic::div_mod::lemma_fundamental_div_mod_converse(n, k, q + 1, 0);
    } else {
        vstd::arithmetic::div_mod::lemma_fundamental_div_mod_converse(n, k, q, r + 1);
    }
}

proof fn lemma_leap_year_divisors(year: int)
    ensures
        year % 400 == 0 ==> year % 100 == 0,
        year % 100 == 0 ==> year % 4 == 0,
{
}

/// A year is as long as the distance between the starts of it and of the next.
#[verifier::spinoff_prover]
pub proof fn lemma_year_step(year: int)
    ensures
        days_before_year(year + 1) == days_before_year(year) + year_length(year),
{
    lemma_quotient_step(year, 4);
    lemma_quotient_step(year, 100);
    lemma_quotient_step(year, 400);
    lemma_leap_year_divisors(year);
    let past = year - 1;
    assert(days_before_year(year) == 365 * past + past / 4 - past / 100 + past / 400);
    assert(days_before_year(year + 1) == 365 * year + year / 4 - year / 100 + year / 400);
    let leap_days = year / 4 - past / 4 - (year / 100 - past / 100) + (year / 400 - past / 400);
    assert(leap_days == year_length(year) - 365);
}

proof fn lemma_years_apart(a: int, b: int)
    requires
        a <= b,
    ensures
        days_before_year(a) + 365 * (b - a) <= days_before_year(b),
    decreases b - a,
{
    if a < b {
        lemma_years_apart(a, b - 1);
        lemma_year_step(b - 1);
    }
}

proof fn lemma_months_apart(year: int, a: int, b: int)
    requires
        1 <= a < b,
    ensures
        days_before_month(year, a) + month_length(year, a) <= days_before_month(year, b),
    decreases b - a,
{
    if a + 1 < b {
        lemma_months_apart(year, a, b - 1);
    }
}

proof fn lemma_months_fill_year(year: int)
    ensures
        days_before_month(year, 12) + month_length(year, 12) == year_length(year),
{
    reveal_with_fuel(days_before_month, 13);
}

/// A date lies inside its year.
proof fn lemma_day_within_year(d: CivilDate)
    requires
        d.exists_in_calendar(),
    ensures
        days_before_year(d.year as int) <= d.day_number() + EPOCH_DAYS_FROM_CE < days_before_year(
            d.year + 1,
        ),
{
    let y = d.year as int;
    lemma_year_step(y);
    lemma_months_fill_year(y);
    if d.month < 12 {
        lemma_months_apart(y, d.month as int, 12);
    }
    if d.month > 1 {
        lemma_months_apart(y, 1, d.month as int);
    }
}

/// `a` comes before `b` in the calendar.
pub open spec fn earlier(a: CivilDate, b: CivilDate) -> bool {
    a.year < b.year || (a.year == b.year && (a.month < b.month || (a.month == b.month && a.day
        < b.day)))
}

/// Day numbers follow the order of the calendar.
pub proof fn law_day_number_is_ordered(a: CivilDate, b: CivilDate)
    requires
        a.exists_in_calendar(),
        b.exists_in_calendar(),
    ensures
        earlier(a, b) <==> a.day_number() < b.day_number(),
        a == b <==> a.day_number() == b.day_number(),
{
    lemma_day_within_year(a);
    lemma_day_within_year(b);
    if a.year < b.year {
        lemma_years_apart(a.year + 1, b.year as int);
    } else if b.year < a.year {
        lemma_years_apart(b.year + 1, a.year as int);
    } else if a.month < b.month {
        lemma_months_apart(a.year as int, a.month as int, b.month as int);
    } else if b.month < a.month {
        lemma_months_apart(a.year as int, b.month as int, a.month as int);
    }
}

/// A date is the one date with its day number.
pub proof fn lemma_date_on(d: CivilDate)
    requires
        d.valid(),
    ensures
        date_on(d.day_number()) == d,
        MIN_DAY <= d.day_number() <= MAX_DAY,
{
    let e = date_on(d.day_number());
    assert(e.exists_in_calendar() && e.day_number() == d.day_number());
    law_day_number_is_ordered(d, e);
    lemma_day_within_year(d);
    lemma_years_apart(MIN_YEAR as int, d.year as int);
    lemma_years_apart(d.year + 1, MAX_YEAR + 1);
    assert(days_before_year(MIN_YEAR as int) - EPOCH_DAYS_FROM_CE == MIN_DAY);
    assert(days_before_year(MAX_YEAR + 1) - EPOCH_DAYS_FROM_CE == MAX_DAY + 1);
}

/// Every day of the representable years has a date.
pub proof fn lemma_date_exists(day: int)
    requires
        MIN_DAY <= day <= MAX_DAY,
    ensures
        date_on(day).valid(),
        date_on(day).day_number() == day,
    decreases day - MIN_DAY,
{
    if day == MIN_DAY {
        let d = CivilDate { year: MIN_YEAR, month: 1, day: 1 };
        assert(days_before_year(MIN_YEAR as int) - EPOCH_DAYS_FROM_CE == MIN_DAY);
        lemma_date_on(d);
    } else {
        lemma_date_exists(day - 1);
        let p = date_on(day - 1);
        let y = p.year as int;
        if p.day < month_length(y, p.month as int) {
            let d = CivilDate { year: p.year, month: p.month, day: (p.day + 1) as u32 };
            lemma_date_on(d);
        } else if p.month < 12 {
            let d = CivilDate { year: p.year, month: (p.month + 1) as u32, day: 1 };
            lemma_date_on(d);
        } else {
            lemma_months_fill_year(y);
            lemma_year_step(y);
            if y == MAX_YEAR {
                assert(days_before_year(MAX_YEAR + 1) - EPOCH_DAYS_FROM_CE == MAX_DAY + 1);
            }
            let d = CivilDate { year: (p.year + 1) as i32, month: 1, day: 1 };
            lemma_date_on(d);
        }
    }
}

/// A month later is a date again, and lies later.
pub proof fn lemma_months_later(d: CivilDate, n: int)
    requires
        d.valid(),
        n >= 0,
    ensures
        months_later(d, n) matches Some(e) ==> e.valid() && e.month_number() == d.month_number()
            + n,
{
}

/// The last day that has a date is the last of its year.
pub proof fn lemma_last_day()
    ensures
        (CivilDate { year: MAX_YEAR, month: 12, day: 31 }).day_number() == MAX_DAY,
{
    reveal_with_fuel(days_before_month, 13);
}

/// The day after a date is the next of its month, or the first of the next month, or the first
/// of January of the next year. February has 29 days in the years that 4 divides and 100 does
/// not, or that 400 divides.
pub proof fn law_days_follow_each_other(d: CivilDate, next: CivilDate)
    requires
        d.valid(),
        next.valid(),
        next.day_number() == d.day_number() + 1,
    ensures
        ({
            let leap = d.year as int % 4 == 0 && (d.year as int % 100 != 0 || d.year as int % 400
                == 0);
            let last = if d.month == 2 {
                if leap {
                    29u32
                } else {
                    28
                }
            } else if d.month == 4 || d.month == 6 || d.month == 9 || d.month == 11 {
                30
            } else {
                31
            };
            if d.day < last {
                next.year == d.year && next.month == d.month && next.day == d.day + 1
            } else if d.month < 12 {
                next.year == d.year && next.month == d.month + 1 && next.day == 1
            } else {
                next.year == d.year + 1 && next.month == 1 && next.day == 1
            }
        }),
{
    let y = d.year as int;
    let follower = if d.day < month_length(y, d.month as int) {
        CivilDate { year: d.year, month: d.month, day: (d.day + 1) as u32 }
    } else if d.month < 12 {
        CivilDate { year: d.year, month: (d.month + 1) as u32, day: 1 }
    } else {
        lemma_months_fill_year(y);
        lemma_year_step(y);
        CivilDate { year: (d.year + 1) as i32, month: 1, day: 1 }
    };
    assert(follower.day_number() == d.day_number() + 1);
    law_day_number_is_ordered(follower, next);
}

/// Days are counted from the first of January 1970.
pub proof fn law_days_are_counted_from_1970(d: CivilDate)
    requires
        d.valid(),
    ensures
        d.day_number() == 0 <==> d.year == 1970 && d.month == 1 && d.day == 1,
        d.day_number() > 0 ==> d.year >= 1970,
        d.day_number() < 0 ==> d.year < 1970,
{
    let epoch = CivilDate { year: 1970, month: 1, day: 1 };
    assert(epoch.day_number() == 0);
    law_day_number_is_ordered(d, epoch);
    law_day_number_is_ordered(epoch, d);
}

/// Some months later is the same day of the month, or the last day of a shorter month; it is
/// missing only past the last year.
pub proof fn law_months_later(d: CivilDate, n: int)
    requires
        d.valid(),
        n >= 0,
    ensures
        match months_later(d, n) {
            Some(e) => {
                &&& e.valid()
                &&& (e.year - d.year) * 12 + e.month - d.month == n
                &&& e.day == d.day || (e.day < d.day && e.day == month_length(
                    e.year as int,
                    e.month as int,
                ))
            },
            None => d.year * 12 + d.month - 1 + n > 262_142 * 12 + 11,
        },
{
}

/// The days next to the representable years.
pub proof fn lemma_outer_days()
    ensures
        (CivilDate { year: (-262_144) as i32, month: 12, day: 31 }).day_number() == MIN_DAY - 1,
        (CivilDate { year: 262_143, month: 1, day: 1 }).day_number() == MAX_DAY + 1,
{
    reveal_with_fuel(days_before_month, 13);
}

} // verus!

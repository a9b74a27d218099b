//! The time zone that the user reads times in: labels, and the calendar
//! boundaries (days, months, years and grids of them) of a time axis.
use crate::calendar::{
    chrono_add_days, chrono_add_months, chrono_date_at, chrono_days_between,
    chrono_local_midnight_ms, chrono_local_offset_secs,
    chrono_midnight_ms, CivilDate, DAY_MS, MAX_TIMESTAMP_MS, MIN_TIMESTAMP_MS,
};

use vstd::prelude::*;

verus! {

/// Year whose first day anchors the grids.
pub const ORIGIN_YEAR: i32 = 2000;

/// UTC+05:30.
pub const IST_OFFSET_SECS: i32 = 19_800;

#[derive(Debug, Clone, Copy, PartialEq, Eq, Structural)]
pub enum UserTimezone {
    Ist,
    Utc,
    Local,
}

impl Default for UserTimezone {
    fn default() -> (r: UserTimezone)
        ensures
            r is Ist,
    {
        UserTimezone::Ist
    }
}

/// A boundary of the calendar, relative to the local date of an instant.
#[derive(Debug, Clone, Copy, PartialEq, Eq, Structural)]
pub enum CalendarMark {
    /// The date itself.
    Day,
    /// The first of its month.
    Month,
    /// The first of its year.
    Year,
    /// The day after.
    NextDay,
    /// The first of the month after.
    NextMonth,
    /// The first of the year after.
    NextYear,
    /// The first date, from this one on, on the grid of so many days.
    DayGrid(u64),
    /// The first month start, from this month on, on the grid of so many months.
    MonthGrid(u64),
    /// The first year start, from this year on, on the grid of so many years.
    YearGrid(u64),
}

pub open spec fn origin_date() -> CivilDate {
    CivilDate { year: ORIGIN_YEAR, month: 1, day: 1 }
}

/// A step of a grid; a step of zero counts as one.
pub open spec fn grid_step(step: u64) -> int {
    if step == 0 {
        1
    } else {
        step as int
    }
}

/// Distance from `offset` forward to the next multiple of the step.
pub open spec fn grid_gap(step: u64, offset: int) -> int {
    (-offset) % grid_step(step)
}

/// Days from the origin of the grids to `date`.
pub open spec fn days_from_origin(date: CivilDate) -> int {
    date.day_number() - origin_date().day_number()
}

/// Months from the origin of the grids to the month of `date`.
pub open spec fn months_from_origin(date: CivilDate) -> int {
    date.month_number() - origin_date().month_number()
}

/// Years from the origin of the grids to the year of `date`.
pub open spec fn years_from_origin(date: CivilDate) -> int {
    date.year - ORIGIN_YEAR
}

pub open spec fn days_later(date: CivilDate, n: int) -> Option<CivilDate> {
    if date.day_number() + n <= crate::calendar::MAX_DAY {
        Some(crate::calendar::date_on(date.day_number() + n))
    } else {
        None
    }
}

/// The date of `mark` for an instant whose local date is `date`; none past the
/// last representable year.
pub open spec fn mark_date(mark: CalendarMark, date: CivilDate) -> Option<CivilDate> {
    let month = date.first_of_month_spec();
    let year = date.first_of_year_spec();
    match mark {
        CalendarMark::Day => Some(date),
        CalendarMark::Month => Some(month),
        CalendarMark::Year => Some(year),
        CalendarMark::NextDay => days_later(date, 1),
        CalendarMark::NextMonth => crate::calendar::months_later(month, 1),
        CalendarMark::NextYear => crate::calendar::months_later(year, 12),
        CalendarMark::DayGrid(step) => days_later(date, grid_gap(step, days_from_origin(date))),
        CalendarMark::MonthGrid(step) => crate::calendar::months_later(
            month,
            grid_gap(step, months_from_origin(date)),
        ),
        CalendarMark::YearGrid(step) => crate::calendar::months_later(
            year,
            grid_gap(step, years_from_origin(date)) * 12,
        ),
    }
}

/// The instant of midnight on a day, `offset_secs` east of UTC, if it is not
/// before 1970 and a date can be found for it.
pub open spec fn midnight_utc_ms(day: int, offset_secs: int) -> Option<u64> {
    let ms = day * DAY_MS - offset_secs * 1000;
    if 0 <= ms <= MAX_TIMESTAMP_MS {
        Some(ms as u64)
    } else {
        None
    }
}

/// The date of `mark` at an instant, `offset_secs` east of UTC.
pub open spec fn mark_at(
    timestamp_ms: int,
    offset_secs: int,
    mark: CalendarMark,
) -> Option<CivilDate> {
    if crate::calendar::representable(timestamp_ms) {
        mark_date(
            mark,
            crate::calendar::date_on(crate::calendar::local_day(timestamp_ms, offset_secs)),
        )
    } else {
        None
    }
}

/// The instant of `mark` for a clock that is always `offset_secs` east of UTC.
pub open spec fn boundary_utc_ms(
    timestamp_ms: int,
    offset_secs: int,
    mark: CalendarMark,
) -> Option<u64> {
    match mark_at(timestamp_ms, offset_secs, mark) {
        Some(date) => midnight_utc_ms(date.day_number(), offset_secs),
        None => None,
    }
}

/// Forward distance from `offset` to the next multiple of `step` (0 when
/// already aligned).
pub fn advance_to_grid(step: u64, offset: i64) -> (r: u64)
    ensures
        r == grid_gap(step, offset as int),
{
    let step: u64 = if step == 0 {
        1
    } else {
        step
    };
    if offset >= 0 {
        let past: u64 = offset as u64 % step;
        proof {
            lemma_negated_remainder(offset as int, step as int);
        }
        if past == 0 {
            0
        } else {
            step - past
        }
    } else {
        let short: u64 = (-(offset + 1)) as u64 + 1;
        short % step
    }
}

proof fn lemma_negated_remainder(n: int, k: int)
    requires
        k > 0,
    ensures
        (-n) % k == if n % k == 0 {
            0
        } else {
            k - n % k
        },
{
    let q = n / k;
    let r = n % k;
    vstd::arithmetic::div_mod::lemma_fundamental_div_mod(n, k);
    vstd::arithmetic::div_mod::lemma_mod_bound(n, k);
    if r == 0 {
        assert(-n == (-q) * k) by (nonlinear_arith)
            requires
                n == k * q + r,
                r == 0,
        ;
        vstd::arithmetic::div_mod::lemma_fundamental_div_mod_converse(-n, k, -q, 0);
    } else {
        assert(-n == (-q - 1) * k + (k - r)) by (nonlinear_arith)
            requires
                n == k * q + r,
        ;
        vstd::arithmetic::div_mod::lemma_fundamental_div_mod_converse(-n, k, -q - 1, k - r);
    }
}

/// The date of `mark` for the local date `date`.
fn mark_from_date(mark: CalendarMark, date: CivilDate) -> (r: Option<CivilDate>)
    requires
        date.valid(),
    ensures
        r == mark_date(mark, date),
        r matches Some(d) ==> d.valid(),
{
    let month = date.first_of_month();
    let year = date.first_of_year();
    match mark {
        CalendarMark::Day => Some(date),
        CalendarMark::Month => Some(month),
        CalendarMark::Year => Some(year),
        CalendarMark::NextDay => date_plus_days(date, 1),
        CalendarMark::NextMonth => date_plus_months(month, 1),
        CalendarMark::NextYear => date_plus_months(year, 12),
        CalendarMark::DayGrid(step) => {
            let origin = CivilDate { year: ORIGIN_YEAR, month: 1, day: 1 };
            let days = chrono_days_between(origin, date);
            date_plus_days(date, advance_to_grid(step, days))
        },
        CalendarMark::MonthGrid(step) => {
            let months: i64 = (date.year - ORIGIN_YEAR) as i64 * 12 + (date.month - 1) as i64;
            date_plus_months(month, advance_to_grid(step, months))
        },
        CalendarMark::YearGrid(step) => {
            let years: i64 = (date.year - ORIGIN_YEAR) as i64;
            let gap = advance_to_grid(step, years);
            if gap > 1_000_000 {
                None
            } else {
                date_plus_months(year, gap * 12)
            }
        },
    }
}

fn date_plus_days(date: CivilDate, n: u64) -> (r: Option<CivilDate>)
    requires
        date.valid(),
    ensures
        r == days_later(date, n as int),
        r matches Some(d) ==> d.valid(),
{
    let r = chrono_add_days(date, n);
    proof {
        if let Some(d) = r {
            crate::calendar::lemma_date_on(d);
        }
    }
    r
}

fn date_plus_months(date: CivilDate, n: u64) -> (r: Option<CivilDate>)
    requires
        date.valid(),
    ensures
        r == crate::calendar::months_later(date, n as int),
        r matches Some(d) ==> d.valid(),
{
    if n > 0xffff_ffff {
        return None;
    }
    proof {
        crate::calendar::lemma_months_later(date, n as int);
    }
    chrono_add_months(date, n as u32)
}

/// The date of `mark` at an instant, for a clock `offset_secs` east of UTC.
pub fn calendar_mark(timestamp_ms: u64, offset_secs: i32, mark: CalendarMark) -> (r: Option<
    CivilDate,
>)
    requires
        crate::calendar::valid_offset(offset_secs as int),
        crate::calendar::representable(timestamp_ms as int) ==> crate::calendar::representable(
            timestamp_ms + offset_secs * 1000,
        ),
    ensures
        r == mark_at(timestamp_ms as int, offset_secs as int, mark),
        r matches Some(d) ==> d.valid(),
{
    if timestamp_ms > MAX_TIMESTAMP_MS as u64 {
        return None;
    }
    match chrono_date_at(timestamp_ms as i64, offset_secs) {
        Some(date) => {
            proof {
                crate::calendar::lemma_date_on(date);
            }
            mark_from_date(mark, date)
        },
        None => None,
    }
}

/// What is made of the midnight that was found on a date.
pub open spec fn found_spec(found: Option<i64>) -> Option<u64> {
    match found {
        Some(ms) => if ms >= 0 {
            Some(ms as u64)
        } else {
            None
        },
        None => None,
    }
}

/// What is made of the midnight that was found on a date: an instant before 1970 counts as
/// none.
pub fn found_utc_ms(found: Option<i64>) -> (r: Option<u64>)
    ensures
        r == found_spec(found),
{
    match found {
        Some(ms) => if ms >= 0 {
            Some(ms as u64)
        } else {
            None
        },
        None => None,
    }
}

impl UserTimezone {
    /// The offset from UTC of a zone that always has the same one.
    pub open spec fn fixed_offset_secs(self) -> Option<int> {
        match self {
            UserTimezone::Ist => Some(IST_OFFSET_SECS as int),
            UserTimezone::Utc => Some(0),
            UserTimezone::Local => None,
        }
    }

    /// An offset that the zone can have at some instant.
    pub open spec fn may_have_offset(self, offset_secs: int) -> bool {
        match self.fixed_offset_secs() {
            Some(offset) => offset_secs == offset,
            None => crate::calendar::valid_offset(offset_secs),
        }
    }

    /// At an instant that a date can be found for, the local date can be found too.
    pub open spec fn date_in_range(self, timestamp_ms: int) -> bool {
        crate::calendar::representable(timestamp_ms) ==> match self {
            UserTimezone::Ist => crate::calendar::representable(
                timestamp_ms + IST_OFFSET_SECS * 1000,
            ),
            UserTimezone::Utc => true,
            UserTimezone::Local => MIN_TIMESTAMP_MS + DAY_MS <= timestamp_ms <= MAX_TIMESTAMP_MS
                - DAY_MS,
        }
    }

    /// Whether the local date at an instant can be asked for.
    pub fn has_local_date(&self, timestamp_ms: u64) -> (r: bool)
        ensures
            r == self.date_in_range(timestamp_ms as int),
    {
        if timestamp_ms > MAX_TIMESTAMP_MS as u64 {
            return true;
        }
        match self {
            UserTimezone::Ist => timestamp_ms <= MAX_TIMESTAMP_MS as u64 - IST_OFFSET_SECS as u64
                * 1000,
            UserTimezone::Utc => true,
            UserTimezone::Local => timestamp_ms <= MAX_TIMESTAMP_MS as u64 - DAY_MS as u64,
        }
    }

    /// What a search for `mark` gives. In a zone of one offset it is fixed. By the
    /// clock of the machine, an instant that is found is a midnight of the date of
    /// `mark`, with offsets that the machine has for the instant and for the midnight.
    pub open spec fn boundary_result(
        self,
        timestamp_ms: int,
        mark: CalendarMark,
        r: Option<u64>,
    ) -> bool {
        match self.fixed_offset_secs() {
            Some(offset) => r == boundary_utc_ms(timestamp_ms, offset, mark),
            None => r matches Some(ms) ==> exists|at: int, midnight: int|
                {
                    &&& #[trigger] crate::calendar::valid_offset(at)
                    &&& #[trigger] crate::calendar::valid_offset(midnight)
                    &&& mark_at(timestamp_ms, at, mark) matches Some(date)
                    &&& ms == date.day_number() * DAY_MS - midnight * 1000
                },
        }
    }

    /// The offset of the zone at an instant.
    pub(crate) fn offset_at(&self, timestamp_ms: i64) -> (r: Option<i32>)
        ensures
            r is Some <==> crate::calendar::representable(timestamp_ms as int),
            r matches Some(offset) ==> self.may_have_offset(offset as int)
                && crate::calendar::valid_offset(offset as int),
    {
        if timestamp_ms < MIN_TIMESTAMP_MS || timestamp_ms > MAX_TIMESTAMP_MS {
            return None;
        }
        match self {
            UserTimezone::Ist => Some(IST_OFFSET_SECS),
            UserTimezone::Utc => Some(0),
            UserTimezone::Local => chrono_local_offset_secs(timestamp_ms),
        }
    }

    /// The UTC timestamp of local midnight (00:00 in the user's timezone) on
    /// `date`. Uses the earliest candidate for ambiguous local times.
    pub fn local_midnight_utc_ms(&self, date: CivilDate) -> (r: Option<u64>)
        requires
            date.valid(),
        ensures
            self.fixed_offset_secs() matches Some(offset) ==> r == midnight_utc_ms(
                date.day_number(),
                offset,
            ),
            r matches Some(ms) ==> ms <= MAX_TIMESTAMP_MS && exists|offset: int| #[trigger]
                crate::calendar::valid_offset(offset) && ms == date.day_number() * DAY_MS - offset
                    * 1000,
    {
        let found = match self {
            UserTimezone::Ist => chrono_midnight_ms(date, IST_OFFSET_SECS),
            UserTimezone::Utc => chrono_midnight_ms(date, 0),
            UserTimezone::Local => chrono_local_midnight_ms(date),
        };
        proof {
            crate::calendar::lemma_date_on(date);
            assert(crate::calendar::valid_offset(0));
            assert(crate::calendar::valid_offset(IST_OFFSET_SECS as int));
        }
        found_utc_ms(found)
    }

    fn boundary(&self, timestamp_ms: u64, mark: CalendarMark) -> (r: Option<u64>)
        requires
            self.date_in_range(timestamp_ms as int),
        ensures
            self.boundary_result(timestamp_ms as int, mark, r),
    {
        if timestamp_ms > MAX_TIMESTAMP_MS as u64 {
            return None;
        }
        match self.offset_at(timestamp_ms as i64) {
            Some(offset) => match calendar_mark(timestamp_ms, offset, mark) {
                Some(date) => {
                    let r = self.local_midnight_utc_ms(date);
                    proof {
                        assert(crate::calendar::valid_offset(offset as int));
                    }
                    r
                },
                None => None,
            },
            None => None,
        }
    }

    /// Start of the user's local day containing `timestamp_ms`, as UTC ms.
    pub fn start_of_local_day_utc_ms(&self, timestamp_ms: u64) -> (r: Option<u64>)
        requires
            self.date_in_range(timestamp_ms as int),
        ensures
            self.boundary_result(timestamp_ms as int, CalendarMark::Day, r),
    {
        self.boundary(timestamp_ms, CalendarMark::Day)
    }

    /// Start of the user's local month containing `timestamp_ms`, as UTC ms.
    pub fn start_of_local_month_utc_ms(&self, timestamp_ms: u64) -> (r: Option<u64>)
        requires
            self.date_in_range(timestamp_ms as int),
        ensures
            self.boundary_result(timestamp_ms as int, CalendarMark::Month, r),
    {
        self.boundary(timestamp_ms, CalendarMark::Month)
    }

    /// Start of the user's local year containing `timestamp_ms`, as UTC ms.
    pub fn start_of_local_year_utc_ms(&self, timestamp_ms: u64) -> (r: Option<u64>)
        requires
            self.date_in_range(timestamp_ms as int),
        ensures
            self.boundary_result(timestamp_ms as int, CalendarMark::Year, r),
    {
        self.boundary(timestamp_ms, CalendarMark::Year)
    }

    /// Start of the user's local day after `timestamp_ms`, as UTC ms.
    pub fn next_local_day_utc_ms(&self, timestamp_ms: u64) -> (r: Option<u64>)
        requires
            self.date_in_range(timestamp_ms as int),
        ensures
            self.boundary_result(timestamp_ms as int, CalendarMark::NextDay, r),
    {
        self.boundary(timestamp_ms, CalendarMark::NextDay)
    }

    /// Start of the user's local month after `timestamp_ms`, as UTC ms.
    pub fn next_local_month_utc_ms(&self, timestamp_ms: u64) -> (r: Option<u64>)
        requires
            self.date_in_range(timestamp_ms as int),
        ensures
            self.boundary_result(timestamp_ms as int, CalendarMark::NextMonth, r),
    {
        self.boundary(timestamp_ms, CalendarMark::NextMonth)
    }

    /// Start of the user's local year after `timestamp_ms`, as UTC ms.
    pub fn next_local_year_utc_ms(&self, timestamp_ms: u64) -> (r: Option<u64>)
        requires
            self.date_in_range(timestamp_ms as int),
        ensures
            self.boundary_result(timestamp_ms as int, CalendarMark::NextYear, r),
    {
        self.boundary(timestamp_ms, CalendarMark::NextYear)
    }

    /// Advance `timestamp_ms` to the first local midnight whose date lies on the
    /// `skip_days`-period grid anchored at a fixed origin date (2000-01-01), so that
    /// thinned day marks keep to absolute dates while the view pans.
    pub fn align_to_skip_grid(&self, timestamp_ms: u64, skip_days: u64) -> (r: Option<u64>)
        requires
            self.date_in_range(timestamp_ms as int),
        ensures
            self.boundary_result(timestamp_ms as int, CalendarMark::DayGrid(skip_days), r),
    {
        self.boundary(timestamp_ms, CalendarMark::DayGrid(skip_days))
    }

    /// Advance `timestamp_ms` to the first month start that lies on the
    /// `step_months`-period grid anchored at 2000-01, in the user's timezone.
    pub fn align_to_month_grid(&self, timestamp_ms: u64, step_months: u64) -> (r: Option<u64>)
        requires
            self.date_in_range(timestamp_ms as int),
        ensures
            self.boundary_result(timestamp_ms as int, CalendarMark::MonthGrid(step_months), r),
    {
        self.boundary(timestamp_ms, CalendarMark::MonthGrid(step_months))
    }

    /// Advance `timestamp_ms` to the first year start that lies on the
    /// `step_years`-period grid anchored at 2000-01-01, in the user's timezone.
    pub fn align_to_year_grid(&self, timestamp_ms: u64, step_years: u64) -> (r: Option<u64>)
        requires
            self.date_in_range(timestamp_ms as int),
        ensures
            self.boundary_result(timestamp_ms as int, CalendarMark::YearGrid(step_years), r),
    {
        self.boundary(timestamp_ms, CalendarMark::YearGrid(step_years))
    }
}

/// An instant and an offset for which the local date can be found.
pub open spec fn dated(timestamp_ms: int, offset_secs: int) -> bool {
    &&& crate::calendar::valid_offset(offset_secs)
    &&& crate::calendar::representable(timestamp_ms)
    &&& crate::calendar::representable(timestamp_ms + offset_secs * 1000)
}

proof fn lemma_local_day(timestamp_ms: int, offset_secs: int)
    requires
        dated(timestamp_ms, offset_secs),
    ensures
        ({
            let day = crate::calendar::local_day(timestamp_ms, offset_secs);
            let date = crate::calendar::date_on(day);
            &&& date.valid()
            &&& date.day_number() == day
            &&& day * DAY_MS <= timestamp_ms + offset_secs * 1000 < (day + 1) * DAY_MS
        }),
{
    let day = crate::calendar::local_day(timestamp_ms, offset_secs);
    crate::calendar::lemma_date_exists(day);
}

/// Local midnight of a day falls on that day.
proof fn lemma_midnight_falls_on_day(day: int, offset_secs: int)
    ensures
        crate::calendar::local_day(day * DAY_MS - offset_secs * 1000, offset_secs) == day,
{
}

/// The local day that an instant lies in starts at or before it, the next one
/// starts after it, and the two starts are one day apart.
pub proof fn law_local_day_encloses_instant(timestamp_ms: int, offset_secs: int)
    requires
        dated(timestamp_ms, offset_secs),
    ensures
        boundary_utc_ms(timestamp_ms, offset_secs, CalendarMark::Day) matches Some(start)
            ==> start <= timestamp_ms < start + DAY_MS,
        boundary_utc_ms(timestamp_ms, offset_secs, CalendarMark::NextDay) matches Some(next)
            ==> timestamp_ms < next <= timestamp_ms + DAY_MS,
        match (
            boundary_utc_ms(timestamp_ms, offset_secs, CalendarMark::Day),
            boundary_utc_ms(timestamp_ms, offset_secs, CalendarMark::NextDay),
        ) {
            (Some(start), Some(next)) => next == start + DAY_MS,
            _ => true,
        },
{
    lemma_local_day(timestamp_ms, offset_secs);
    let day = crate::calendar::local_day(timestamp_ms, offset_secs);
    if day + 1 <= crate::calendar::MAX_DAY {
        crate::calendar::lemma_date_exists(day + 1);
    }
}

/// The local month and the local year that an instant lies in start at or before
/// it, and the next ones start after it.
pub proof fn law_local_month_and_year_enclose_instant(timestamp_ms: int, offset_secs: int)
    requires
        dated(timestamp_ms, offset_secs),
    ensures
        boundary_utc_ms(timestamp_ms, offset_secs, CalendarMark::Month) matches Some(start)
            ==> start <= timestamp_ms,
        boundary_utc_ms(timestamp_ms, offset_secs, CalendarMark::NextMonth) matches Some(next)
            ==> timestamp_ms < next,
        boundary_utc_ms(timestamp_ms, offset_secs, CalendarMark::Year) matches Some(start)
            ==> start <= timestamp_ms,
        boundary_utc_ms(timestamp_ms, offset_secs, CalendarMark::NextYear) matches Some(next)
            ==> timestamp_ms < next,
{
    lemma_local_day(timestamp_ms, offset_secs);
    let date = crate::calendar::date_on(crate::calendar::local_day(timestamp_ms, offset_secs));
    let month = date.first_of_month_spec();
    let year = date.first_of_year_spec();
    crate::calendar::law_day_number_is_ordered(date, month);
    crate::calendar::law_day_number_is_ordered(date, year);
    crate::calendar::lemma_months_later(month, 1);
    crate::calendar::lemma_months_later(year, 12);
    if let Some(next) = crate::calendar::months_later(month, 1) {
        crate::calendar::law_day_number_is_ordered(date, next);
    }
    if let Some(next) = crate::calendar::months_later(year, 12) {
        crate::calendar::law_day_number_is_ordered(date, next);
    }
}

/// A mark that is reached is its own mark again: aligning twice is aligning once.
pub proof fn law_alignment_is_idempotent(timestamp_ms: int, offset_secs: int, mark: CalendarMark)
    requires
        dated(timestamp_ms, offset_secs),
        !(mark is NextDay || mark is NextMonth || mark is NextYear),
    ensures
        boundary_utc_ms(timestamp_ms, offset_secs, mark) matches Some(reached) ==> boundary_utc_ms(
            reached as int,
            offset_secs,
            mark,
        ) == Some(reached),
{
    if let Some(reached) = boundary_utc_ms(timestamp_ms, offset_secs, mark) {
        let date = mark_at(timestamp_ms, offset_secs, mark)->0;
        lemma_mark_is_date(timestamp_ms, offset_secs, mark);
        lemma_midnight_falls_on_day(date.day_number(), offset_secs);
        crate::calendar::lemma_date_on(date);
        lemma_mark_of_mark(timestamp_ms, offset_secs, mark);
    }
}

proof fn lemma_mark_is_date(timestamp_ms: int, offset_secs: int, mark: CalendarMark)
    requires
        dated(timestamp_ms, offset_secs),
    ensures
        mark_at(timestamp_ms, offset_secs, mark) matches Some(d) ==> d.valid(),
{
    lemma_local_day(timestamp_ms, offset_secs);
    let date = crate::calendar::date_on(crate::calendar::local_day(timestamp_ms, offset_secs));
    let month = date.first_of_month_spec();
    let year = date.first_of_year_spec();
    match mark {
        CalendarMark::NextDay => if date.day_number() + 1 <= crate::calendar::MAX_DAY {
            crate::calendar::lemma_date_exists(date.day_number() + 1);
        },
        CalendarMark::DayGrid(step) => {
            let gap = grid_gap(step, days_from_origin(date));
            lemma_gap(step, days_from_origin(date));
            if date.day_number() + gap <= crate::calendar::MAX_DAY {
                crate::calendar::lemma_date_exists(date.day_number() + gap);
            }
        },
        CalendarMark::NextMonth => crate::calendar::lemma_months_later(month, 1),
        CalendarMark::NextYear => crate::calendar::lemma_months_later(year, 12),
        CalendarMark::MonthGrid(step) => {
            lemma_gap(step, months_from_origin(date));
            crate::calendar::lemma_months_later(month, grid_gap(step, months_from_origin(date)));
        },
        CalendarMark::YearGrid(step) => {
            lemma_gap(step, years_from_origin(date));
            crate::calendar::lemma_months_later(year, grid_gap(step, years_from_origin(date)) * 12);
        },
        _ => {},
    }
}

/// The gap leads to a multiple of the step, and to the first one.
pub proof fn lemma_gap(step: u64, offset: int)
    ensures
        0 <= grid_gap(step, offset) < grid_step(step),
        (offset + grid_gap(step, offset)) % grid_step(step) == 0,
        offset % grid_step(step) == 0 ==> grid_gap(step, offset) == 0,
{
    let k = grid_step(step);
    lemma_negated_remainder(offset, k);
    vstd::arithmetic::div_mod::lemma_mod_bound(offset, k);
    vstd::arithmetic::div_mod::lemma_fundamental_div_mod(offset, k);
    let q = offset / k;
    if offset % k != 0 {
        assert(offset + (k - offset % k) == (q + 1) * k) by (nonlinear_arith)
            requires
                offset == k * q + offset % k,
        ;
        vstd::arithmetic::div_mod::lemma_fundamental_div_mod_converse(
            offset + (k - offset % k),
            k,
            q + 1,
            0,
        );
    }
}

proof fn lemma_mark_of_mark(timestamp_ms: int, offset_secs: int, mark: CalendarMark)
    requires
        dated(timestamp_ms, offset_secs),
        !(mark is NextDay || mark is NextMonth || mark is NextYear),
    ensures
        mark_at(timestamp_ms, offset_secs, mark) matches Some(d) ==> mark_date(mark, d) == Some(d),
{
    if let Some(d) = mark_at(timestamp_ms, offset_secs, mark) {
        lemma_local_day(timestamp_ms, offset_secs);
        lemma_mark_is_date(timestamp_ms, offset_secs, mark);
        crate::calendar::lemma_date_on(d);
        let date = crate::calendar::date_on(crate::calendar::local_day(timestamp_ms, offset_secs));
        let month = date.first_of_month_spec();
        let year = date.first_of_year_spec();
        match mark {
            CalendarMark::DayGrid(step) => {
                lemma_gap(step, days_from_origin(date));
                lemma_gap(step, days_from_origin(d));
                let gap = grid_gap(step, days_from_origin(date));
                crate::calendar::lemma_date_exists(date.day_number() + gap);
                assert(days_from_origin(d) == days_from_origin(date) + gap);
            },
            CalendarMark::MonthGrid(step) => {
                let gap = grid_gap(step, months_from_origin(date));
                lemma_gap(step, months_from_origin(date));
                lemma_gap(step, months_from_origin(d));
                crate::calendar::lemma_months_later(month, gap);
                assert(months_from_origin(d) == months_from_origin(date) + gap);
            },
            CalendarMark::YearGrid(step) => {
                let gap = grid_gap(step, years_from_origin(date));
                lemma_gap(step, years_from_origin(date));
                lemma_gap(step, years_from_origin(d));
                crate::calendar::lemma_months_later(year, gap * 12);
                assert(years_from_origin(d) == years_from_origin(date) + gap);
            },
            _ => {},
        }
    }
}

/// A day mark lies on the grid of days counted from the first of January 2000, which is day
/// 10957 after the start of 1970, and it is the first one from the local date of the instant
/// on. A step of zero counts as one.
pub proof fn law_day_marks_keep_to_the_grid(timestamp_ms: int, offset_secs: int, step: u64)
    requires
        dated(timestamp_ms, offset_secs),
    ensures
        mark_at(timestamp_ms, offset_secs, CalendarMark::DayGrid(step)) matches Some(d) ==> {
            let day = (timestamp_ms + offset_secs * 1000) / 86_400_000;
            let size = if step == 0 {
                1int
            } else {
                step as int
            };
            &&& (d.day_number() - 10_957) % size == 0
            &&& day <= d.day_number() < day + size
        },
{
    lemma_local_day(timestamp_ms, offset_secs);
    let date = crate::calendar::date_on(crate::calendar::local_day(timestamp_ms, offset_secs));
    let gap = grid_gap(step, days_from_origin(date));
    lemma_gap(step, days_from_origin(date));
    if date.day_number() + gap <= crate::calendar::MAX_DAY {
        crate::calendar::lemma_date_exists(date.day_number() + gap);
    }
}

/// While the view pans, a mark stays where it is: every instant between one that is
/// aligned to a mark and the mark itself is aligned to the same mark.
pub proof fn law_day_marks_stay_while_panning(
    timestamp_ms: int,
    panned_ms: int,
    offset_secs: int,
    step: u64,
)
    requires
        dated(timestamp_ms, offset_secs),
        dated(panned_ms, offset_secs),
        mark_at(timestamp_ms, offset_secs, CalendarMark::DayGrid(step)) is Some,
        timestamp_ms <= panned_ms,
        crate::calendar::local_day(panned_ms, offset_secs) <= mark_at(
            timestamp_ms,
            offset_secs,
            CalendarMark::DayGrid(step),
        )->0.day_number(),
    ensures
        mark_at(panned_ms, offset_secs, CalendarMark::DayGrid(step)) == mark_at(
            timestamp_ms,
            offset_secs,
            CalendarMark::DayGrid(step),
        ),
        boundary_utc_ms(panned_ms, offset_secs, CalendarMark::DayGrid(step)) == boundary_utc_ms(
            timestamp_ms,
            offset_secs,
            CalendarMark::DayGrid(step),
        ),
{
    let k = grid_step(step);
    lemma_local_day(timestamp_ms, offset_secs);
    lemma_local_day(panned_ms, offset_secs);
    let a = crate::calendar::date_on(crate::calendar::local_day(timestamp_ms, offset_secs));
    let b = crate::calendar::date_on(crate::calendar::local_day(panned_ms, offset_secs));
    let gap = grid_gap(step, days_from_origin(a));
    lemma_gap(step, days_from_origin(a));
    crate::calendar::lemma_date_exists(a.day_number() + gap);
    lemma_gap_shifts(step, days_from_origin(a), b.day_number() - a.day_number());
}

/// Closer to the next multiple, the gap is shorter by as much.
proof fn lemma_gap_shifts(step: u64, offset: int, by: int)
    requires
        0 <= by <= grid_gap(step, offset),
    ensures
        grid_gap(step, offset + by) == grid_gap(step, offset) - by,
{
    let k = grid_step(step);
    let gap = grid_gap(step, offset);
    lemma_gap(step, offset);
    let q = (-offset) / k;
    vstd::arithmetic::div_mod::lemma_fundamental_div_mod(-offset, k);
    vstd::arithmetic::mul::lemma_mul_is_commutative(q, k);
    vstd::arithmetic::div_mod::lemma_fundamental_div_mod_converse(-(offset + by), k, q, gap - by);
}

/// Month and year marks lie on their grids, which begin in 2000, start a month or a year, and
/// are the first ones from the month or the year of the instant on. A step of zero counts as
/// one.
pub proof fn law_month_and_year_marks_keep_to_the_grid(
    timestamp_ms: int,
    offset_secs: int,
    step: u64,
)
    requires
        dated(timestamp_ms, offset_secs),
    ensures
        mark_at(timestamp_ms, offset_secs, CalendarMark::MonthGrid(step)) matches Some(d) ==> {
            let date = crate::calendar::date_on(
                crate::calendar::local_day(timestamp_ms, offset_secs),
            );
            let size = if step == 0 {
                1int
            } else {
                step as int
            };
            &&& d.day == 1
            &&& ((d.year - 2000) * 12 + d.month - 1) % size == 0
            &&& 0 <= (d.year - date.year) * 12 + d.month - date.month < size
        },
        mark_at(timestamp_ms, offset_secs, CalendarMark::YearGrid(step)) matches Some(d) ==> {
            let date = crate::calendar::date_on(
                crate::calendar::local_day(timestamp_ms, offset_secs),
            );
            let size = if step == 0 {
                1int
            } else {
                step as int
            };
            &&& d.day == 1
            &&& d.month == 1
            &&& (d.year - 2000) % size == 0
            &&& date.year <= d.year < date.year + size
        },
{
    lemma_local_day(timestamp_ms, offset_secs);
    let date = crate::calendar::date_on(crate::calendar::local_day(timestamp_ms, offset_secs));
    let months = grid_gap(step, months_from_origin(date));
    let years = grid_gap(step, years_from_origin(date));
    lemma_gap(step, months_from_origin(date));
    lemma_gap(step, years_from_origin(date));
    crate::calendar::lemma_months_later(date.first_of_month_spec(), months);
    crate::calendar::lemma_months_later(date.first_of_year_spec(), years * 12);
}

/// The day, the month and the year of an instant start on its local date, on the first of the
/// month of that date, and on the first of January of its year.
pub proof fn law_starts_are_of_the_local_date(timestamp_ms: int, offset_secs: int)
    requires
        dated(timestamp_ms, offset_secs),
    ensures
        ({
            let date = crate::calendar::date_on((timestamp_ms + offset_secs * 1000) / 86_400_000);
            &&& mark_at(timestamp_ms, offset_secs, CalendarMark::Day) == Some(date)
            &&& mark_at(timestamp_ms, offset_secs, CalendarMark::Month) == Some(
                CivilDate { year: date.year, month: date.month, day: 1 },
            )
            &&& mark_at(timestamp_ms, offset_secs, CalendarMark::Year) == Some(
                CivilDate { year: date.year, month: 1, day: 1 },
            )
        }),
{
    lemma_local_day(timestamp_ms, offset_secs);
}

/// The next day, month and year are those right after the ones of the instant: nothing is
/// passed over. They are missing only past the end of the last year.
pub proof fn law_next_boundaries_pass_nothing_over(timestamp_ms: int, offset_secs: int)
    requires
        dated(timestamp_ms, offset_secs),
    ensures
        ({
            let date = crate::calendar::date_on((timestamp_ms + offset_secs * 1000) / 86_400_000);
            &&& match mark_at(timestamp_ms, offset_secs, CalendarMark::NextDay) {
                Some(d) => d.valid() && d.day_number() == date.day_number() + 1,
                None => date == (CivilDate { year: 262_142, month: 12, day: 31 }),
            }
            &&& match mark_at(timestamp_ms, offset_secs, CalendarMark::NextMonth) {
                Some(d) => d == if date.month < 12 {
                    CivilDate { year: date.year, month: (date.month + 1) as u32, day: 1 }
                } else {
                    CivilDate { year: (date.year + 1) as i32, month: 1, day: 1 }
                },
                None => date.year == 262_142 && date.month == 12,
            }
            &&& match mark_at(timestamp_ms, offset_secs, CalendarMark::NextYear) {
                Some(d) => d == (CivilDate { year: (date.year + 1) as i32, month: 1, day: 1 }),
                None => date.year == 262_142,
            }
        }),
{
    lemma_local_day(timestamp_ms, offset_secs);
    let date = crate::calendar::date_on(crate::calendar::local_day(timestamp_ms, offset_secs));
    crate::calendar::lemma_date_on(date);
    if date.day_number() + 1 <= crate::calendar::MAX_DAY {
        crate::calendar::lemma_date_exists(date.day_number() + 1);
    }
    crate::calendar::lemma_last_day();
    crate::calendar::law_day_number_is_ordered(
        date,
        CivilDate { year: 262_142, month: 12, day: 31 },
    );
}

/// A grid has a mark for an instant, unless the next point of the grid lies past the end of
/// the last year.
pub proof fn law_grids_end_with_the_last_year(timestamp_ms: int, offset_secs: int, step: u64)
    requires
        dated(timestamp_ms, offset_secs),
    ensures
        ({
            let date = crate::calendar::date_on((timestamp_ms + offset_secs * 1000) / 86_400_000);
            let size = if step == 0 {
                1int
            } else {
                step as int
            };
            &&& mark_at(timestamp_ms, offset_secs, CalendarMark::DayGrid(step)) is None
                ==> forall|day: int|
                date.day_number() <= day <= crate::calendar::MAX_DAY ==> #[trigger] (day - 10_957)
                    % size != 0
            &&& mark_at(timestamp_ms, offset_secs, CalendarMark::MonthGrid(step)) is None
                ==> forall|month: int|
                (date.year - 2000) * 12 + date.month - 1 <= month <= 260_142 * 12 + 11
                    ==> #[trigger] (month % size) != 0
            &&& mark_at(timestamp_ms, offset_secs, CalendarMark::YearGrid(step)) is None
                ==> forall|year: int|
                date.year <= year <= 262_142 ==> #[trigger] (year - 2000) % size != 0
        }),
{
    lemma_local_day(timestamp_ms, offset_secs);
    let date = crate::calendar::date_on(crate::calendar::local_day(timestamp_ms, offset_secs));
    let size = grid_step(step);
    let days = days_from_origin(date);
    let months = months_from_origin(date);
    let years = years_from_origin(date);
    lemma_gap(step, days);
    lemma_gap(step, months);
    lemma_gap(step, years);
    if mark_at(timestamp_ms, offset_secs, CalendarMark::DayGrid(step)) is None {
        assert forall|day: int|
            date.day_number() <= day <= crate::calendar::MAX_DAY implies #[trigger] (day - 10_957)
            % size != 0 by {
            lemma_no_multiple_before(step, days, day - 10_957);
        }
    }
    if mark_at(timestamp_ms, offset_secs, CalendarMark::MonthGrid(step)) is None {
        assert forall|month: int|
            (date.year - 2000) * 12 + date.month - 1 <= month <= 260_142 * 12
                + 11 implies #[trigger] (month % size) != 0 by {
            lemma_no_multiple_before(step, months, month);
        }
    }
    if mark_at(timestamp_ms, offset_secs, CalendarMark::YearGrid(step)) is None {
        assert forall|year: int| date.year <= year <= 262_142 implies #[trigger] (year - 2000)
            % size != 0 by {
            lemma_no_multiple_before(step, years, year - 2000);
        }
    }
}

proof fn lemma_no_multiple_before(step: u64, offset: int, n: int)
    requires
        offset <= n < offset + grid_gap(step, offset),
    ensures
        n % grid_step(step) != 0,
{
    let k = grid_step(step);
    lemma_gap(step, offset);
    lemma_gap_shifts(step, offset, n - offset);
    lemma_gap(step, n);
}

/// The distance to a grid leads to a multiple of the step, and there is none on the way. A
/// step of zero counts as one, so that everything lies on its grid.
pub proof fn law_distance_leads_to_the_grid(step: u64, offset: int)
    ensures
        step == 0 ==> grid_gap(step, offset) == 0,
        step > 0 ==> 0 <= grid_gap(step, offset) < step,
        step > 0 ==> (offset + grid_gap(step, offset)) % step as int == 0,
        step > 0 ==> forall|n: int|
            offset <= n < offset + grid_gap(step, offset) ==> #[trigger] (n % step as int) != 0,
{
    lemma_gap(step, offset);
    if step > 0 {
        assert forall|n: int| offset <= n < offset + grid_gap(step, offset) implies #[trigger] (n
            % step as int) != 0 by {
            lemma_no_multiple_before(step, offset, n);
        }
    }
}

/// A boundary is midnight of its date by the clock of the zone. It is missing only before
/// 1970, past the last instant, or where the date is missing.
pub proof fn law_boundaries_are_local_midnights(
    zone: UserTimezone,
    timestamp_ms: int,
    mark: CalendarMark,
    r: Option<u64>,
)
    requires
        zone is Utc || zone is Ist,
        zone.boundary_result(timestamp_ms, mark, r),
    ensures
        ({
            let offset: int = if zone is Ist {
                19_800
            } else {
                0
            };
            match (mark_at(timestamp_ms, offset, mark), r) {
                (Some(date), Some(ms)) => ms + offset * 1000 == date.day_number() * 86_400_000,
                (Some(date), None) => date.day_number() * 86_400_000 < offset * 1000
                    || date.day_number() * 86_400_000 - offset * 1000 > 8_210_266_876_799_999,
                (None, Some(_)) => false,
                (None, None) => true,
            }
        }),
{
}

/// By the clock of the machine a boundary lies within a day of midnight UTC on the date that
/// the mark has for one of the offsets that a clock can have.
pub proof fn law_local_boundaries_are_near_their_date(
    timestamp_ms: int,
    mark: CalendarMark,
    ms: u64,
)
    requires
        UserTimezone::Local.boundary_result(timestamp_ms, mark, Some(ms)),
    ensures
        exists|at: int|
            -86_400 < at < 86_400 && (#[trigger] mark_at(timestamp_ms, at, mark) matches Some(date)
                && date.day_number() * 86_400_000 - 86_400_000 < ms < date.day_number()
                * 86_400_000 + 86_400_000),
{
    let (at, midnight) = choose|at: int, midnight: int|
        {
            &&& #[trigger] crate::calendar::valid_offset(at)
            &&& #[trigger] crate::calendar::valid_offset(midnight)
            &&& mark_at(timestamp_ms, at, mark) matches Some(date)
            &&& ms == date.day_number() * DAY_MS - midnight * 1000
        };
    assert(mark_at(timestamp_ms, at, mark) is Some);
}

/// A midnight that was found is kept as it is, and only one before 1970 counts as none.
pub proof fn law_found_midnights_are_kept(found: Option<i64>)
    ensures
        found_spec(found) matches Some(ms) ==> found == Some(ms as i64) && ms
            <= 9_223_372_036_854_775_807,
        found_spec(found) is None <==> found is None || found->0 < 0,
{
}

/// In India the clock is five and a half hours ahead of UTC, and by UTC it is not. By the clock
/// of the machine it is less than a day off.
pub proof fn law_offsets_of_the_zones(offset_secs: int)
    ensures
        UserTimezone::Ist.may_have_offset(offset_secs) <==> offset_secs == 19_800,
        UserTimezone::Utc.may_have_offset(offset_secs) <==> offset_secs == 0,
        UserTimezone::Local.may_have_offset(offset_secs) <==> -86_400 < offset_secs < 86_400,
{
}

/// The local date can be asked for at every instant of UTC, and elsewhere at least up to a day
/// before the calendar ends.
pub proof fn law_local_dates_can_be_asked_for(zone: UserTimezone, timestamp_ms: u64)
    ensures
        timestamp_ms <= 8_210_266_790_399_999 ==> zone.date_in_range(timestamp_ms as int),
        timestamp_ms > 8_210_266_876_799_999 ==> zone.date_in_range(timestamp_ms as int),
        zone is Utc ==> zone.date_in_range(timestamp_ms as int),
        zone is Ist && timestamp_ms <= 8_210_266_876_799_999 ==> (zone.date_in_range(
            timestamp_ms as int,
        ) <==> timestamp_ms + 19_800_000 <= 8_210_266_876_799_999),
        zone is Local && timestamp_ms <= 8_210_266_876_799_999 ==> (zone.date_in_range(
            timestamp_ms as int,
        ) <==> timestamp_ms + 86_400_000 <= 8_210_266_876_799_999),
{
}

/// There is a midnight of a day exactly if it is not before 1970 and not beyond the calendar; in
/// UTC it is a whole number of days after 1970 began, and to the east it comes as much earlier
/// as the clock is ahead.
pub proof fn law_midnights(day: int, offset_secs: int)
    ensures
        midnight_utc_ms(day, offset_secs) is Some <==> 0 <= day * 86_400_000 - offset_secs * 1000
            <= 8_210_266_876_799_999,
        midnight_utc_ms(day, offset_secs) matches Some(ms) ==> ms + offset_secs * 1000 == day
            * 86_400_000,
{
}

} // verus!

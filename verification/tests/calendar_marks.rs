use marketview::calendar::CivilDate;
use marketview::timezone::{
    advance_to_grid, calendar_mark, found_utc_ms, CalendarMark, UserTimezone,
};

const DAY: u64 = 86_400_000;
const IST_MS: u64 = 19_800_000;

/// 2024-02-29 12:00 UTC.
const NOON: u64 = 1_709_208_000_000;

fn date(year: i32, month: u32, day: u32) -> CivilDate {
    CivilDate { year, month, day }
}

#[test]
fn grid_distance_is_forward() {
    assert_eq!(advance_to_grid(7, 0), 0);
    assert_eq!(advance_to_grid(7, 1), 6);
    assert_eq!(advance_to_grid(7, 7), 0);
    assert_eq!(advance_to_grid(7, -1), 1);
    assert_eq!(advance_to_grid(7, -8), 1);
    assert_eq!(advance_to_grid(0, 5), 0);
    assert_eq!(advance_to_grid(1, -5), 0);
    assert_eq!(advance_to_grid(10, i64::MIN), 8);
    assert_eq!(advance_to_grid(10, i64::MAX), 3);
    assert_eq!(advance_to_grid(u64::MAX, 1), u64::MAX - 1);
}

#[test]
fn day_month_and_year_starts_in_utc() {
    let zone = UserTimezone::Utc;
    assert_eq!(zone.start_of_local_day_utc_ms(NOON), Some(1_709_164_800_000));
    assert_eq!(zone.start_of_local_month_utc_ms(NOON), Some(1_706_745_600_000));
    assert_eq!(zone.start_of_local_year_utc_ms(NOON), Some(1_704_067_200_000));
    assert_eq!(zone.next_local_day_utc_ms(NOON), Some(1_709_251_200_000));
    assert_eq!(zone.next_local_month_utc_ms(NOON), Some(1_709_251_200_000));
    assert_eq!(zone.next_local_year_utc_ms(NOON), Some(1_735_689_600_000));
}

#[test]
fn next_month_starts_on_its_first_day() {
    // 2024-01-31 05:00 UTC: the month after starts on February 1.
    let last_of_january = 1_706_677_200_000;
    assert_eq!(UserTimezone::Utc.next_local_month_utc_ms(last_of_january), Some(1_706_745_600_000));
    assert_eq!(UserTimezone::Utc.next_local_year_utc_ms(last_of_january), Some(1_735_689_600_000));
}

#[test]
fn india_is_five_and_a_half_hours_ahead() {
    let zone = UserTimezone::Ist;
    assert_eq!(zone.start_of_local_day_utc_ms(NOON), Some(1_709_164_800_000 - IST_MS));
    // 20:00 UTC is 01:30 of the next day there.
    let evening = NOON + 8 * 3_600_000;
    assert_eq!(zone.start_of_local_day_utc_ms(evening), Some(1_709_251_200_000 - IST_MS));
    assert_eq!(UserTimezone::default(), UserTimezone::Ist);
}

#[test]
fn instants_before_1970_and_beyond_the_years_have_no_boundary() {
    // 1970-01-01 in India began before 1970 in UTC.
    assert_eq!(UserTimezone::Ist.start_of_local_day_utc_ms(0), None);
    assert_eq!(UserTimezone::Utc.start_of_local_day_utc_ms(0), Some(0));
    assert_eq!(UserTimezone::Utc.start_of_local_day_utc_ms(8_210_266_876_800_000), None);
    assert_eq!(UserTimezone::Utc.start_of_local_day_utc_ms(u64::MAX), None);
    assert_eq!(UserTimezone::Utc.next_local_day_utc_ms(8_210_266_876_799_999), None);
    assert_eq!(UserTimezone::Utc.next_local_month_utc_ms(8_210_266_876_799_999), None);
    assert_eq!(
        UserTimezone::Utc.start_of_local_day_utc_ms(8_210_266_876_799_999),
        Some(8_210_266_876_799_999 - DAY + 1)
    );
}

#[test]
fn midnight_of_a_date() {
    assert_eq!(UserTimezone::Utc.local_midnight_utc_ms(date(2024, 2, 29)), Some(1_709_164_800_000));
    assert_eq!(
        UserTimezone::Ist.local_midnight_utc_ms(date(2024, 2, 29)),
        Some(1_709_164_800_000 - IST_MS)
    );
    assert_eq!(UserTimezone::Utc.local_midnight_utc_ms(date(1969, 12, 31)), None);
    assert_eq!(UserTimezone::Ist.local_midnight_utc_ms(date(-262_143, 1, 1)), None);
}

#[test]
fn day_grid_is_anchored_at_the_year_2000() {
    // 8825 days after 2000-01-01; the next multiple of seven is two days on.
    assert_eq!(
        UserTimezone::Utc.align_to_skip_grid(NOON, 7),
        Some(1_709_164_800_000 + 2 * DAY)
    );
    assert_eq!(UserTimezone::Utc.align_to_skip_grid(NOON, 1), Some(1_709_164_800_000));
    assert_eq!(UserTimezone::Utc.align_to_skip_grid(NOON, 0), Some(1_709_164_800_000));
    assert_eq!(UserTimezone::Utc.align_to_skip_grid(946_684_800_000, 12), Some(946_684_800_000));
    assert_eq!(UserTimezone::Utc.align_to_skip_grid(NOON, u64::MAX), None);
}

#[test]
fn day_grid_stays_while_the_view_pans() {
    let zone = UserTimezone::Utc;
    let mark = zone.align_to_skip_grid(NOON, 7).unwrap();
    for hours in 0..36 {
        assert_eq!(zone.align_to_skip_grid(NOON + hours * 3_600_000, 7), Some(mark));
    }
    assert_eq!(zone.align_to_skip_grid(mark, 7), Some(mark));
    assert_eq!(zone.align_to_skip_grid(mark + DAY, 7), Some(mark + 7 * DAY));
}

#[test]
fn month_and_year_grids() {
    let zone = UserTimezone::Utc;
    // 289 months after 2000-01; the next multiple of six is five months on.
    assert_eq!(zone.align_to_month_grid(NOON, 6), Some(1_719_792_000_000));
    assert_eq!(zone.align_to_month_grid(NOON, 1), Some(1_706_745_600_000));
    // 24 years after 2000; the next multiple of ten is six years on.
    assert_eq!(zone.align_to_year_grid(NOON, 10), Some(1_893_456_000_000));
    assert_eq!(zone.align_to_year_grid(NOON, 1), Some(1_704_067_200_000));
    assert_eq!(zone.align_to_year_grid(NOON, u64::MAX), None);
    assert_eq!(zone.align_to_month_grid(NOON, u64::MAX), None);
}

#[test]
fn month_and_year_starts_are_found_again() {
    let zone = UserTimezone::Ist;
    let month = zone.align_to_month_grid(NOON, 6).unwrap();
    assert_eq!(zone.align_to_month_grid(month, 6), Some(month));
    assert_eq!(zone.start_of_local_month_utc_ms(month), Some(month));
    let year = zone.align_to_year_grid(NOON, 10).unwrap();
    assert_eq!(zone.align_to_year_grid(year, 10), Some(year));
    assert_eq!(zone.start_of_local_year_utc_ms(year), Some(year));
}

#[test]
fn boundaries_enclose_the_instant() {
    for zone in [UserTimezone::Utc, UserTimezone::Ist, UserTimezone::Local] {
        let day = zone.start_of_local_day_utc_ms(NOON).unwrap();
        let next = zone.next_local_day_utc_ms(NOON).unwrap();
        assert!(day <= NOON && NOON < next);
        let month = zone.start_of_local_month_utc_ms(NOON).unwrap();
        let next_month = zone.next_local_month_utc_ms(NOON).unwrap();
        assert!(month <= day && next <= next_month);
        let year = zone.start_of_local_year_utc_ms(NOON).unwrap();
        let next_year = zone.next_local_year_utc_ms(NOON).unwrap();
        assert!(year <= month && next_month <= next_year);
    }
}

#[test]
fn marks_by_a_given_offset() {
    let mark = |mark| calendar_mark(NOON, 0, mark);
    assert_eq!(mark(CalendarMark::Day), Some(date(2024, 2, 29)));
    assert_eq!(mark(CalendarMark::Month), Some(date(2024, 2, 1)));
    assert_eq!(mark(CalendarMark::Year), Some(date(2024, 1, 1)));
    assert_eq!(mark(CalendarMark::NextDay), Some(date(2024, 3, 1)));
    assert_eq!(mark(CalendarMark::NextMonth), Some(date(2024, 3, 1)));
    assert_eq!(mark(CalendarMark::NextYear), Some(date(2025, 1, 1)));
    assert_eq!(mark(CalendarMark::DayGrid(7)), Some(date(2024, 3, 2)));
    assert_eq!(mark(CalendarMark::MonthGrid(6)), Some(date(2024, 7, 1)));
    assert_eq!(mark(CalendarMark::YearGrid(10)), Some(date(2030, 1, 1)));
    assert_eq!(calendar_mark(NOON, 43_200, CalendarMark::Day), Some(date(2024, 3, 1)));
    assert_eq!(calendar_mark(NOON, -43_201, CalendarMark::Day), Some(date(2024, 2, 28)));
}

#[test]
fn first_days_of_a_date() {
    assert_eq!(date(2023, 11, 30).first_of_month(), date(2023, 11, 1));
    assert_eq!(date(2023, 11, 30).first_of_year(), date(2023, 1, 1));
}

#[test]
fn midnights_that_were_found() {
    assert_eq!(found_utc_ms(Some(5)), Some(5));
    assert_eq!(found_utc_ms(Some(0)), Some(0));
    assert_eq!(found_utc_ms(Some(-1)), None);
    assert_eq!(found_utc_ms(None), None);
}

#[test]
fn instants_that_have_a_local_date() {
    const LAST: u64 = 8_210_266_876_799_999;
    assert!(UserTimezone::Utc.has_local_date(LAST));
    assert!(UserTimezone::Ist.has_local_date(LAST - IST_MS));
    assert!(!UserTimezone::Ist.has_local_date(LAST - IST_MS + 1));
    assert!(UserTimezone::Local.has_local_date(LAST - DAY));
    assert!(!UserTimezone::Local.has_local_date(LAST - DAY + 1));
    for zone in [UserTimezone::Ist, UserTimezone::Utc, UserTimezone::Local] {
        assert!(zone.has_local_date(0));
        assert!(zone.has_local_date(LAST + 1));
        assert!(zone.has_local_date(u64::MAX));
    }
}

use marketview::comparison::format_crosshair_time;
use marketview::time_label::{format_at_offset, local_zone_label, TimeLabelKind};
use marketview::timeframe::Timeframe;
use marketview::timezone::UserTimezone;

/// 2024-02-29 12:00:05.123 UTC.
const AT: i64 = 1_709_208_005_123;

fn label(zone: UserTimezone, kind: TimeLabelKind<'_>) -> Option<String> {
    zone.format_with_kind(AT, kind)
}

#[test]
fn axis_labels_show_seconds_below_ten_seconds() {
    let axis = |timeframe| label(UserTimezone::Utc, TimeLabelKind::Axis { timeframe });
    assert_eq!(axis(Timeframe::MS100), Some("00:05".to_string()));
    assert_eq!(axis(Timeframe::MS500), Some("00:05".to_string()));
    assert_eq!(axis(Timeframe::M1), Some("12:00".to_string()));
    assert_eq!(axis(Timeframe::D1), Some("12:00".to_string()));
}

#[test]
fn crosshair_labels() {
    let millis = TimeLabelKind::Crosshair { show_millis: true };
    let date = TimeLabelKind::Crosshair { show_millis: false };
    assert_eq!(label(UserTimezone::Utc, millis), Some("12:00:05.123".to_string()));
    assert_eq!(label(UserTimezone::Ist, millis), Some("17:30:05.123".to_string()));
    assert_eq!(label(UserTimezone::Utc, date), Some("Thu Feb 29 12:00".to_string()));
    assert_eq!(label(UserTimezone::Ist, date), Some("Thu Feb 29 17:30".to_string()));
}

#[test]
fn custom_labels() {
    assert_eq!(
        label(UserTimezone::Utc, TimeLabelKind::Custom("%Y-%m-%d")),
        Some("2024-02-29".to_string())
    );
    assert_eq!(
        label(UserTimezone::Utc, TimeLabelKind::Custom("%H:%M:%S%.3f")),
        Some("12:00:05.123".to_string())
    );
    assert_eq!(label(UserTimezone::Utc, TimeLabelKind::Custom("%Q")), None);
}

#[test]
fn labels_at_an_offset() {
    let axis = TimeLabelKind::Axis { timeframe: Timeframe::H1 };
    assert_eq!(format_at_offset(AT, -3_600, axis), Some("11:00".to_string()));
    assert_eq!(format_at_offset(i64::MAX, 0, axis), None);
    assert_eq!(format_at_offset(i64::MIN, 0, axis), None);
}

#[test]
fn datetimes_in_a_zone() {
    let read = UserTimezone::Ist.to_user_datetime(AT).unwrap();
    assert_eq!(read.timestamp_ms, AT);
    assert_eq!(read.offset_secs, 19_800);
    assert_eq!(UserTimezone::Utc.to_user_datetime(AT).unwrap().offset_secs, 0);
    assert!(UserTimezone::Local.to_user_datetime(AT).is_some());
    assert!(UserTimezone::Utc.to_user_datetime(i64::MAX).is_none());
}

#[test]
fn zones_in_configuration() {
    for zone in [UserTimezone::Ist, UserTimezone::Utc, UserTimezone::Local] {
        assert_eq!(UserTimezone::from_config_text(zone.config_text()), Ok(zone));
    }
    assert_eq!(UserTimezone::from_config_text("iSt"), Ok(UserTimezone::Ist));
    assert_eq!(UserTimezone::from_config_text("LOCAL"), Ok(UserTimezone::Local));
    assert_eq!(
        UserTimezone::from_config_text("CET"),
        Err("Invalid UserTimezone".to_string())
    );
    assert_eq!(
        UserTimezone::from_config_text(""),
        Err("Invalid UserTimezone".to_string())
    );
}

#[test]
fn zones_as_the_user_reads_them() {
    assert_eq!(UserTimezone::Ist.display_text(), "IST (UTC +05:30)");
    assert_eq!(UserTimezone::Utc.display_text(), "UTC");
    assert!(UserTimezone::Local.display_text().starts_with("Local (UTC "));
    assert_eq!(local_zone_label(0), "Local (UTC +00:00)");
    assert_eq!(local_zone_label(19_800), "Local (UTC +05:30)");
    assert_eq!(local_zone_label(3_600), "Local (UTC +01:00)");
    assert_eq!(local_zone_label(-18_000), "Local (UTC -05:00)");
    assert_eq!(local_zone_label(-12_600), format!("Local (UTC {:+03}:{:02})", -3, -30));
    assert_eq!(local_zone_label(-1_800), format!("Local (UTC {:+03}:{:02})", 0, -30));
}

#[test]
fn crosshair_time_falls_back_to_the_number() {
    assert_eq!(format_crosshair_time(AT as u64, UserTimezone::Utc), "Thu Feb 29 12:00");
    assert_eq!(format_crosshair_time(i64::MAX as u64, UserTimezone::Utc), "9223372036854775807");
}

#[test]
fn labels_with_a_date() {
    let date = TimeLabelKind::Custom("%m-%d %H:%M");
    assert_eq!(label(UserTimezone::Utc, date), Some("02-29 12:00".to_string()));
    // The first of a month, a Friday.
    let first = 1_709_251_200_000;
    let crosshair = TimeLabelKind::Crosshair { show_millis: false };
    assert_eq!(format_at_offset(first, 0, date), Some("03-01 00:00".to_string()));
    assert_eq!(format_at_offset(first, 0, crosshair), Some("Fri Mar 1 00:00".to_string()));
    // The day after the last year, and the day before the first.
    let last = 8_210_266_876_799_999;
    assert_eq!(format_at_offset(last, 60, date), Some("01-01 00:00".to_string()));
    assert_eq!(format_at_offset(last, 60, crosshair), Some("Tue Jan 1 00:00".to_string()));
    let earliest = -8_334_601_228_800_000;
    assert_eq!(format_at_offset(earliest, -60, date), Some("12-31 23:59".to_string()));
    assert_eq!(format_at_offset(earliest, -60, crosshair), Some("Wed Dec 31 23:59".to_string()));
}

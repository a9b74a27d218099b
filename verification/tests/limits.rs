use marketview::limiter::{
    parse_number, read_weight, ClockReading, DynamicBucket, DynamicLimitReason,
    DynamicRateLimiterConfig, DynamicReading, FixedWindowBucket, FixedWindowRateLimiter,
    FixedWindowRateLimiterConfig, HeaderDynamicRateLimiter, RateLimiter, ResponseInfo, TimeSpan,
};
use marketview::ticker::Bits32;
use reqwest::header::{HeaderMap, HeaderName, HeaderValue};

fn secs(n: u64) -> TimeSpan {
    TimeSpan::from_secs(n)
}

fn millis(n: u64) -> TimeSpan {
    TimeSpan::from_millis(n)
}

/// The wall clock inside a window of ten seconds, the steady clock at `now`.
fn inside(now: TimeSpan) -> ClockReading {
    ClockReading { wall: Some(secs(1_000_003)), now, later: now }
}

fn response(status: u16, name: &'static str, values: &[&'static str]) -> ResponseInfo {
    let mut headers = HeaderMap::new();
    for value in values {
        headers.append(HeaderName::from_static(name), HeaderValue::from_static(value));
    }
    ResponseInfo { status, headers }
}

#[test]
fn spans_of_time() {
    assert_eq!(secs(2).nanos, 2_000_000_000);
    assert_eq!(millis(3).nanos, 3_000_000);
    assert_eq!(secs(2).saturating_sub(&millis(500)), millis(1_500));
    assert_eq!(millis(500).saturating_sub(&secs(2)), millis(0));
}

#[test]
fn a_bucket_grants_until_it_is_empty() {
    let mut bucket = FixedWindowBucket::new(10, secs(10));
    assert_eq!(bucket.calculate_wait_time_at(6, &inside(secs(1))), None);
    assert_eq!(bucket.calculate_wait_time_at(4, &inside(secs(2))), None);
    // Nothing is left: the rest of the window has to pass.
    assert_eq!(bucket.calculate_wait_time_at(1, &inside(secs(3))), Some(secs(7)));
    assert_eq!(bucket.calculate_wait_time_at(0, &inside(secs(4))), None);
}

#[test]
fn waiting_as_told_is_enough() {
    let mut bucket = FixedWindowBucket::new(10, secs(10));
    assert_eq!(bucket.calculate_wait_time_at(8, &inside(secs(1))), None);
    let wait = bucket.calculate_wait_time_at(9, &inside(secs(4))).unwrap();
    assert_eq!(wait, secs(6));
    assert_eq!(bucket.calculate_wait_time_at(9, &inside(secs(10))), None);
    // The window begins anew there.
    assert_eq!(bucket.calculate_wait_time_at(9, &inside(secs(11))), Some(secs(9)));
}

#[test]
fn a_bucket_fills_up_at_the_start_of_a_period() {
    let mut bucket = FixedWindowBucket::new(10, secs(10));
    assert_eq!(bucket.calculate_wait_time_at(10, &inside(secs(1))), None);
    let at_start = ClockReading { wall: Some(millis(1_000_000_999)), ..inside(secs(2)) };
    assert_eq!(bucket.calculate_wait_time_at(10, &at_start), None);
    let past_start = ClockReading { wall: Some(secs(1_000_001)), ..inside(secs(3)) };
    assert_eq!(bucket.calculate_wait_time_at(10, &past_start), Some(secs(9)));
}

#[test]
fn a_bucket_does_not_fill_up_before_1970() {
    let mut bucket = FixedWindowBucket::new(10, secs(10));
    let early = ClockReading { wall: None, now: secs(50), later: secs(51) };
    assert_eq!(bucket.calculate_wait_time_at(10, &early), None);
    // The window has long passed, and there is nothing to wait for.
    assert_eq!(bucket.calculate_wait_time_at(1, &early), Some(secs(0)));
}

#[test]
fn more_than_a_full_bucket_is_never_granted() {
    let mut bucket = FixedWindowBucket::new(10, secs(10));
    assert_eq!(bucket.calculate_wait_time_at(11, &inside(secs(30))), Some(secs(10)));
    assert_eq!(bucket.calculate_wait_time_at(10, &inside(secs(31))), None);
}

#[test]
fn tokens_are_used_up_as_far_as_there_are_any() {
    let mut bucket = FixedWindowBucket::new(10, secs(10));
    bucket.consume_tokens_at(7, &inside(secs(1)));
    assert_eq!(bucket.calculate_wait_time_at(4, &inside(secs(1))), Some(secs(9)));
    bucket.consume_tokens_at(100, &inside(secs(1)));
    assert_eq!(bucket.calculate_wait_time_at(1, &inside(secs(1))), Some(secs(9)));
}

#[test]
fn buckets_read_the_clocks_of_the_machine() {
    let mut bucket = FixedWindowBucket::new(5, secs(3_600));
    assert_eq!(bucket.calculate_wait_time(5), None);
    bucket.consume_tokens(1);
    if let Some(wait) = bucket.calculate_wait_time(5) {
        assert!(wait.nanos <= secs(3_600).nanos);
        assert!(wait.nanos > secs(3_500).nanos);
    }
    let mut dynamic = DynamicBucket::new(5, secs(3_600));
    assert_eq!(dynamic.prepare_request(5), (None, None));
    dynamic.update_weight(5);
    let (wait, reason) = dynamic.prepare_request(1);
    assert_eq!(reason, Some(DynamicLimitReason::HeaderRate));
    assert!(wait.unwrap().nanos >= millis(50).nanos);
    assert!(wait.unwrap().nanos <= secs(3_601).nanos);
}

fn reading(now: TimeSpan, wall: Option<TimeSpan>) -> DynamicReading {
    DynamicReading { now, wall, fallback: inside(now) }
}

#[test]
fn reports_of_the_source_come_first() {
    let mut bucket = DynamicBucket::new(100, secs(60));
    bucket.update_weight_at(90, secs(1));
    let clock = reading(secs(2), Some(millis(60_000 * 7 + 12_345)));
    assert_eq!(bucket.prepare_request_at(10, &clock), (None, None));
    assert_eq!(
        bucket.prepare_request_at(11, &clock),
        (Some(millis(60_000 - 12_345 + 50)), Some(DynamicLimitReason::HeaderRate))
    );
    // A wall clock before 1970 counts as the start of a period.
    assert_eq!(
        bucket.prepare_request_at(11, &reading(secs(2), None)),
        (Some(millis(60_050)), Some(DynamicLimitReason::HeaderRate))
    );
    bucket.update_weight_at(200, secs(3));
    assert_eq!(bucket.prepare_request_at(0, &reading(secs(4), None)), (None, None));
}

#[test]
fn reports_are_gone_by_for_a_window() {
    let mut bucket = DynamicBucket::new(100, secs(10));
    bucket.update_weight_at(100, secs(1));
    assert_eq!(
        bucket.prepare_request_at(1, &reading(secs(11), Some(secs(1_000_003)))).1,
        Some(DynamicLimitReason::HeaderRate)
    );
    let late = reading(millis(11_001), Some(secs(1_000_003)));
    assert_eq!(bucket.prepare_request_at(1, &late), (None, None));
    assert_eq!(
        bucket.prepare_request_at(100, &late),
        (Some(secs(10)), Some(DynamicLimitReason::FixedWindowRate))
    );
}

#[test]
fn a_report_of_nothing_changes_nothing() {
    let mut bucket = DynamicBucket::new(100, secs(10));
    bucket.update_weight_at(0, secs(1));
    assert_eq!(bucket.prepare_request_at(100, &reading(secs(2), None)), (None, None));
    bucket.update_weight_at(100, secs(3));
    bucket.update_weight_at(0, secs(4));
    assert_eq!(
        bucket.prepare_request_at(1, &reading(secs(5), None)).1,
        Some(DynamicLimitReason::HeaderRate)
    );
}

#[test]
fn short_periods_go_by_reports() {
    let mut bucket = DynamicBucket::new(10, millis(100));
    bucket.update_weight_at(10, millis(1));
    assert_eq!(
        bucket.prepare_request_at(1, &reading(millis(2), Some(millis(730)))),
        (Some(millis(120)), Some(DynamicLimitReason::HeaderRate))
    );
}

#[test]
fn numbers_in_headers() {
    let parse = |text: &str| parse_number(&text.as_bytes().to_vec());
    assert_eq!(parse("0"), Some(0));
    assert_eq!(parse("0042"), Some(42));
    assert_eq!(parse("+7"), Some(7));
    assert_eq!(parse("18446744073709551615"), Some(usize::MAX));
    for text in ["", "+", "-1", "1 ", " 1", "1.5", "++1", "18446744073709551616", "99999999999999999999", "x"] {
        assert_eq!(parse(text), text.parse::<usize>().ok());
        assert_eq!(parse(text), None);
    }
    assert_eq!(read_weight(&b"12".to_vec()), Some(12));
    assert_eq!(read_weight(&vec![b'1', 0x80]), None);
    assert_eq!(read_weight(&vec![b'1', 0x7f]), None);
    assert_eq!(read_weight(&vec![b'1', 9]), None);
}

#[test]
fn a_fixed_limiter_exits_on_its_status() {
    let config = FixedWindowRateLimiterConfig::new(100, secs(3_600), Bits32(0), 429);
    let mut limiter = FixedWindowRateLimiter::new(config, 95);
    assert!(limiter.should_exit_on_response(&response(429, "x", &[])));
    assert!(!limiter.should_exit_on_response(&response(418, "x", &[])));
    assert_eq!(limiter.prepare_request(95), None);
    limiter.update_from_response(&response(200, "x", &[]), 1_000);
    assert!(limiter.should_exit_on_response(&response(429, "x", &[])));
    assert_eq!(limiter.prepare_request(0), None);
}

#[test]
fn a_dynamic_limiter_reads_its_header() {
    let config =
        DynamicRateLimiterConfig::new(100, secs(3_600), Bits32(0), "X-Used-Weight", 429, Some(418));
    let mut limiter = HeaderDynamicRateLimiter::new(config, 95);
    assert!(limiter.should_exit_on_response(&response(429, "x", &[])));
    assert!(limiter.should_exit_on_response(&response(418, "x", &[])));
    assert!(!limiter.should_exit_on_response(&response(200, "x", &[])));
    assert_eq!(limiter.prepare_request(95), None);
    // Neither another header nor an unreadable value is a report.
    limiter.update_from_response(&response(200, "x-other", &["95"]), 1);
    limiter.update_from_response(&response(200, "x-used-weight", &["many"]), 1);
    limiter.update_from_response(&response(200, "x-used-weight", &["90", "1"]), 1);
    assert_eq!(limiter.prepare_request(5), None);
    let wait = limiter.prepare_request(6).unwrap();
    assert!(wait.nanos >= millis(50).nanos);
    assert!(wait.nanos <= secs(3_601).nanos);
    limiter.update_from_response(&response(200, "x-used-weight", &["1"]), 1);
    assert_eq!(limiter.prepare_request(94), None);
}

#[test]
fn reports_are_taken_whatever_the_period() {
    let config = DynamicRateLimiterConfig::new(100, millis(200), Bits32(0), "X-Used", 429, None);
    let mut limiter = HeaderDynamicRateLimiter::new(config, 95);
    limiter.update_from_response(&response(200, "x-used", &["90"]), 1);
    assert!(!limiter.should_exit_on_response(&response(200, "x", &[])));
}

#[test]
fn grants_and_uses_of_a_window_keep_to_the_limit() {
    let mut bucket = FixedWindowBucket::new(10, secs(60));
    let at = |n| inside(secs(n));
    assert_eq!(bucket.calculate_wait_time_at(4, &at(1)), None);
    bucket.consume_tokens_at(3, &at(2));
    assert_eq!(bucket.calculate_wait_time_at(4, &at(3)), Some(secs(57)));
    assert_eq!(bucket.calculate_wait_time_at(3, &at(4)), None);
    bucket.consume_tokens_at(3, &at(5));
    assert_eq!(bucket.calculate_wait_time_at(1, &at(6)), Some(secs(54)));
}

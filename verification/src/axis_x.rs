//! The time axis below a heatmap: its labels, and what the mouse does with it.
use crate::comparison::ClickKind;
use crate::text::same_text;
use vstd::prelude::*;

verus! {

pub const MS_FORMAT: &'static str = "%H:%M:%S%.3f";

pub const SECOND_FORMAT: &'static str = "%H:%M:%S";

pub const MINUTE_FORMAT: &'static str = "%H:%M";

pub const DATE_FORMAT: &'static str = "%m-%d %H:%M";

/// The format of the labels: up to ten seconds in view with milliseconds, up to ten minutes
/// with seconds, up to a day with minutes, and beyond with the date.
pub open spec fn time_format(visible_span_ms: int) -> Seq<char> {
    if visible_span_ms <= 10_000 {
        MS_FORMAT@
    } else if visible_span_ms <= 600_000 {
        SECOND_FORMAT@
    } else if visible_span_ms <= 86_400_000 {
        MINUTE_FORMAT@
    } else {
        DATE_FORMAT@
    }
}

pub fn pick_time_format(visible_span_ms: i64) -> (r: &'static str)
    ensures
        r@ == time_format(visible_span_ms as int),
{
    if visible_span_ms <= 10_000 {
        MS_FORMAT
    } else if visible_span_ms <= 600_000 {
        SECOND_FORMAT
    } else if visible_span_ms <= 86_400_000 {
        MINUTE_FORMAT
    } else {
        DATE_FORMAT
    }
}

/// As many characters as a label of a format has at most.
pub open spec fn max_chars_of(fmt: Seq<char>) -> int {
    if fmt == MS_FORMAT@ {
        12
    } else if fmt == SECOND_FORMAT@ {
        8
    } else if fmt == MINUTE_FORMAT@ {
        5
    } else if fmt == DATE_FORMAT@ {
        11
    } else {
        16
    }
}

pub fn max_label_chars(fmt: &str) -> (r: usize)
    ensures
        r == max_chars_of(fmt@),
{
    if same_text(fmt, MS_FORMAT) {
        12
    } else if same_text(fmt, SECOND_FORMAT) {
        8
    } else if same_text(fmt, MINUTE_FORMAT) {
        5
    } else if same_text(fmt, DATE_FORMAT) {
        11
    } else {
        16
    }
}

/// The format that is picked for a span decides how long a label is: every label that any
/// zone writes in it has as many characters as are reserved for one.
pub proof fn law_labels_are_as_long_as_reserved(
    visible_span_ms: int,
    zone: crate::timezone::UserTimezone,
    timestamp_ms: i64,
    label: Seq<char>,
)
    requires
        zone.may_label(timestamp_ms, time_format(visible_span_ms), Some(label)),
    ensures
        label.len() == max_chars_of(time_format(visible_span_ms)),
        max_chars_of(time_format(visible_span_ms)) == if visible_span_ms <= 10_000 {
            12int
        } else if visible_span_ms <= 600_000 {
            8
        } else if visible_span_ms <= 86_400_000 {
            5
        } else {
            11
        },
{
    reveal_strlit("%H:%M");
    reveal_strlit("%M:%S");
    reveal_strlit("%H:%M:%S");
    reveal_strlit("%H:%M:%S.%3f");
    reveal_strlit("%H:%M:%S%.3f");
    reveal_strlit("%m-%d %H:%M");
    reveal_strlit("%a %b %-d %H:%M");
    assert("%H:%M"@[1] != "%M:%S"@[1]);
    assert("%H:%M:%S%.3f"@[8] != "%H:%M:%S.%3f"@[8]);
    assert(MS_FORMAT@ == "%H:%M:%S%.3f"@);
    assert(SECOND_FORMAT@ == "%H:%M:%S"@);
    assert(MINUTE_FORMAT@ == "%H:%M"@);
    assert(DATE_FORMAT@ == "%m-%d %H:%M"@);
    assert("%H:%M:%S%.3f"@.len() == 12);
    assert("%H:%M:%S"@.len() == 8);
    assert("%H:%M"@.len() == 5);
    assert("%m-%d %H:%M"@.len() == 11);
}

/// The digit that a character stands for.
pub open spec fn digit(c: char) -> int {
    c as int - '0' as int
}

/// A label shows the local time: with up to a day in view it begins with the hour and the
/// minute, followed by the second where ten minutes or less are in view, and by the
/// milliseconds where ten seconds or less are; beyond a day it ends with hour and minute, and
/// begins with the month and the day of the local date.
pub proof fn law_labels_show_the_local_time(
    visible_span_ms: int,
    zone: crate::timezone::UserTimezone,
    timestamp_ms: i64,
    label: Seq<char>,
)
    requires
        zone.may_label(timestamp_ms, time_format(visible_span_ms), Some(label)),
    ensures
        exists|offset: int| #[trigger]
            zone.may_have_offset(offset) && ({
                let local = timestamp_ms + offset * 1000;
                let hour = local / 3_600_000 % 24;
                let minute = local / 60_000 % 60;
                let second = local / 1000 % 60;
                let at: int = if visible_span_ms > 86_400_000 {
                    6
                } else {
                    0
                };
                &&& digit(label[at]) * 10 + digit(label[at + 1]) == hour
                &&& label[at + 2] == ':'
                &&& digit(label[at + 3]) * 10 + digit(label[at + 4]) == minute
                &&& visible_span_ms <= 600_000 ==> label[5] == ':' && digit(label[6]) * 10 + digit(
                    label[7],
                ) == second
                &&& visible_span_ms <= 10_000 ==> label[8] == '.' && digit(label[9]) * 100 + digit(
                    label[10],
                ) * 10 + digit(label[11]) == local % 1000
                &&& visible_span_ms > 86_400_000 ==> {
                    let date = crate::calendar::date_on(local / 86_400_000);
                    &&& digit(label[0]) * 10 + digit(label[1]) == date.month
                    &&& label[2] == '-'
                    &&& digit(label[3]) * 10 + digit(label[4]) == date.day
                    &&& label[5] == ' '
                }
            }),
{
    reveal_strlit("%H:%M");
    reveal_strlit("%M:%S");
    reveal_strlit("%H:%M:%S");
    reveal_strlit("%H:%M:%S.%3f");
    reveal_strlit("%H:%M:%S%.3f");
    reveal_strlit("%m-%d %H:%M");
    reveal_strlit("%a %b %-d %H:%M");
    assert("%H:%M"@[1] != "%M:%S"@[1]);
    assert(MS_FORMAT@ == "%H:%M:%S%.3f"@);
    assert(SECOND_FORMAT@ == "%H:%M:%S"@);
    assert(MINUTE_FORMAT@ == "%H:%M"@);
    assert(DATE_FORMAT@ == "%m-%d %H:%M"@);
    assert("%H:%M:%S%.3f"@.len() == 12);
    assert("%H:%M:%S"@.len() == 8);
    assert("%H:%M"@.len() == 5);
    assert("%m-%d %H:%M"@.len() == 11);
    let offset = choose|offset: i32|
        zone.may_have_offset(offset as int) && #[trigger] crate::time_label::is_label(
            timestamp_ms,
            offset,
            time_format(visible_span_ms),
            Some(label),
        );
    let local = timestamp_ms + offset * 1000;
    assert(zone.may_have_offset(offset as int));
    let tod = local % 86_400_000;
    crate::time_label::lemma_time_of_day(local);
    let day = local / 86_400_000;
    if visible_span_ms > 86_400_000 {
        let date = crate::calendar::date_on(day);
        crate::time_label::lemma_date_near(timestamp_ms as int, offset as int);
        crate::time_label::lemma_two_digits(date.month as int);
        crate::time_label::lemma_two_digits(date.day as int);
    }
    crate::time_label::lemma_two_digits(tod / 3_600_000);
    crate::time_label::lemma_two_digits(tod / 60_000 % 60);
    crate::time_label::lemma_two_digits(tod / 1000 % 60);
    crate::time_label::lemma_three_digits(tod % 1000);
}

/// A number kept to what 64 bits hold.
pub open spec fn saturated(n: int) -> int {
    if n > i64::MAX {
        i64::MAX as int
    } else if n < i64::MIN {
        i64::MIN as int
    } else {
        n
    }
}

fn saturating_sum(a: i64, b: i64) -> (r: i64)
    ensures
        r == saturated(a + b),
{
    match a.checked_add(b) {
        Some(sum) => sum,
        None => {
            if a >= 0 {
                i64::MAX
            } else {
                i64::MIN
            }
        },
    }
}

fn saturating_product(a: i64, b: i64) -> (r: i64)
    ensures
        r == saturated(a * b),
{
    proof {
        assert(-0x4000_0000_0000_0000_0000_0000_0000_0000 <= a * b
            <= 0x4000_0000_0000_0000_0000_0000_0000_0000) by (nonlinear_arith)
            requires
                -0x8000_0000_0000_0000 <= a <= 0x7fff_ffff_ffff_ffff,
                -0x8000_0000_0000_0000 <= b <= 0x7fff_ffff_ffff_ffff,
        ;
    }
    let product: i128 = a as i128 * b as i128;
    if product > i64::MAX as i128 {
        i64::MAX
    } else if product < i64::MIN as i128 {
        i64::MIN
    } else {
        product as i64
    }
}

/// The interval of a column in milliseconds, as far as it can be told.
pub fn interval_ms(aggr_time: u64) -> (r: i64)
    ensures
        r == saturated(aggr_time as int),
        0 <= r,
{
    if aggr_time <= i64::MAX as u64 {
        aggr_time as i64
    } else {
        i64::MAX
    }
}

/// The column so many columns after the latest one.
pub open spec fn column_at(latest_bucket: i64, u: i64) -> int {
    saturated(latest_bucket + u)
}

/// The time at the start of a column.
pub open spec fn column_time(bucket: i64, interval_ms: i64) -> int {
    saturated(bucket * interval_ms)
}

/// The columns in view, by their distance from the latest one.
pub fn bucket_bounds(u_min: i64, u_max: i64, latest_bucket: i64) -> (r: (i64, i64))
    ensures
        r.0 == column_at(latest_bucket, u_min),
        r.1 == column_at(latest_bucket, u_max),
{
    (saturating_sum(latest_bucket, u_min), saturating_sum(latest_bucket, u_max))
}

/// How much time is in view between two columns.
pub open spec fn visible_span_spec(b_min: i64, b_max: i64, interval_ms: i64) -> int {
    if b_max < b_min {
        0
    } else {
        saturated((b_max - b_min) * interval_ms)
    }
}

/// How much time is in view between two columns.
pub fn visible_span(b_min: i64, b_max: i64, interval_ms: i64) -> (r: i64)
    requires
        i64::MIN <= b_max - b_min <= i64::MAX,
        0 <= interval_ms,
    ensures
        r == visible_span_spec(b_min, b_max, interval_ms),
        0 <= r,
{
    let columns: i64 = b_max - b_min;
    if columns < 0 {
        return 0;
    }
    proof {
        assert(0 <= columns * interval_ms) by (nonlinear_arith)
            requires
                0 <= columns,
                0 <= interval_ms,
        ;
    }
    saturating_product(columns, interval_ms)
}

/// The time at the start of a column.
pub fn bucket_time(bucket: i64, interval_ms: i64) -> (r: i64)
    ensures
        r == column_time(bucket, interval_ms),
{
    saturating_product(bucket, interval_ms)
}

/// The time that the cursor stands for, `u_at_cursor` columns after the latest one.
pub fn cursor_time(u_at_cursor: i64, latest_bucket: i64, interval_ms: i64) -> (r: i64)
    ensures
        r == column_time(column_at(latest_bucket, u_at_cursor) as i64, interval_ms),
{
    saturating_product(saturating_sum(latest_bucket, u_at_cursor), interval_ms)
}

/// Columns and times are exact where 64 bits hold them, and else the last number that they hold
/// on that side: a column is as far from the latest one as asked for, two columns are as many
/// intervals apart in time as they are columns apart, and the cursor on a column stands for
/// the time of that column.
pub proof fn law_columns_keep_their_distances(
    latest_bucket: i64,
    u: i64,
    bucket: i64,
    interval_ms: i64,
)
    ensures
        i64::MIN <= latest_bucket + u <= i64::MAX ==> column_at(latest_bucket, u) - latest_bucket
            == u,
        latest_bucket + u > i64::MAX ==> column_at(latest_bucket, u) == i64::MAX,
        latest_bucket + u < i64::MIN ==> column_at(latest_bucket, u) == i64::MIN,
        column_at(latest_bucket, 0) == latest_bucket,
        column_time(0, interval_ms) == 0,
        column_time(bucket, 1) == bucket,
        i64::MIN <= bucket * interval_ms <= i64::MAX && i64::MIN <= (bucket + 1) * interval_ms
            <= i64::MAX && bucket < i64::MAX ==> column_time((bucket + 1) as i64, interval_ms)
            - column_time(bucket, interval_ms) == interval_ms,
        bucket * interval_ms > i64::MAX ==> column_time(bucket, interval_ms) == i64::MAX,
        bucket * interval_ms < i64::MIN ==> column_time(bucket, interval_ms) == i64::MIN,
{
    assert(0 * interval_ms == 0) by (nonlinear_arith);
    assert((bucket + 1) * interval_ms == bucket * interval_ms + interval_ms) by (nonlinear_arith);
}

/// The time in view is that between the two columns, as far as 64 bits hold it, and none where
/// they stand the wrong way round. One column more is one interval more.
pub proof fn law_time_in_view_grows_with_the_columns(b_min: i64, b_max: i64, interval_ms: i64)
    requires
        0 <= interval_ms,
    ensures
        b_max <= b_min ==> visible_span_spec(b_min, b_max, interval_ms) == 0,
        b_min <= b_max && b_max < i64::MAX && (b_max + 1 - b_min) * interval_ms <= i64::MAX
            ==> visible_span_spec(b_min, (b_max + 1) as i64, interval_ms) == visible_span_spec(
            b_min,
            b_max,
            interval_ms,
        ) + interval_ms,
        b_min <= b_max && (b_max - b_min) * interval_ms > i64::MAX ==> visible_span_spec(
            b_min,
            b_max,
            interval_ms,
        ) == i64::MAX,
{
    assert((b_max + 1 - b_min) * interval_ms == (b_max - b_min) * interval_ms + interval_ms)
        by (nonlinear_arith);
    assert(b_max == b_min ==> (b_max - b_min) * interval_ms == 0) by (nonlinear_arith);
    assert(b_min <= b_max ==> (b_max - b_min) * interval_ms >= 0) by (nonlinear_arith)
        requires
            0 <= interval_ms,
    ;
}

/// The steps that labels can have, in milliseconds.
pub open spec fn candidate_steps() -> Seq<i64> {
    seq![
        100i64,
        200,
        500,
        1_000,
        2_000,
        5_000,
        10_000,
        15_000,
        30_000,
        60_000,
        120_000,
        300_000,
        600_000,
        900_000,
        1_800_000,
        3_600_000,
        7_200_000,
        14_400_000,
        28_800_000,
        43_200_000,
        86_400_000,
    ]
}

/// The smallest step that is no shorter than asked for, or else the longest one.
pub open spec fn is_label_step(rough_ms: i64, step: i64) -> bool {
    &&& candidate_steps().contains(step)
    &&& step >= rough_ms || step == 86_400_000
    &&& forall|k: int|
        0 <= k < candidate_steps().len() && (#[trigger] candidate_steps()[k]) < step
            ==> candidate_steps()[k] < rough_ms
}

/// The step of the labels, for one of about `rough_ms`.
pub fn label_step(rough_ms: i64) -> (r: i64)
    ensures
        is_label_step(rough_ms, r),
        r > 0,
{
    let steps: Vec<i64> = vec![
        100, 200, 500, 1_000, 2_000, 5_000, 10_000, 15_000, 30_000, 60_000, 120_000, 300_000,
        600_000, 900_000, 1_800_000, 3_600_000, 7_200_000, 14_400_000, 28_800_000, 43_200_000,
        86_400_000,
    ];
    assert(steps@ =~= candidate_steps());
    let mut i: usize = 0;
    while i < steps.len()
        invariant
            i <= steps@.len(),
            steps@ == candidate_steps(),
            forall|k: int| 0 <= k < i ==> (#[trigger] candidate_steps()[k]) < rough_ms,
        decreases steps@.len() - i,
    {
        if steps[i] >= rough_ms {
            let step = steps[i];
            proof {
                assert(candidate_steps()[i as int] == step);
                assert forall|k: int|
                    0 <= k < candidate_steps().len() && (#[trigger] candidate_steps()[k])
                        < step implies candidate_steps()[k] < rough_ms by {
                    lemma_steps_ascend(i as int, k);
                }
                lemma_steps_ascend(0, i as int);
            }
            return step;
        }
        i += 1;
    }
    proof {
        assert(candidate_steps()[20] == 86_400_000);
    }
    86_400_000
}

proof fn lemma_steps_ascend(a: int, b: int)
    requires
        0 <= a <= b < candidate_steps().len() || 0 <= b < candidate_steps().len() && 0 <= a
            < candidate_steps().len(),
    ensures
        a < b ==> candidate_steps()[a] < candidate_steps()[b],
        candidate_steps()[a] >= 100,
        candidate_steps()[b] >= 100,
{
}

/// Labels stand no closer together than asked for, and less than three times as far apart, as
/// long as between a tenth of a second and a day was asked for; shorter distances get a tenth
/// of a second, and longer ones a day. They are always distances that a clock face shows, and
/// such a distance is met exactly.
pub proof fn law_label_steps_are_near_what_is_asked_for(rough_ms: i64, step: i64)
    requires
        is_label_step(rough_ms, step),
    ensures
        100 <= rough_ms <= 86_400_000 ==> rough_ms <= step < 3 * rough_ms,
        rough_ms < 100 ==> step == 100,
        rough_ms > 86_400_000 ==> step == 86_400_000,
        is_clock_step(step),
        is_clock_step(rough_ms) ==> step == rough_ms,
{
    let k = choose|k: int| 0 <= k < candidate_steps().len() && candidate_steps()[k] == step;
    assert(candidate_steps()[0] == 100);
    assert(candidate_steps()[1] == 200);
    assert(candidate_steps()[2] == 500);
    assert(candidate_steps()[3] == 1_000);
    assert(candidate_steps()[4] == 2_000);
    assert(candidate_steps()[5] == 5_000);
    assert(candidate_steps()[6] == 10_000);
    assert(candidate_steps()[7] == 15_000);
    assert(candidate_steps()[8] == 30_000);
    assert(candidate_steps()[9] == 60_000);
    assert(candidate_steps()[10] == 120_000);
    assert(candidate_steps()[11] == 300_000);
    assert(candidate_steps()[12] == 600_000);
    assert(candidate_steps()[13] == 900_000);
    assert(candidate_steps()[14] == 1_800_000);
    assert(candidate_steps()[15] == 3_600_000);
    assert(candidate_steps()[16] == 7_200_000);
    assert(candidate_steps()[17] == 14_400_000);
    assert(candidate_steps()[18] == 28_800_000);
    assert(candidate_steps()[19] == 43_200_000);
    assert(candidate_steps()[20] == 86_400_000);
}

/// Distances that a clock face shows: some tenths of a second, seconds, minutes or hours.
pub open spec fn is_clock_step(ms: i64) -> bool {
    ||| ms == 100 || ms == 200 || ms == 500
    ||| ms == 1_000 || ms == 2_000 || ms == 5_000 || ms == 10_000 || ms == 15_000 || ms == 30_000
    ||| ms == 60_000 || ms == 120_000 || ms == 300_000 || ms == 600_000 || ms == 900_000
    ||| ms == 1_800_000 || ms == 3_600_000 || ms == 7_200_000 || ms == 14_400_000
    ||| ms == 28_800_000 || ms == 43_200_000 || ms == 86_400_000
}

/// The first multiple of the step that is not before `t_min`.
pub open spec fn first_label_spec(t_min: int, step: int) -> int {
    if t_min % step == 0 {
        t_min
    } else {
        t_min - t_min % step + step
    }
}

/// The first multiple of the step that is not before `t_min`.
pub fn first_label_time(t_min: i64, step: i64) -> (r: i64)
    requires
        step > 0,
        i64::MIN <= t_min - t_min as int % step as int,
        first_label_spec(t_min as int, step as int) <= i64::MAX,
    ensures
        r == first_label_spec(t_min as int, step as int),
        r as int % step as int == 0,
        t_min <= r < t_min + step,
{
    proof {
        vstd::arithmetic::div_mod::lemma_fundamental_div_mod(t_min as int, step as int);
        vstd::arithmetic::div_mod::lemma_mod_bound(t_min as int, step as int);
        let q = t_min as int / step as int;
        vstd::arithmetic::div_mod::lemma_mod_multiples_basic(q, step as int);
        vstd::arithmetic::div_mod::lemma_mod_multiples_basic(q + 1, step as int);
        assert((q + 1) * step == q * step + step) by (nonlinear_arith);
        assert(q * step == step * q) by (nonlinear_arith);
    }
    let rest = remainder(t_min, step);
    if rest == 0 {
        t_min
    } else {
        let floor: i64 = t_min - rest;
        floor + step
    }
}

/// What is left of `t` past a multiple of the step.
fn remainder(t: i64, step: i64) -> (r: i64)
    requires
        step > 0,
    ensures
        r == t as int % step as int,
        0 <= r < step,
{
    proof {
        vstd::arithmetic::div_mod::lemma_mod_bound(t as int, step as int);
    }
    if t >= 0 {
        t % step
    } else {
        let up: i128 = -(t as i128);
        let over: i128 = up % (step as i128);
        proof {
            lemma_negative_remainder(t as int, step as int);
        }
        if over == 0 {
            0
        } else {
            (step as i128 - over) as i64
        }
    }
}

proof fn lemma_negative_remainder(t: int, step: int)
    requires
        t < 0,
        step > 0,
    ensures
        (-t) % step == 0 ==> t % step == 0,
        (-t) % step != 0 ==> t % step == step - (-t) % step,
{
    let q = (-t) / step;
    let over = (-t) % step;
    vstd::arithmetic::div_mod::lemma_fundamental_div_mod(-t, step);
    vstd::arithmetic::div_mod::lemma_mod_bound(-t, step);
    if over == 0 {
        assert(t == (-q) * step) by (nonlinear_arith)
            requires
                -t == step * q + over,
                over == 0,
        ;
        vstd::arithmetic::div_mod::lemma_fundamental_div_mod_converse(t, step, -q, 0);
    } else {
        assert(t == (-q - 1) * step + (step - over)) by (nonlinear_arith)
            requires
                -t == step * q + over,
        ;
        vstd::arithmetic::div_mod::lemma_fundamental_div_mod_converse(t, step, -q - 1, step - over);
    }
}

/// The times of the labels are the multiples of the step between the two times, in order.
pub open spec fn are_label_times(times: Seq<i64>, t_min: i64, t_max: i64, step: i64) -> bool {
    &&& forall|i: int|
        0 <= i < times.len() ==> (#[trigger] times[i]) == first_label_spec(
            t_min as int,
            step as int,
        ) + i * step
    &&& forall|i: int| 0 <= i < times.len() ==> (#[trigger] times[i]) <= t_max
    &&& first_label_spec(t_min as int, step as int) + times.len() * step > t_max
}

/// The times that are labelled between two times.
pub fn label_times(t_min: i64, t_max: i64, step: i64) -> (r: Vec<i64>)
    requires
        step > 0,
        i64::MIN <= t_min - t_min as int % step as int,
        first_label_spec(t_min as int, step as int) <= i64::MAX,
        t_max < i64::MAX,
    ensures
        are_label_times(r@, t_min, t_max, step),
{
    let mut out: Vec<i64> = Vec::new();
    let first = first_label_time(t_min, step);
    let mut cur_t_ms: i64 = first;
    proof {
        assert(0 * step == 0) by (nonlinear_arith);
    }
    while cur_t_ms <= t_max
        invariant
            step > 0,
            t_max < i64::MAX,
            first == first_label_spec(t_min as int, step as int),
            cur_t_ms == saturated(first + out@.len() * step),
            first + out@.len() * step >= first,
            forall|i: int| 0 <= i < out@.len() ==> (#[trigger] out@[i]) == first + i * step,
            forall|i: int| 0 <= i < out@.len() ==> (#[trigger] out@[i]) <= t_max,
        decreases i64::MAX - cur_t_ms,
    {
        let ghost n = out@.len();
        out.push(cur_t_ms);
        proof {
            assert((n + 1) * step == n * step + step) by (nonlinear_arith);
        }
        cur_t_ms = saturating_sum(cur_t_ms, step);
    }
    out
}

/// Every multiple of the step between the two times is labelled, and nothing else; so labels
/// stay where they are while the axis is panned.
pub proof fn law_labels_are_the_multiples(
    times: Seq<i64>,
    t_min: i64,
    t_max: i64,
    step: i64,
    t: i64,
)
    requires
        step > 0,
        are_label_times(times, t_min, t_max, step),
    ensures
        times.contains(t) <==> t_min <= t <= t_max && t as int % step as int == 0,
{
    let first = first_label_spec(t_min as int, step as int);
    let s = step as int;
    vstd::arithmetic::div_mod::lemma_fundamental_div_mod(t_min as int, s);
    vstd::arithmetic::div_mod::lemma_mod_bound(t_min as int, s);
    let q = t_min as int / s;
    let base = if t_min as int % s == 0 {
        q
    } else {
        q + 1
    };
    assert(first == base * s) by (nonlinear_arith)
        requires
            t_min as int == s * q + t_min as int % s,
            first == if t_min as int % s == 0 {
                t_min as int
            } else {
                t_min as int - t_min as int % s + s
            },
            base == if t_min as int % s == 0 {
                q
            } else {
                q + 1
            },
    ;
    if times.contains(t) {
        let i = choose|i: int| 0 <= i < times.len() && times[i] == t;
        assert(times[i] == first + i * s);
        assert(t as int == (base + i) * s) by (nonlinear_arith)
            requires
                t as int == first + i * s,
                first == base * s,
        ;
        vstd::arithmetic::div_mod::lemma_mod_multiples_basic(base + i, s);
        assert(i * s >= 0) by (nonlinear_arith)
            requires
                i >= 0,
                s > 0,
        ;
    }
    if t_min <= t <= t_max && t as int % s == 0 {
        let m = t as int / s;
        vstd::arithmetic::div_mod::lemma_fundamental_div_mod(t as int, s);
        let i = m - base;
        assert(t as int == first + i * s) by (nonlinear_arith)
            requires
                t as int == s * m,
                first == base * s,
                i == m - base,
        ;
        assert(i >= 0) by (nonlinear_arith)
            requires
                t as int == s * m,
                first == base * s,
                i == m - base,
                t as int > first - s,
                s > 0,
        ;
        assert(i < times.len()) by (nonlinear_arith)
            requires
                t as int == first + i * s,
                first + times.len() * s > t_max,
                t <= t_max,
                s > 0,
        ;
        assert(times[i] == t);
    }
}

/// Labels come one after another, each a step after the one before.
pub proof fn law_labels_are_a_step_apart(
    times: Seq<i64>,
    t_min: i64,
    t_max: i64,
    step: i64,
    i: int,
)
    requires
        step > 0,
        are_label_times(times, t_min, t_max, step),
        0 <= i < times.len() - 1,
    ensures
        times[i + 1] == times[i] + step,
{
    assert((i + 1) * step == i * step + step) by (nonlinear_arith);
    assert(times[i + 1] == first_label_spec(t_min as int, step as int) + (i + 1) * step);
}

/// What a drag of the axis keeps in place, and where on the screen that is. `A` is a place
/// along the axis.
#[derive(Debug)]
pub enum AxisZoomAnchor<A> {
    /// A column of the plot.
    World { screen: A },
    /// The cursor.
    Cursor { screen: A },
}

/// What is being done to the axis. `P` is a position of the cursor.
#[derive(Debug)]
pub enum AxisInteraction<P, A> {
    Idle,
    Panning { last_position: P, zoom_anchor: Option<AxisZoomAnchor<A>> },
}

/// What the axis remembers. `C` is a click.
pub struct AxisState<P, A, C> {
    pub interaction: AxisInteraction<P, A>,
    pub previous_click: Option<C>,
}

/// What happens to the axis.
pub enum AxisInput<P, A, C> {
    /// The left button goes down; on the axis where `over` is given. `click` is missing where
    /// the cursor's place is not known.
    /// `latest_column` is where that column is on the screen.
    Pressed { over: Option<P>, click: Option<(C, ClickKind)>, latest_column: A },
    /// The left button goes up.
    Released,
    /// The cursor moves.
    Moved { position: P },
    /// The wheel turns; over the axis where `within` is given.
    Wheel { within: Option<P> },
    /// Something else.
    Other,
}

/// What the axis is shown with. `A` is a place or a width along the axis.
#[derive(Debug, Clone, Copy)]
pub struct AxisFrame<A> {
    /// Whether the latest column is in view, as far as it is known.
    pub is_x0_visible: Option<bool>,
    /// The width of the plot above, as far as it is known.
    pub plot_width: Option<A>,
    /// The width of the axis itself.
    pub own_width: A,
}

impl<A> AxisFrame<A> {
    /// The width of the plot, or else that of the axis.
    pub open spec fn viewport_spec(self) -> A {
        match self.plot_width {
            Some(width) => width,
            None => self.own_width,
        }
    }
}

impl<A: Copy> AxisFrame<A> {
    /// The width of the plot, or else that of the axis.
    pub fn viewport(&self) -> (r: A)
        ensures
            r == self.viewport_spec(),
    {
        match self.plot_width {
            Some(width) => width,
            None => self.own_width,
        }
    }
}

/// What comes of it. `viewport` is the width that the zoom is worked out by.
pub enum AxisAction<P, A> {
    DoubleClicked,
    /// The axis is dragged from one place to another, around what stays in place.
    DragKeepAnchor { from: P, to: P, screen: A, viewport: A },
    /// The axis is dragged from one place to another, around where the cursor was.
    DragAtCursor { from: P, to: P, screen: A, viewport: A },
    /// The wheel turns at a place.
    Scrolled { at: P, viewport: A },
}

/// What a drag that begins now keeps in place: the latest column where it is known to be in
/// view, and else the right edge.
pub open spec fn drag_anchor<A>(frame: AxisFrame<A>, latest_column: A) -> AxisZoomAnchor<A> {
    AxisZoomAnchor::World {
        screen: if frame.is_x0_visible == Some(true) {
            latest_column
        } else {
            frame.viewport_spec()
        },
    }
}

impl<P, A, C> AxisState<P, A, C> {
    /// The axis after an input. A press on the axis that is no double click begins a drag, a
    /// move carries it on, and a release ends it.
    pub open spec fn after(self, input: AxisInput<P, A, C>, frame: AxisFrame<A>) -> Self {
        match input {
            AxisInput::Pressed { over: Some(position), click, latest_column } => AxisState {
                interaction: if click matches Some((_, ClickKind::Double)) {
                    AxisInteraction::Idle
                } else {
                    AxisInteraction::Panning {
                        last_position: position,
                        zoom_anchor: Some(drag_anchor(frame, latest_column)),
                    }
                },
                previous_click: match click {
                    Some((click, _)) => Some(click),
                    None => None,
                },
            },
            AxisInput::Released => AxisState { interaction: AxisInteraction::Idle, ..self },
            AxisInput::Moved { position } => match self.interaction {
                AxisInteraction::Panning { zoom_anchor, .. } => AxisState {
                    interaction: AxisInteraction::Panning { last_position: position, zoom_anchor },
                    ..self
                },
                AxisInteraction::Idle => self,
            },
            AxisInput::Pressed { over: None, .. } | AxisInput::Wheel { .. } | AxisInput::Other =>
                self,
        }
    }

    /// What an input to the axis sets off.
    pub open spec fn action(self, input: AxisInput<P, A, C>, frame: AxisFrame<A>) -> Option<
        AxisAction<P, A>,
    > {
        match input {
            AxisInput::Pressed { over: Some(_), click: Some((_, ClickKind::Double)), .. } => Some(
                AxisAction::DoubleClicked,
            ),
            AxisInput::Moved { position } => match self.interaction {
                AxisInteraction::Panning {
                    last_position,
                    zoom_anchor: Some(AxisZoomAnchor::World { screen }),
                } => Some(
                    AxisAction::DragKeepAnchor {
                        from: last_position,
                        to: position,
                        screen,
                        viewport: frame.viewport_spec(),
                    },
                ),
                AxisInteraction::Panning {
                    last_position,
                    zoom_anchor: Some(AxisZoomAnchor::Cursor { screen }),
                } => Some(
                    AxisAction::DragAtCursor {
                        from: last_position,
                        to: position,
                        screen,
                        viewport: frame.own_width,
                    },
                ),
                _ => None,
            },
            AxisInput::Wheel { within: Some(position) } => Some(
                AxisAction::Scrolled { at: position, viewport: frame.own_width },
            ),
            _ => None,
        }
    }

    /// The axis after the cursor moved to some places in turn. With each goes what the axis was
    /// shown with then.
    pub open spec fn after_moves(self, moves: Seq<(P, AxisFrame<A>)>) -> Self
        decreases moves.len(),
    {
        if moves.len() == 0 {
            self
        } else {
            self.after_moves(moves.drop_last()).after(
                AxisInput::Moved { position: moves.last().0 },
                moves.last().1,
            )
        }
    }
}

/// What comes of an input to the axis.
pub fn update_axis<P: Copy, A: Copy, C>(
    state: &mut AxisState<P, A, C>,
    input: AxisInput<P, A, C>,
    frame: &AxisFrame<A>,
) -> (r: Option<AxisAction<P, A>>)
    ensures
        *final(state) == old(state).after(input, *frame),
        r == old(state).action(input, *frame),
{
    match input {
        AxisInput::Pressed { over, click, latest_column } => {
            let position = match over {
                Some(position) => position,
                None => {
                    return None;
                },
            };
            let mut double = false;
            match click {
                Some((click, kind)) => {
                    double = kind == ClickKind::Double;
                    state.previous_click = Some(click);
                },
                None => {
                    state.previous_click = None;
                },
            }
            if double {
                state.interaction = AxisInteraction::Idle;
                return Some(AxisAction::DoubleClicked);
            }
            let screen = match frame.is_x0_visible {
                Some(true) => latest_column,
                _ => frame.viewport(),
            };
            state.interaction =
            AxisInteraction::Panning {
                last_position: position,
                zoom_anchor: Some(AxisZoomAnchor::World { screen }),
            };
            None
        },
        AxisInput::Released => {
            state.interaction = AxisInteraction::Idle;
            None
        },
        AxisInput::Moved { position } => {
            match &mut state.interaction {
                AxisInteraction::Panning { last_position, zoom_anchor } => {
                    let from = *last_position;
                    *last_position = position;
                    match zoom_anchor {
                        Some(AxisZoomAnchor::World { screen }) => Some(
                            AxisAction::DragKeepAnchor {
                                from,
                                to: position,
                                screen: *screen,
                                viewport: frame.viewport(),
                            },
                        ),
                        Some(AxisZoomAnchor::Cursor { screen }) => Some(
                            AxisAction::DragAtCursor {
                                from,
                                to: position,
                                screen: *screen,
                                viewport: frame.own_width,
                            },
                        ),
                        None => None,
                    }
                },
                AxisInteraction::Idle => None,
            }
        },
        AxisInput::Wheel { within } => match within {
            Some(position) => Some(
                AxisAction::Scrolled { at: position, viewport: frame.own_width },
            ),
            None => None,
        },
        AxisInput::Other => None,
    }
}

/// A press on the axis that is no double click sets nothing off. Each move after it drags the
/// axis from where the cursor was last, around the latest column where that was known to be
/// in view at the press, and else around the right edge as it was at the press; the zoom is
/// worked out by the width at the move. After the release moves set nothing off.
pub proof fn law_a_drag_follows_the_cursor<P, A, C>(
    state: AxisState<P, A, C>,
    pressed_at: P,
    click: Option<(C, ClickKind)>,
    latest_column: A,
    pressed: AxisFrame<A>,
    moves: Seq<(P, AxisFrame<A>)>,
    to: P,
    moved: AxisFrame<A>,
)
    requires
        !(click matches Some((_, ClickKind::Double))),
    ensures
        ({
            let press = AxisInput::Pressed { over: Some(pressed_at), click, latest_column };
            let dragged = state.after(press, pressed).after_moves(moves);
            &&& state.action(press, pressed) is None
            &&& dragged.action(AxisInput::Moved { position: to }, moved) == Some(
                AxisAction::DragKeepAnchor {
                    from: if moves.len() == 0 {
                        pressed_at
                    } else {
                        moves.last().0
                    },
                    to,
                    screen: if pressed.is_x0_visible == Some(true) {
                        latest_column
                    } else {
                        pressed.viewport_spec()
                    },
                    viewport: moved.viewport_spec(),
                },
            )
            &&& dragged.action(AxisInput::Released, moved) is None
            &&& forall|released: AxisFrame<A>, later: Seq<(P, AxisFrame<A>)>|
                #![trigger dragged.after(AxisInput::Released, released).after_moves(later)]
                dragged.after(AxisInput::Released, released).after_moves(later).action(
                    AxisInput::Moved { position: to },
                    moved,
                ) is None
        }),
{
    let press = AxisInput::Pressed { over: Some(pressed_at), click, latest_column };
    let start = state.after(press, pressed);
    lemma_moves_keep_the_anchor(start, moves);
    let dragged = start.after_moves(moves);
    assert forall|released: AxisFrame<A>, later: Seq<(P, AxisFrame<A>)>|
        #![trigger dragged.after(AxisInput::Released, released).after_moves(later)]
        dragged.after(AxisInput::Released, released).after_moves(later).action(
            AxisInput::Moved { position: to },
            moved,
        ) is None by {
        lemma_moves_keep_the_anchor(dragged.after(AxisInput::Released, released), later);
    }
}

proof fn lemma_moves_keep_the_anchor<P, A, C>(
    state: AxisState<P, A, C>,
    moves: Seq<(P, AxisFrame<A>)>,
)
    ensures
        state.after_moves(moves).interaction == match state.interaction {
            AxisInteraction::Panning { last_position, zoom_anchor } => AxisInteraction::Panning {
                last_position: if moves.len() == 0 {
                    last_position
                } else {
                    moves.last().0
                },
                zoom_anchor,
            },
            AxisInteraction::Idle => AxisInteraction::Idle,
        },
    decreases moves.len(),
{
    if moves.len() > 0 {
        lemma_moves_keep_the_anchor(state, moves.drop_last());
    }
}

/// What the cursor looks like.
#[derive(Debug, Clone, Copy, PartialEq, Eq, Structural)]
pub enum AxisCursor {
    Default,
    Grabbing,
    ResizingHorizontally,
}

/// What the cursor looks like on the axis: a grip while it is dragged.
pub open spec fn axis_cursor_spec<P, A>(
    over: bool,
    interaction: AxisInteraction<P, A>,
) -> AxisCursor {
    if !over {
        AxisCursor::Default
    } else if interaction is Panning {
        AxisCursor::Grabbing
    } else {
        AxisCursor::ResizingHorizontally
    }
}

/// Off the axis the cursor says nothing of it. On the axis it shows a grip from the press that
/// begins a drag until the release, and that the axis can be stretched at any other time.
pub proof fn law_cursor_shows_the_drag<P, A, C>(
    state: AxisState<P, A, C>,
    input: AxisInput<P, A, C>,
    frame: AxisFrame<A>,
)
    ensures
        axis_cursor_spec(false, state.interaction) == AxisCursor::Default,
        input is Released ==> axis_cursor_spec(true, state.after(input, frame).interaction)
            == AxisCursor::ResizingHorizontally,
        (input matches AxisInput::Pressed { over: Some(_), click, .. } && !(click matches Some(
            (_, ClickKind::Double),
        ))) ==> axis_cursor_spec(true, state.after(input, frame).interaction)
            == AxisCursor::Grabbing,
        input is Moved || input is Wheel || input is Other ==> axis_cursor_spec(
            true,
            state.after(input, frame).interaction,
        ) == axis_cursor_spec(true, state.interaction),
{
}

/// A turn of the wheel over the axis is told with its place and the width of the axis, and
/// changes nothing; off the axis it does nothing. A double click on the axis is told, and ends
/// a drag; a press off the axis, and anything else, does nothing. Without a drag moves do
/// nothing. A press on the axis is remembered for the next one to be compared with.
pub proof fn law_what_the_axis_tells<P, A, C>(
    state: AxisState<P, A, C>,
    place: P,
    click: Option<(C, ClickKind)>,
    latest_column: A,
    frame: AxisFrame<A>,
)
    ensures
        ({
            let wheel = AxisInput::Wheel { within: Some(place) };
            &&& state.action(wheel, frame) == Some(
                AxisAction::Scrolled { at: place, viewport: frame.own_width },
            )
            &&& state.after(wheel, frame) == state
        }),
        ({
            let wheel = AxisInput::Wheel { within: None };
            state.action(wheel, frame) is None && state.after(wheel, frame) == state
        }),
        ({
            let press = AxisInput::Pressed { over: Some(place), click, latest_column };
            let double = click matches Some((_, ClickKind::Double));
            &&& state.action(press, frame) is Some <==> double
            &&& double ==> state.action(press, frame) == Some(AxisAction::<P, A>::DoubleClicked)
                && state.after(press, frame).interaction is Idle
            &&& click matches Some((c, _)) ==> state.after(press, frame).previous_click == Some(c)
            &&& click is None ==> state.after(press, frame).previous_click is None
        }),
        ({
            let press = AxisInput::Pressed { over: None, click, latest_column };
            state.action(press, frame) is None && state.after(press, frame) == state
        }),
        state.action(AxisInput::Other, frame) is None && state.after(AxisInput::Other, frame)
            == state,
        state.after(AxisInput::Released, frame).previous_click == state.previous_click,
        state.interaction is Idle ==> state.action(AxisInput::Moved { position: place }, frame)
            is None && state.after(AxisInput::Moved { position: place }, frame) == state,
{
}

/// What the cursor looks like on the axis: a grip while it is dragged.
pub fn axis_cursor<P, A>(over: bool, interaction: &AxisInteraction<P, A>) -> (r: AxisCursor)
    ensures
        r == axis_cursor_spec(over, *interaction),
{
    if !over {
        return AxisCursor::Default;
    }
    match interaction {
        AxisInteraction::Panning { .. } => AxisCursor::Grabbing,
        AxisInteraction::Idle => AxisCursor::ResizingHorizontally,
    }
}

/// An interval is exact where 64 bits with a sign hold it, and else the longest that they hold.
pub proof fn law_intervals_are_kept_to_64_bits(aggr_time: u64)
    ensures
        aggr_time <= 9_223_372_036_854_775_807 ==> saturated(aggr_time as int) == aggr_time,
        aggr_time > 9_223_372_036_854_775_807 ==> saturated(aggr_time as int)
            == 9_223_372_036_854_775_807,
{
}

/// The first label is at a multiple of the step, not before the time in view begins and less
/// than a step after it.
pub proof fn law_first_label_is_at_the_next_multiple(t_min: int, step: int)
    requires
        step > 0,
    ensures
        first_label_spec(t_min, step) % step == 0,
        t_min <= first_label_spec(t_min, step) < t_min + step,
{
    vstd::arithmetic::div_mod::lemma_fundamental_div_mod(t_min, step);
    vstd::arithmetic::div_mod::lemma_mod_bound(t_min, step);
    let q = t_min / step;
    vstd::arithmetic::div_mod::lemma_mod_multiples_basic(q, step);
    vstd::arithmetic::div_mod::lemma_mod_multiples_basic(q + 1, step);
    assert((q + 1) * step == q * step + step) by (nonlinear_arith);
    assert(q * step == step * q) by (nonlinear_arith);
}

/// The zoom goes by the width of the plot where that is known, and else by that of the axis. A
/// drag around the cursor goes by the width of the axis, and one around nothing is not told.
pub proof fn law_drags_of_other_kinds<P, A, C>(
    last_position: P,
    screen: A,
    previous_click: Option<C>,
    to: P,
    frame: AxisFrame<A>,
)
    ensures
        frame.plot_width matches Some(width) ==> frame.viewport_spec() == width,
        frame.plot_width is None ==> frame.viewport_spec() == frame.own_width,
        ({
            let state = AxisState {
                interaction: AxisInteraction::Panning {
                    last_position,
                    zoom_anchor: Some(AxisZoomAnchor::Cursor { screen }),
                },
                previous_click,
            };
            state.action(AxisInput::Moved { position: to }, frame) == Some(
                AxisAction::DragAtCursor {
                    from: last_position,
                    to,
                    screen,
                    viewport: frame.own_width,
                },
            )
        }),
        ({
            let state = AxisState::<P, A, C> {
                interaction: AxisInteraction::Panning { last_position, zoom_anchor: None },
                previous_click,
            };
            &&& state.action(AxisInput::Moved { position: to }, frame) is None
            &&& state.after(AxisInput::Moved { position: to }, frame).interaction
                == AxisInteraction::<P, A>::Panning { last_position: to, zoom_anchor: None }
        }),
{
}

} // verus!

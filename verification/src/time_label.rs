//! Time labels: which format a label has, and its text in the user's zone.
use crate::calendar::{chrono_local_now_offset_secs, MAX_TIMESTAMP_MS, MIN_TIMESTAMP_MS};
use crate::text::{push_decimal, same_text, str_to_lowercase};
use crate::timeframe::Timeframe;
use crate::timezone::UserTimezone;
use chrono::{DateTime, FixedOffset};
use vstd::prelude::*;

verus! {

/// Specifies the *purpose* of a timestamp label.
#[derive(Debug, Clone, Copy)]
pub enum TimeLabelKind<'a> {
    /// Formatting suitable for axis ticks: `MM:SS` for timeframes under ten
    /// seconds, `HH:MM` for the others.
    Axis { timeframe: Timeframe },
    /// Formatting for the crosshair tooltip: `HH:MM:SS.mmm` with milliseconds,
    /// `Day Mon D HH:MM` without.
    Crosshair { show_millis: bool },
    /// Arbitrary formatting using the given `chrono` specifier string.
    Custom(&'a str),
}

/// An instant together with the offset of the zone that it is read in.
#[derive(Debug, Clone, Copy, PartialEq, Eq, Structural)]
pub struct UserDateTime {
    pub timestamp_ms: i64,
    pub offset_secs: i32,
}

/// What `chrono` writes for an instant, a given number of seconds east of UTC,
/// under a strftime format; none where the format cannot be written.
pub uninterp spec fn chrono_format(
    timestamp_ms: i64,
    offset_secs: i32,
    format: Seq<char>,
) -> Option<Seq<char>>;

pub open spec fn two_digits(n: int) -> Seq<char> {
    seq![crate::text::digit_char(n / 10), crate::text::digit_char(n % 10)]
}

pub open spec fn three_digits(n: int) -> Seq<char> {
    seq![
        crate::text::digit_char(n / 100),
        crate::text::digit_char(n / 10 % 10),
        crate::text::digit_char(n % 10),
    ]
}

pub open spec fn hour_text(time_of_day: int) -> Seq<char> {
    two_digits(time_of_day / 3_600_000)
}

pub open spec fn minute_text(time_of_day: int) -> Seq<char> {
    two_digits(time_of_day / 60_000 % 60)
}

pub open spec fn second_text(time_of_day: int) -> Seq<char> {
    two_digits(time_of_day / 1000 % 60)
}

pub open spec fn millisecond_text(time_of_day: int) -> Seq<char> {
    three_digits(time_of_day % 1000)
}

/// What a clock format says at a time of day; none for another format.
pub open spec fn clock_text(format: Seq<char>, time_of_day: int) -> Option<Seq<char>> {
    let h = hour_text(time_of_day);
    let m = minute_text(time_of_day);
    let s = second_text(time_of_day);
    if format == "%H:%M"@ {
        Some(h + seq![':'] + m)
    } else if format == "%M:%S"@ {
        Some(m + seq![':'] + s)
    } else if format == "%H:%M:%S"@ {
        Some(h + seq![':'] + m + seq![':'] + s)
    } else if format == "%H:%M:%S.%3f"@ || format == "%H:%M:%S%.3f"@ {
        Some(h + seq![':'] + m + seq![':'] + s + seq!['.'] + millisecond_text(time_of_day))
    } else {
        None
    }
}

pub open spec fn weekday_name(from_sunday: int) -> Seq<char> {
    if from_sunday == 0 {
        "Sun"@
    } else if from_sunday == 1 {
        "Mon"@
    } else if from_sunday == 2 {
        "Tue"@
    } else if from_sunday == 3 {
        "Wed"@
    } else if from_sunday == 4 {
        "Thu"@
    } else if from_sunday == 5 {
        "Fri"@
    } else {
        "Sat"@
    }
}

pub open spec fn month_name(month: int) -> Seq<char> {
    if month == 1 {
        "Jan"@
    } else if month == 2 {
        "Feb"@
    } else if month == 3 {
        "Mar"@
    } else if month == 4 {
        "Apr"@
    } else if month == 5 {
        "May"@
    } else if month == 6 {
        "Jun"@
    } else if month == 7 {
        "Jul"@
    } else if month == 8 {
        "Aug"@
    } else if month == 9 {
        "Sep"@
    } else if month == 10 {
        "Oct"@
    } else if month == 11 {
        "Nov"@
    } else {
        "Dec"@
    }
}

/// What a format with a date says at a time of day, a number of days after 1970-01-01, which
/// was a Thursday; none for another format.
pub open spec fn date_text(format: Seq<char>, day: int, time_of_day: int) -> Option<Seq<char>> {
    let date = crate::calendar::date_on(day);
    let clock = hour_text(time_of_day) + seq![':'] + minute_text(time_of_day);
    if format == "%m-%d %H:%M"@ {
        Some(
            two_digits(date.month as int) + seq!['-'] + two_digits(date.day as int) + seq![' ']
                + clock,
        )
    } else if format == "%a %b %-d %H:%M"@ {
        Some(
            weekday_name((day + 4) % 7) + seq![' '] + month_name(date.month as int) + seq![' ']
                + crate::text::decimal(date.day as nat) + seq![' '] + clock,
        )
    } else {
        None
    }
}

/// The formats that labels are written in.
pub open spec fn is_label_format(format: Seq<char>) -> bool {
    clock_text(format, 0) is Some || date_text(format, 0, 0) is Some
}

/// What one of the formats of labels says at an instant, `offset_secs` east of UTC.
pub open spec fn label_text(format: Seq<char>, timestamp_ms: int, offset_secs: int) -> Option<
    Seq<char>,
> {
    let time_of_day = crate::calendar::local_time_of_day(timestamp_ms, offset_secs);
    match clock_text(format, time_of_day) {
        Some(text) => Some(text),
        None => date_text(
            format,
            crate::calendar::local_day(timestamp_ms, offset_secs),
            time_of_day,
        ),
    }
}

/// `chrono::DateTime::from_timestamp_millis`, `with_timezone` for a `FixedOffset`,
/// `format` and `DelayedFormat::write_to`: the text of an instant under a strftime
/// format. Of the formats that labels have it is known what they write.
#[verifier::external_body]
fn chrono_format_at(timestamp_ms: i64, offset_secs: i32, format: &str) -> (r: Option<String>)
    requires
        crate::calendar::representable(timestamp_ms as int),
        crate::calendar::valid_offset(offset_secs as int),
    ensures
        crate::text::text_view(r) == chrono_format(timestamp_ms, offset_secs, format@),
        is_label_format(format@) ==> crate::text::text_view(r) == label_text(
            format@,
            timestamp_ms as int,
            offset_secs as int,
        ),
{
    let offset = FixedOffset::east_opt(offset_secs)?;
    let instant = DateTime::from_timestamp_millis(timestamp_ms)?.with_timezone(&offset);
    let mut text = String::new();
    instant.format(format).write_to(&mut text).ok()?;
    Some(text)
}

/// The strftime format of a label.
pub open spec fn label_format(kind: TimeLabelKind) -> Seq<char> {
    match kind {
        TimeLabelKind::Axis { timeframe } => if timeframe.milliseconds() < 10_000 {
            "%M:%S"@
        } else {
            "%H:%M"@
        },
        TimeLabelKind::Crosshair { show_millis } => if show_millis {
            "%H:%M:%S.%3f"@
        } else {
            "%a %b %-d %H:%M"@
        },
        TimeLabelKind::Custom(format) => format@,
    }
}

/// What a format gives at an instant, `offset_secs` east of UTC: what `chrono` writes, which
/// is known for the formats of labels.
pub open spec fn is_label(
    timestamp_ms: i64,
    offset_secs: i32,
    format: Seq<char>,
    label: Option<Seq<char>>,
) -> bool {
    &&& label == chrono_format(timestamp_ms, offset_secs, format)
    &&& is_label_format(format) ==> label == label_text(
        format,
        timestamp_ms as int,
        offset_secs as int,
    )
}

/// The text of a label at an instant, `offset_secs` east of UTC. None where the
/// instant lies outside the representable years or a custom format cannot be
/// written.
pub fn format_at_offset(timestamp_ms: i64, offset_secs: i32, kind: TimeLabelKind<'_>) -> (r: Option<
    String,
>)
    requires
        crate::calendar::valid_offset(offset_secs as int),
    ensures
        !crate::calendar::representable(timestamp_ms as int) ==> r is None,
        crate::calendar::representable(timestamp_ms as int) ==> is_label(
            timestamp_ms,
            offset_secs,
            label_format(kind),
            crate::text::text_view(r),
        ),
{
    if timestamp_ms < MIN_TIMESTAMP_MS || timestamp_ms > MAX_TIMESTAMP_MS {
        return None;
    }
    match kind {
        TimeLabelKind::Axis { timeframe } => {
            if timeframe.to_milliseconds() < 10_000 {
                chrono_format_at(timestamp_ms, offset_secs, "%M:%S")
            } else {
                chrono_format_at(timestamp_ms, offset_secs, "%H:%M")
            }
        },
        TimeLabelKind::Crosshair { show_millis } => {
            if show_millis {
                chrono_format_at(timestamp_ms, offset_secs, "%H:%M:%S.%3f")
            } else {
                chrono_format_at(timestamp_ms, offset_secs, "%a %b %-d %H:%M")
            }
        },
        TimeLabelKind::Custom(format) => chrono_format_at(timestamp_ms, offset_secs, format),
    }
}

/// Sign and two digits of the hours, and the minutes with the sign of the offset
/// where they are negative, as the label of the machine's zone shows them.
pub open spec fn local_zone_label_spec(offset_secs: int) -> Seq<char> {
    let size = if offset_secs < 0 {
        -offset_secs
    } else {
        offset_secs
    };
    let hours = size / 3600;
    let minutes = size % 3600 / 60;
    let negative = offset_secs < 0;
    "Local (UTC "@ + seq![
        if negative && hours > 0 {
            '-'
        } else {
            '+'
        },
    ] + two_digits(hours) + seq![':'] + (if negative && minutes > 0 {
        seq!['-'] + crate::text::decimal(minutes as nat)
    } else {
        two_digits(minutes)
    }) + seq![')']
}

/// Writes `n` with at least two digits at the end of `out`.
fn push_two_digits(out: &mut String, n: u64)
    requires
        n < 100,
    ensures
        final(out)@ == old(out)@ + two_digits(n as int),
{
    let tens = n / 10;
    let ones = n % 10;
    push_decimal(out, tens);
    push_decimal(out, ones);
    assert(old(out)@ + crate::text::decimal(tens as nat) + crate::text::decimal(ones as nat) == old(
        out,
    )@ + two_digits(n as int));
}

/// The name of the machine's zone, for an offset that it has now.
pub fn local_zone_label(offset_secs: i32) -> (r: String)
    requires
        crate::calendar::valid_offset(offset_secs as int),
    ensures
        r@ == local_zone_label_spec(offset_secs as int),
{
    let negative = offset_secs < 0;
    let size: u64 = if negative {
        (-offset_secs) as u64
    } else {
        offset_secs as u64
    };
    let hours = size / 3600;
    let minutes = size % 3600 / 60;
    proof {
        reveal_strlit("-");
        reveal_strlit("+");
        reveal_strlit(":");
        reveal_strlit(")");
    }
    let mut out = String::new();
    out.append("Local (UTC ");
    if negative && hours > 0 {
        out.append("-");
    } else {
        out.append("+");
    }
    push_two_digits(&mut out, hours);
    out.append(":");
    if negative && minutes > 0 {
        out.append("-");
        push_decimal(&mut out, minutes);
    } else {
        push_two_digits(&mut out, minutes);
    }
    out.append(")");
    assert(out@ == local_zone_label_spec(offset_secs as int));
    out
}

impl UserTimezone {
    /// Reads an instant in the user's zone. None outside the representable years.
    pub fn to_user_datetime(&self, timestamp_ms: i64) -> (r: Option<UserDateTime>)
        ensures
            r is Some <==> crate::calendar::representable(timestamp_ms as int),
            r matches Some(t) ==> t.timestamp_ms == timestamp_ms && self.may_have_offset(
                t.offset_secs as int,
            ) && crate::calendar::valid_offset(t.offset_secs as int),
    {
        match self.offset_at(timestamp_ms) {
            Some(offset_secs) => Some(UserDateTime { timestamp_ms, offset_secs }),
            None => None,
        }
    }

    /// What a format can give at an instant in this zone: none outside the representable
    /// years, or what it gives for an offset that the zone can have.
    pub open spec fn may_label(
        self,
        timestamp_ms: i64,
        format: Seq<char>,
        label: Option<Seq<char>>,
    ) -> bool {
        if crate::calendar::representable(timestamp_ms as int) {
            exists|offset: i32|
                self.may_have_offset(offset as int) && #[trigger] is_label(
                    timestamp_ms,
                    offset,
                    format,
                    label,
                )
        } else {
            label is None
        }
    }

    /// Formats a Unix timestamp (milliseconds) according to the kind. None where
    /// the instant lies outside the representable years, or a custom format cannot
    /// be written.
    pub fn format_with_kind(&self, timestamp_ms: i64, kind: TimeLabelKind<'_>) -> (r: Option<
        String,
    >)
        ensures
            self.may_label(timestamp_ms, label_format(kind), crate::text::text_view(r)),
    {
        match self.to_user_datetime(timestamp_ms) {
            Some(time) => {
                format_at_offset(time.timestamp_ms, time.offset_secs, kind)
            },
            None => None,
        }
    }

    pub open spec fn config_text_spec(self) -> Seq<char> {
        match self {
            UserTimezone::Ist => "IST"@,
            UserTimezone::Utc => "UTC"@,
            UserTimezone::Local => "Local"@,
        }
    }

    /// The zone as a configuration file holds it.
    pub fn config_text(&self) -> (r: &'static str)
        ensures
            r@ == self.config_text_spec(),
    {
        match self {
            UserTimezone::Ist => "IST",
            UserTimezone::Utc => "UTC",
            UserTimezone::Local => "Local",
        }
    }

    /// The zone that a text in small letters stands for.
    pub open spec fn from_lowered(lowered: Seq<char>) -> Option<UserTimezone> {
        if lowered == "ist"@ {
            Some(UserTimezone::Ist)
        } else if lowered == "utc"@ {
            Some(UserTimezone::Utc)
        } else if lowered == "local"@ {
            Some(UserTimezone::Local)
        } else {
            None
        }
    }

    /// Reads the zone from a configuration file, in any case.
    pub fn from_config_text(s: &str) -> (r: Result<UserTimezone, String>)
        ensures
            match r {
                Ok(zone) => Self::from_lowered(crate::text::lowercase(s@)) == Some(zone),
                Err(message) => Self::from_lowered(crate::text::lowercase(s@)) is None && message@
                    == "Invalid UserTimezone"@,
            },
    {
        let lowered = str_to_lowercase(s);
        if same_text(lowered.as_str(), "ist") {
            Ok(UserTimezone::Ist)
        } else if same_text(lowered.as_str(), "utc") {
            Ok(UserTimezone::Utc)
        } else if same_text(lowered.as_str(), "local") {
            Ok(UserTimezone::Local)
        } else {
            Err("Invalid UserTimezone".to_string())
        }
    }

    /// The zone as the user can read it.
    pub open spec fn may_display(self, text: Seq<char>) -> bool {
        &&& self is Ist ==> text == "IST (UTC +05:30)"@
        &&& self is Utc ==> text == "UTC"@
        &&& self is Local ==> exists|offset: int| #[trigger]
            crate::calendar::valid_offset(offset) && text == local_zone_label_spec(offset)
    }

    /// The zone as the user reads it.
    pub fn display_text(&self) -> (r: String)
        ensures
            self.may_display(r@),
    {
        match self {
            UserTimezone::Ist => "IST (UTC +05:30)".to_string(),
            UserTimezone::Utc => "UTC".to_string(),
            UserTimezone::Local => local_zone_label(chrono_local_now_offset_secs()),
        }
    }
}

/// What a configuration file holds of a zone is read back as that zone.
pub proof fn law_config_text_reads_back(zone: UserTimezone)
    ensures
        UserTimezone::from_lowered(crate::text::lowercase(zone.config_text_spec())) == Some(zone),
{
    reveal_strlit("IST");
    reveal_strlit("UTC");
    reveal_strlit("Local");
    reveal_strlit("ist");
    reveal_strlit("utc");
    reveal_strlit("local");
    let lowered = crate::text::lowercase(zone.config_text_spec());
    match zone {
        UserTimezone::Ist => assert(lowered =~= "ist"@),
        UserTimezone::Utc => {
            assert(lowered =~= "utc"@);
            assert(lowered[0] != "ist"@[0]);
        },
        UserTimezone::Local => {
            assert(lowered =~= "local"@);
            assert(lowered.len() != "ist"@.len());
        },
    }
}

/// Two digits stand for a number below a hundred.
pub proof fn lemma_two_digits(n: int)
    requires
        0 <= n < 100,
    ensures
        two_digits(n).len() == 2,
        crate::axis_x::digit(two_digits(n)[0]) * 10 + crate::axis_x::digit(two_digits(n)[1]) == n,
{
}

/// Three digits stand for a number below a thousand.
pub proof fn lemma_three_digits(n: int)
    requires
        0 <= n < 1000,
    ensures
        three_digits(n).len() == 3,
        crate::axis_x::digit(three_digits(n)[0]) * 100 + crate::axis_x::digit(three_digits(n)[1])
            * 10 + crate::axis_x::digit(three_digits(n)[2]) == n,
{
}

/// Hours, minutes and seconds of a day are those of the whole time.
pub proof fn lemma_time_of_day(local: int)
    ensures
        0 <= local % 86_400_000 < 86_400_000,
        local % 86_400_000 / 3_600_000 == local / 3_600_000 % 24,
        local % 86_400_000 / 60_000 % 60 == local / 60_000 % 60,
        local % 86_400_000 / 1000 % 60 == local / 1000 % 60,
        local % 86_400_000 % 1000 == local % 1000,
{
}

/// The local date exists at every representable instant, also next to the first and the last.
pub proof fn lemma_date_near(timestamp_ms: int, offset_secs: int)
    requires
        crate::calendar::representable(timestamp_ms),
        crate::calendar::valid_offset(offset_secs),
    ensures
        ({
            let date = crate::calendar::date_on(
                (timestamp_ms + offset_secs * 1000) / 86_400_000,
            );
            date.exists_in_calendar() && date.day_number() == (timestamp_ms + offset_secs * 1000)
                / 86_400_000
        }),
{
    let day = (timestamp_ms + offset_secs * 1000) / 86_400_000;
    if day < crate::calendar::MIN_DAY {
        let d = crate::calendar::CivilDate { year: (-262_144) as i32, month: 12, day: 31 };
        crate::calendar::lemma_outer_days();
        assert(d.exists_in_calendar() && d.day_number() == day);
    } else if day > crate::calendar::MAX_DAY {
        let d = crate::calendar::CivilDate { year: 262_143, month: 1, day: 1 };
        crate::calendar::lemma_outer_days();
        assert(d.exists_in_calendar() && d.day_number() == day);
    } else {
        crate::calendar::lemma_date_exists(day);
    }
}

/// What labels of each kind show, `offset_secs` east of UTC. On the axis it is minutes and
/// seconds for columns of less than ten seconds, and hours and minutes for the others. At the
/// crosshair it is the time to the millisecond, or the day of the week, the month, the day and
/// the time. There is such a label at every representable instant.
pub proof fn law_kinds_of_labels(
    timestamp_ms: i64,
    offset_secs: i32,
    timeframe: Timeframe,
    axis: Option<Seq<char>>,
    exact: Option<Seq<char>>,
    plain: Option<Seq<char>>,
)
    requires
        crate::calendar::representable(timestamp_ms as int),
        crate::calendar::valid_offset(offset_secs as int),
        is_label(
            timestamp_ms,
            offset_secs,
            label_format(TimeLabelKind::Axis { timeframe }),
            axis,
        ),
        is_label(
            timestamp_ms,
            offset_secs,
            label_format(TimeLabelKind::Crosshair { show_millis: true }),
            exact,
        ),
        is_label(
            timestamp_ms,
            offset_secs,
            label_format(TimeLabelKind::Crosshair { show_millis: false }),
            plain,
        ),
    ensures
        ({
            let local = timestamp_ms + offset_secs * 1000;
            let hour = local / 3_600_000 % 24;
            let minute = local / 60_000 % 60;
            let second = local / 1000 % 60;
            &&& axis matches Some(text) && text.len() == 5 && text[2] == ':' && (
            timeframe.milliseconds() < 10_000 ==> number_at(text, 0) == minute && number_at(text, 3)
                == second) && (timeframe.milliseconds() >= 10_000 ==> number_at(text, 0) == hour
                && number_at(text, 3) == minute)
            &&& exact matches Some(text) && text.len() == 12 && number_at(text, 0) == hour
                && text[2] == ':' && number_at(text, 3) == minute && text[5] == ':' && number_at(
                text,
                6,
            ) == second && text[8] == '.' && number_at(text, 9) * 10 + crate::axis_x::digit(
                text[11],
            ) == local % 1000
        }),
        plain matches Some(text) && shows_day_and_time(text, timestamp_ms + offset_secs * 1000),
{
    reveal_strlit("%H:%M");
    reveal_strlit("%M:%S");
    reveal_strlit("%H:%M:%S");
    reveal_strlit("%H:%M:%S.%3f");
    reveal_strlit("%H:%M:%S%.3f");
    reveal_strlit("%m-%d %H:%M");
    reveal_strlit("%a %b %-d %H:%M");
    assert("%H:%M"@[1] != "%M:%S"@[1]);
    let local = timestamp_ms + offset_secs * 1000;
    let tod = local % 86_400_000;
    lemma_time_of_day(local);
    lemma_two_digits(tod / 3_600_000);
    lemma_two_digits(tod / 60_000 % 60);
    lemma_two_digits(tod / 1000 % 60);
    lemma_three_digits(tod % 1000);
    assert("%M:%S"@.len() == 5 && "%H:%M"@.len() == 5 && "%H:%M:%S.%3f"@.len() == 12
        && "%a %b %-d %H:%M"@.len() == 15 && "%m-%d %H:%M"@.len() == 11);
    assert(label_text("%a %b %-d %H:%M"@, timestamp_ms as int, offset_secs as int) == date_text(
        "%a %b %-d %H:%M"@,
        local / 86_400_000,
        tod,
    ));
    lemma_date_near(timestamp_ms as int, offset_secs as int);
    lemma_day_and_time(local);
}

/// The number that two digits of a text stand for.
pub open spec fn number_at(text: Seq<char>, at: int) -> int {
    crate::axis_x::digit(text[at]) * 10 + crate::axis_x::digit(text[at + 1])
}

/// The text shows the day of the week, the month, the day of the month and the time of a local
/// instant, with blanks between them. 1970-01-01 was a Thursday.
pub open spec fn shows_day_and_time(text: Seq<char>, local: int) -> bool {
    let weekday = local / 86_400_000 % 7;
    let date = crate::calendar::date_on(local / 86_400_000);
    let n = text.len();
    &&& n >= 15
    &&& text.take(3) == if weekday == 0 {
        "Thu"@
    } else if weekday == 1 {
        "Fri"@
    } else if weekday == 2 {
        "Sat"@
    } else if weekday == 3 {
        "Sun"@
    } else if weekday == 4 {
        "Mon"@
    } else if weekday == 5 {
        "Tue"@
    } else {
        "Wed"@
    }
    &&& text[3] == ' '
    &&& text.subrange(4, 7) == month_name(date.month as int)
    &&& text[7] == ' '
    &&& text.subrange(8, n - 6) == crate::text::decimal(date.day as nat)
    &&& text[n - 6] == ' '
    &&& number_at(text, n - 5) == local / 3_600_000 % 24
    &&& text[n - 3] == ':'
    &&& number_at(text, n - 2) == local / 60_000 % 60
}

proof fn lemma_day_and_time(local: int)
    requires
        crate::calendar::date_on(local / 86_400_000).exists_in_calendar(),
    ensures
        date_text("%a %b %-d %H:%M"@, local / 86_400_000, local % 86_400_000) matches Some(text)
            && shows_day_and_time(text, local),
{
    reveal_strlit("%m-%d %H:%M");
    reveal_strlit("%a %b %-d %H:%M");
    assert("%a %b %-d %H:%M"@.len() == 15 && "%m-%d %H:%M"@.len() == 11);
    let day = local / 86_400_000;
    let tod = local % 86_400_000;
    let date = crate::calendar::date_on(day);
    lemma_time_of_day(local);
    lemma_two_digits(tod / 3_600_000);
    lemma_two_digits(tod / 60_000 % 60);
    lemma_names_have_three_letters((day + 4) % 7, date.month as int);
    let weekday = weekday_name((day + 4) % 7);
    let month = month_name(date.month as int);
    let number = crate::text::decimal(date.day as nat);
    assert(number.len() >= 1);
    let clock = hour_text(tod) + seq![':'] + minute_text(tod);
    let text = weekday + seq![' '] + month + seq![' '] + number + seq![' '] + clock;
    assert(clock.len() == 5);
    assert(date_text("%a %b %-d %H:%M"@, day, tod) == Some(text));
    assert(text.take(3) =~= weekday);
    assert(text.subrange(4, 7) =~= month);
    let n = text.len();
    assert(text.subrange(8, n - 6) =~= number);
    assert(text.skip(n - 5) =~= clock);
    assert forall|i: int| 0 <= i < 5 implies text[n - 5 + i] == #[trigger] clock[i] by {
        assert(text.skip(n - 5)[i] == clock[i]);
    }
    assert(clock[0] == hour_text(tod)[0] && clock[1] == hour_text(tod)[1] && clock[2] == ':'
        && clock[3] == minute_text(tod)[0] && clock[4] == minute_text(tod)[1]);
}

proof fn lemma_names_have_three_letters(from_sunday: int, month: int)
    ensures
        weekday_name(from_sunday).len() == 3,
        month_name(month).len() == 3,
{
    reveal_strlit("Sun");
    reveal_strlit("Mon");
    reveal_strlit("Tue");
    reveal_strlit("Wed");
    reveal_strlit("Thu");
    reveal_strlit("Fri");
    reveal_strlit("Sat");
    reveal_strlit("Jan");
    reveal_strlit("Feb");
    reveal_strlit("Mar");
    reveal_strlit("Apr");
    reveal_strlit("May");
    reveal_strlit("Jun");
    reveal_strlit("Jul");
    reveal_strlit("Aug");
    reveal_strlit("Sep");
    reveal_strlit("Oct");
    reveal_strlit("Nov");
    reveal_strlit("Dec");
}

/// What the long format of labels shows at an instant.
pub proof fn lemma_long_label(timestamp_ms: i64, offset_secs: i32, label: Option<Seq<char>>)
    requires
        crate::calendar::representable(timestamp_ms as int),
        crate::calendar::valid_offset(offset_secs as int),
        is_label(timestamp_ms, offset_secs, "%a %b %-d %H:%M"@, label),
    ensures
        label matches Some(text) && shows_day_and_time(text, timestamp_ms + offset_secs * 1000),
{
    reveal_strlit("%H:%M");
    reveal_strlit("%M:%S");
    reveal_strlit("%H:%M:%S");
    reveal_strlit("%H:%M:%S.%3f");
    reveal_strlit("%H:%M:%S%.3f");
    reveal_strlit("%a %b %-d %H:%M");
    let local = timestamp_ms + offset_secs * 1000;
    assert("%a %b %-d %H:%M"@.len() == 15);
    lemma_date_near(timestamp_ms as int, offset_secs as int);
    lemma_day_and_time(local);
}

/// Months are named by their first three letters.
pub proof fn law_names_of_months(month: int)
    requires
        1 <= month <= 12,
    ensures
        month_name(month) == seq![
            "Jan"@,
            "Feb"@,
            "Mar"@,
            "Apr"@,
            "May"@,
            "Jun"@,
            "Jul"@,
            "Aug"@,
            "Sep"@,
            "Oct"@,
            "Nov"@,
            "Dec"@,
        ][month - 1],
{
}

/// The label of the machine's zone shows how far it is from UTC, in whole hours and the minutes
/// that are left: behind the hours' sign, which is a minus exactly from one hour to the west on.
/// The minutes have two digits, but to the west they have their own minus where there are any.
pub proof fn law_local_zone_shows_its_distance(offset_secs: int)
    requires
        crate::calendar::valid_offset(offset_secs),
    ensures
        ({
            let text = local_zone_label_spec(offset_secs);
            let size = if offset_secs < 0 {
                -offset_secs
            } else {
                offset_secs
            };
            let n = text.len();
            &&& n >= 18
            &&& text.take(11) == "Local (UTC "@
            &&& text[11] == '-' <==> offset_secs <= -3600
            &&& text[11] == '+' <==> offset_secs > -3600
            &&& number_at(text, 12) * 3600 <= size < number_at(text, 12) * 3600 + 3600
            &&& text[14] == ':'
            &&& text[n - 1] == ')'
            &&& offset_secs >= 0 || size % 3600 < 60 ==> n == 18 && number_at(text, 15) == size
                % 3600 / 60
            &&& offset_secs < 0 && size % 3600 >= 60 ==> text[15] == '-' && text.subrange(
                16,
                n - 1,
            ) == crate::text::decimal((size % 3600 / 60) as nat)
        }),
{
    reveal_strlit("Local (UTC ");
    let size = if offset_secs < 0 {
        -offset_secs
    } else {
        offset_secs
    };
    let hours = size / 3600;
    let minutes = size % 3600 / 60;
    lemma_two_digits(hours);
    lemma_two_digits(minutes);
    let text = local_zone_label_spec(offset_secs);
    let n = text.len();
    assert("Local (UTC "@.len() == 11);
    assert(crate::text::decimal(minutes as nat).len() >= 1);
    assert(text.take(11) =~= "Local (UTC "@);
    assert(text[12] == two_digits(hours)[0] && text[13] == two_digits(hours)[1]);
    if offset_secs < 0 && minutes > 0 {
        assert(text.subrange(16, n - 1) =~= crate::text::decimal(minutes as nat));
    } else {
        assert(text[15] == two_digits(minutes)[0] && text[16] == two_digits(minutes)[1]);
    }
}

/// A zone is read only from its own text in small letters.
pub proof fn law_only_zones_are_read(lowered: Seq<char>)
    ensures
        UserTimezone::from_lowered(lowered) matches Some(zone) ==> lowered
            == crate::text::lowercase(zone.config_text_spec()),
{
    reveal_strlit("IST");
    reveal_strlit("UTC");
    reveal_strlit("Local");
    reveal_strlit("ist");
    reveal_strlit("utc");
    reveal_strlit("local");
    assert(crate::text::lowercase("IST"@) =~= "ist"@);
    assert(crate::text::lowercase("UTC"@) =~= "utc"@);
    assert(crate::text::lowercase("Local"@) =~= "local"@);
}

/// How zones are written: in a configuration file by their names, and for the user with how far
/// they are from UTC.
pub proof fn law_zones_are_written_with_their_distance(zone: UserTimezone, text: Seq<char>)
    requires
        zone.may_display(text),
    ensures
        UserTimezone::Ist.config_text_spec() == "IST"@,
        UserTimezone::Utc.config_text_spec() == "UTC"@,
        UserTimezone::Local.config_text_spec() == "Local"@,
        zone is Utc ==> text == "UTC"@,
        zone is Ist ==> text == "IST (UTC +05:30)"@ && zone.may_have_offset(
            number_at(text, 10) * 3600 + number_at(text, 13) * 60,
        ),
        zone is Local ==> text.len() >= 18 && text.take(11) == "Local (UTC "@ && exists|
            offset: int,
        | #[trigger]
            zone.may_have_offset(offset) && (offset >= 0 ==> 0 <= offset - number_at(text, 12)
                * 3600 - number_at(text, 15) * 60 < 60),
{
    reveal_strlit("IST (UTC +05:30)");
    if zone is Local {
        let offset = choose|offset: int| #[trigger]
            crate::calendar::valid_offset(offset) && text == local_zone_label_spec(offset);
        law_local_zone_shows_its_distance(offset);
        assert(zone.may_have_offset(offset));
    }
}

} // verus!

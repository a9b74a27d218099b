//! Candle and heatmap intervals.
use vstd::prelude::*;

verus! {

/// The interval that one candle or one heatmap column covers.
#[derive(Debug, Clone, Copy, PartialEq, Eq, Hash, PartialOrd, Ord, Structural)]
pub enum Timeframe {
    MS100,
    MS200,
    MS300,
    MS500,
    M1,
    M3,
    M5,
    M15,
    M30,
    H1,
    H2,
    H4,
    H12,
    D1,
}

impl Timeframe {
    pub open spec fn milliseconds(self) -> u64 {
        match self {
            Timeframe::MS100 => 100,
            Timeframe::MS200 => 200,
            Timeframe::MS300 => 300,
            Timeframe::MS500 => 500,
            Timeframe::M1 => 60_000,
            Timeframe::M3 => 180_000,
            Timeframe::M5 => 300_000,
            Timeframe::M15 => 900_000,
            Timeframe::M30 => 1_800_000,
            Timeframe::H1 => 3_600_000,
            Timeframe::H2 => 7_200_000,
            Timeframe::H4 => 14_400_000,
            Timeframe::H12 => 43_200_000,
            Timeframe::D1 => 86_400_000,
        }
    }

    /// Length of the interval in milliseconds.
    pub fn to_milliseconds(&self) -> (r: u64)
        ensures
            r == self.milliseconds(),
    {
        match self {
            Timeframe::MS100 => 100,
            Timeframe::MS200 => 200,
            Timeframe::MS300 => 300,
            Timeframe::MS500 => 500,
            Timeframe::M1 => 60_000,
            Timeframe::M3 => 180_000,
            Timeframe::M5 => 300_000,
            Timeframe::M15 => 900_000,
            Timeframe::M30 => 1_800_000,
            Timeframe::H1 => 3_600_000,
            Timeframe::H2 => 7_200_000,
            Timeframe::H4 => 14_400_000,
            Timeframe::H12 => 43_200_000,
            Timeframe::D1 => 86_400_000,
        }
    }

    /// Candles come in intervals of a minute or more.
    pub open spec fn is_kline_spec(self) -> bool {
        self.milliseconds() >= 60_000
    }

    /// Whether candles come in this interval.
    pub fn is_kline(&self) -> (r: bool)
        ensures
            r == self.is_kline_spec(),
    {
        self.to_milliseconds() >= 60_000
    }

    pub open spec fn label_spec(self) -> Seq<char> {
        match self {
            Timeframe::MS100 => "100ms"@,
            Timeframe::MS200 => "200ms"@,
            Timeframe::MS300 => "300ms"@,
            Timeframe::MS500 => "500ms"@,
            Timeframe::M1 => "1m"@,
            Timeframe::M3 => "3m"@,
            Timeframe::M5 => "5m"@,
            Timeframe::M15 => "15m"@,
            Timeframe::M30 => "30m"@,
            Timeframe::H1 => "1h"@,
            Timeframe::H2 => "2h"@,
            Timeframe::H4 => "4h"@,
            Timeframe::H12 => "12h"@,
            Timeframe::D1 => "1d"@,
        }
    }

    /// Short name of the interval.
    pub fn label(&self) -> (r: &'static str)
        ensures
            r@ == self.label_spec(),
    {
        match self {
            Timeframe::MS100 => "100ms",
            Timeframe::MS200 => "200ms",
            Timeframe::MS300 => "300ms",
            Timeframe::MS500 => "500ms",
            Timeframe::M1 => "1m",
            Timeframe::M3 => "3m",
            Timeframe::M5 => "5m",
            Timeframe::M15 => "15m",
            Timeframe::M30 => "30m",
            Timeframe::H1 => "1h",
            Timeframe::H2 => "2h",
            Timeframe::H4 => "4h",
            Timeframe::H12 => "12h",
            Timeframe::D1 => "1d",
        }
    }
}

/// How many milliseconds the unit of an interval's name has.
pub open spec fn unit_ms(unit: Seq<char>) -> int {
    if unit == seq!['m', 's'] {
        1
    } else if unit == seq!['m'] {
        60_000
    } else if unit == seq!['h'] || unit == seq!['H'] || unit == seq!['H', 'u', 't', 'c'] {
        3_600_000
    } else {
        86_400_000
    }
}

/// The name writes so many of a unit: a number of up to three digits, and the unit behind it.
pub open spec fn names_length(name: Seq<char>, digits: int, ms: int) -> bool {
    let d = |i: int| name[i] as int - '0' as int;
    let unit = unit_ms(name.skip(digits));
    &&& 1 <= digits <= 3 && digits < name.len()
    &&& forall|i: int| 0 <= i < digits ==> '0' <= #[trigger] name[i] <= '9'
    &&& !('0' <= name[digits] <= '9')
    &&& ms == unit * if digits == 1 {
        d(0)
    } else if digits == 2 {
        d(0) * 10 + d(1)
    } else {
        d(0) * 100 + d(1) * 10 + d(2)
    }
}

/// The name of an interval says how long it is.
pub proof fn law_names_say_the_length(tf: Timeframe)
    ensures
        exists|digits: int| #[trigger]
            names_length(tf.label_spec(), digits, tf.milliseconds() as int),
        tf.is_kline_spec() <==> tf.milliseconds() >= 60_000,
{
    reveal_strlit("100ms");
    reveal_strlit("200ms");
    reveal_strlit("300ms");
    reveal_strlit("500ms");
    reveal_strlit("1m");
    reveal_strlit("3m");
    reveal_strlit("5m");
    reveal_strlit("15m");
    reveal_strlit("30m");
    reveal_strlit("1h");
    reveal_strlit("2h");
    reveal_strlit("4h");
    reveal_strlit("12h");
    reveal_strlit("1d");
    let name = tf.label_spec();
    let digits: int = match tf {
        Timeframe::MS100 | Timeframe::MS200 | Timeframe::MS300 | Timeframe::MS500 => 3,
        Timeframe::M15 | Timeframe::M30 | Timeframe::H12 => 2,
        _ => 1,
    };
    let unit = name.skip(digits);
    if tf.milliseconds() < 60_000 {
        assert(unit =~= seq!['m', 's']);
    } else if tf.milliseconds() < 3_600_000 {
        assert(unit =~= seq!['m']);
        assert(unit.len() != seq!['m', 's'].len());
    } else if tf.milliseconds() < 86_400_000 {
        assert(unit =~= seq!['h']);
        assert(unit.len() != seq!['m', 's'].len());
        assert(unit[0] != seq!['m'][0]);
    } else {
        assert(unit =~= seq!['d']);
        assert(unit.len() != seq!['m', 's'].len());
        assert(unit[0] != seq!['m'][0]);
        assert(unit[0] != seq!['h'][0]);
        assert(unit[0] != seq!['H'][0]);
        assert(unit.len() != seq!['H', 'u', 't', 'c'].len());
    }
    assert(names_length(name, digits, tf.milliseconds() as int));
}

} // verus!

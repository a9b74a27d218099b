//! Rate limits: how many requests may go out, and how long to wait for the next.
use crate::ticker::Bits32;
use reqwest::header::{HeaderMap, HeaderValue};
use std::time::Instant;
use vstd::prelude::*;

verus! {

pub const NANOS_PER_SEC: u128 = 1_000_000_000;

pub const NANOS_PER_MILLI: u128 = 1_000_000;

/// One more than the largest count of milliseconds that 64 bits hold.
pub const MILLIS_MODULUS: u128 = 0x1_0000_0000_0000_0000;

/// How long past the end of a period a request is held back.
pub const HEADER_MARGIN_MS: u64 = 50;

/// A span of time, in nanoseconds.
#[derive(Debug, Clone, Copy, PartialEq, Eq, Structural)]
pub struct TimeSpan {
    pub nanos: u128,
}

impl TimeSpan {
    pub fn from_secs(secs: u64) -> (r: TimeSpan)
        ensures
            r.nanos == secs * NANOS_PER_SEC,
    {
        TimeSpan { nanos: secs as u128 * NANOS_PER_SEC }
    }

    pub fn from_millis(millis: u64) -> (r: TimeSpan)
        ensures
            r.nanos == millis * NANOS_PER_MILLI,
    {
        TimeSpan { nanos: millis as u128 * NANOS_PER_MILLI }
    }

    /// Whole seconds.
    pub open spec fn secs(self) -> int {
        self.nanos as int / NANOS_PER_SEC as int
    }

    /// Whole milliseconds, as far as 64 bits hold them.
    pub open spec fn millis(self) -> int {
        (self.nanos as int / NANOS_PER_MILLI as int) % MILLIS_MODULUS as int
    }

    /// What of this span is left after `other`; nothing, where `other` is longer.
    pub open spec fn minus(self, other: TimeSpan) -> TimeSpan {
        TimeSpan {
            nanos: if self.nanos >= other.nanos {
                (self.nanos - other.nanos) as u128
            } else {
                0
            },
        }
    }

    pub fn saturating_sub(&self, other: &TimeSpan) -> (r: TimeSpan)
        ensures
            r == self.minus(*other),
    {
        TimeSpan { nanos: self.nanos.saturating_sub(other.nanos) }
    }

    fn as_millis(&self) -> (r: u64)
        ensures
            r == self.millis(),
    {
        let millis: u128 = self.nanos / NANOS_PER_MILLI;
        (millis % MILLIS_MODULUS) as u64
    }
}

#[verifier::external_type_specification]
#[verifier::external_body]
pub struct ExInstant(Instant);

/// `Instant::now`. Nothing is promised of the reading.
#[verifier::external_body]
fn instant_now() -> (r: Instant) {
    Instant::now()
}

/// `Instant::elapsed`: how long ago `origin` was. Nothing is promised of the reading.
#[verifier::external_body]
fn elapsed_since(origin: &Instant) -> (r: TimeSpan) {
    TimeSpan { nanos: origin.elapsed().as_nanos() }
}

/// `SystemTime::elapsed` of the epoch: how long ago 1970 began, and none where the wall clock
/// stands before it. Nothing is promised of the reading.
#[verifier::external_body]
fn wall_clock() -> (r: Option<TimeSpan>) {
    match std::time::UNIX_EPOCH.elapsed() {
        Ok(since) => Some(TimeSpan { nanos: since.as_nanos() }),
        Err(_) => None,
    }
}

/// The clocks as a bucket reads them for one request.
#[derive(Debug, Clone, Copy, PartialEq, Eq, Structural)]
pub struct ClockReading {
    /// The wall clock, since 1970; none where it stands before that.
    pub wall: Option<TimeSpan>,
    /// The steady clock, since the bucket was made.
    pub now: TimeSpan,
    /// The steady clock, when a wait is worked out.
    pub later: TimeSpan,
}

/// A bucket of tokens: what it holds at most, what it holds, when it was last filled,
/// and how long a window is.
pub struct BucketState {
    pub max_tokens: nat,
    pub available_tokens: nat,
    pub last_refill: TimeSpan,
    pub refill_rate: TimeSpan,
}

impl BucketState {
    /// The bucket holds no more than it can, and a window lasts a second at least.
    pub open spec fn well_formed(self) -> bool {
        &&& self.available_tokens <= self.max_tokens
        &&& self.refill_rate.secs() >= 1
    }

    /// A window is over, or the wall clock is in the first second of one.
    pub open spec fn refills(self, clock: ClockReading) -> bool {
        clock.wall matches Some(wall) && (clock.now.minus(self.last_refill).nanos
            >= self.refill_rate.nanos || wall.secs() % self.refill_rate.secs() == 0)
    }

    pub open spec fn refilled(self, clock: ClockReading) -> BucketState {
        if self.refills(clock) {
            BucketState { available_tokens: self.max_tokens, last_refill: clock.now, ..self }
        } else {
            self
        }
    }

    /// Whether a request for tokens is let through.
    pub open spec fn grants(self, tokens: nat, clock: ClockReading) -> bool {
        self.refilled(clock).available_tokens >= tokens
    }

    /// The bucket after a request: what is granted is taken out.
    pub open spec fn after_request(self, tokens: nat, clock: ClockReading) -> BucketState {
        let full = self.refilled(clock);
        if self.grants(tokens, clock) {
            BucketState { available_tokens: (full.available_tokens - tokens) as nat, ..full }
        } else {
            full
        }
    }

    /// How long a request has to wait: the rest of the window, where it is not granted.
    pub open spec fn wait(self, tokens: nat, clock: ClockReading) -> Option<TimeSpan> {
        if self.grants(tokens, clock) {
            None
        } else {
            Some(self.refill_rate.minus(clock.later.minus(self.refilled(clock).last_refill)))
        }
    }

    /// The bucket after tokens were used up elsewhere.
    pub open spec fn after_use(self, tokens: nat, clock: ClockReading) -> BucketState {
        let full = self.refilled(clock);
        BucketState {
            available_tokens: if tokens <= full.available_tokens {
                (full.available_tokens - tokens) as nat
            } else {
                0
            },
            ..full
        }
    }
}

/// A full bucket whose clock begins.
pub open spec fn full_bucket(max_tokens: nat, refill_rate: TimeSpan) -> BucketState {
    BucketState {
        max_tokens,
        available_tokens: max_tokens,
        last_refill: TimeSpan { nanos: 0 },
        refill_rate,
    }
}

impl BucketState {
    /// A request for tokens, at some reading of the clocks, is answered so and leads to that
    /// state.
    pub open spec fn may_answer(
        self,
        tokens: nat,
        answer: Option<TimeSpan>,
        after: BucketState,
    ) -> bool {
        exists|clock: ClockReading| #[trigger]
            self.after_request(tokens, clock) == after && answer == self.wait(tokens, clock)
    }

    /// Tokens that were used up, at some reading of the clocks, lead to that state.
    pub open spec fn may_lose(self, tokens: nat, after: BucketState) -> bool {
        exists|clock: ClockReading| #[trigger] self.after_use(tokens, clock) == after
    }
}

/// Limiter for a fixed window rate.
pub struct FixedWindowBucket {
    max_tokens: usize,
    available_tokens: usize,
    started: Instant,
    last_refill: TimeSpan,
    refill_rate: TimeSpan,
}

impl View for FixedWindowBucket {
    type V = BucketState;

    closed spec fn view(&self) -> BucketState {
        BucketState {
            max_tokens: self.max_tokens as nat,
            available_tokens: self.available_tokens as nat,
            last_refill: self.last_refill,
            refill_rate: self.refill_rate,
        }
    }
}

impl FixedWindowBucket {
    /// The moment that the bucket's steady clock is counted from.
    pub closed spec fn origin(self) -> Instant {
        self.started
    }

    /// A full bucket.
    pub fn new(max_tokens: usize, refill_rate: TimeSpan) -> (r: FixedWindowBucket)
        ensures
            r@ == full_bucket(max_tokens as nat, refill_rate),
    {
        FixedWindowBucket {
            max_tokens,
            available_tokens: max_tokens,
            started: instant_now(),
            last_refill: TimeSpan { nanos: 0 },
            refill_rate,
        }
    }

    /// Reads the clocks.
    fn read_clocks(&self) -> (r: ClockReading) {
        let wall = wall_clock();
        let now = elapsed_since(&self.started);
        let later = elapsed_since(&self.started);
        ClockReading { wall, now, later }
    }

    fn refill(&mut self, clock: &ClockReading)
        requires
            old(self)@.well_formed(),
        ensures
            final(self)@ == old(self)@.refilled(*clock),
            final(self)@.well_formed(),
            final(self).origin() == old(self).origin(),
            !old(self)@.refills(*clock) ==> *final(self) == *old(self),
    {
        if let Some(wall) = clock.wall {
            let period_seconds: u128 = self.refill_rate.nanos / NANOS_PER_SEC;
            let seconds_in_current_period: u128 = (wall.nanos / NANOS_PER_SEC) % period_seconds;
            let elapsed = clock.now.saturating_sub(&self.last_refill);
            if elapsed.nanos >= self.refill_rate.nanos || seconds_in_current_period < 1 {
                self.available_tokens = self.max_tokens;
                self.last_refill = clock.now;
            }
        }
    }

    /// Takes the tokens of a request out, or says how long to wait for them, with the
    /// clocks read as given.
    pub fn calculate_wait_time_at(&mut self, tokens: usize, clock: &ClockReading) -> (r: Option<
        TimeSpan,
    >)
        requires
            old(self)@.well_formed(),
        ensures
            r == old(self)@.wait(tokens as nat, *clock),
            final(self)@ == old(self)@.after_request(tokens as nat, *clock),
            final(self)@.well_formed(),
            final(self).origin() == old(self).origin(),
            !old(self)@.refills(*clock) && !old(self)@.grants(tokens as nat, *clock)
                ==> *final(self) == *old(self),
    {
        self.refill(clock);
        if self.available_tokens >= tokens {
            self.available_tokens -= tokens;
            return None;
        }
        let passed = clock.later.saturating_sub(&self.last_refill);
        Some(self.refill_rate.saturating_sub(&passed))
    }

    /// Takes the tokens of a request out, or says how long to wait for them.
    pub fn calculate_wait_time(&mut self, tokens: usize) -> (r: Option<TimeSpan>)
        requires
            old(self)@.well_formed(),
        ensures
            final(self)@.well_formed(),
            final(self).origin() == old(self).origin(),
            old(self)@.may_answer(tokens as nat, r, final(self)@),
    {
        let clock = self.read_clocks();
        self.calculate_wait_time_at(tokens, &clock)
    }

    /// Takes tokens out, as far as there are any, with the clocks read as given.
    pub fn consume_tokens_at(&mut self, tokens: usize, clock: &ClockReading)
        requires
            old(self)@.well_formed(),
        ensures
            final(self)@ == old(self)@.after_use(tokens as nat, *clock),
            final(self)@.well_formed(),
            final(self).origin() == old(self).origin(),
    {
        self.refill(clock);
        let used = if tokens <= self.available_tokens {
            tokens
        } else {
            self.available_tokens
        };
        self.available_tokens -= used;
    }

    /// Takes tokens out, as far as there are any.
    pub fn consume_tokens(&mut self, tokens: usize)
        requires
            old(self)@.well_formed(),
        ensures
            final(self)@.well_formed(),
            final(self).origin() == old(self).origin(),
            old(self)@.may_lose(tokens as nat, final(self)@),
    {
        let clock = self.read_clocks();
        self.consume_tokens_at(tokens, &clock);
    }
}

#[derive(Debug, Clone, Copy, PartialEq, Eq, Structural)]
pub enum DynamicLimitReason {
    HeaderRate,
    FixedWindowRate,
}

/// The clocks as a dynamic bucket reads them for one request.
#[derive(Debug, Clone, Copy, PartialEq, Eq, Structural)]
pub struct DynamicReading {
    /// The steady clock, since the bucket was made.
    pub now: TimeSpan,
    /// The wall clock, since 1970; none where it stands before that.
    pub wall: Option<TimeSpan>,
    /// The clocks of the bucket that is fallen back on.
    pub fallback: ClockReading,
}

/// What a source last said of the weight in use, and a bucket of tokens beside it.
pub struct DynamicState {
    pub max_weight: nat,
    pub current_used_weight: nat,
    pub last_updated: TimeSpan,
    pub refill_rate: TimeSpan,
    pub fallback: BucketState,
}

impl DynamicState {
    /// The source has said something, no more than a window ago.
    pub open spec fn goes_by_header(self, now: TimeSpan) -> bool {
        now.minus(self.last_updated).nanos <= self.refill_rate.nanos && self.current_used_weight > 0
    }

    /// A request can be weighed: by what the source said, or by the bucket.
    pub open spec fn ready(self, now: TimeSpan) -> bool {
        self.goes_by_header(now) || self.fallback.well_formed()
    }

    /// Whether the weight fits into what the source leaves.
    pub open spec fn header_grants(self, weight: nat) -> bool {
        self.current_used_weight + weight <= self.max_weight || weight == 0
    }

    /// The rest of the period that the wall clock is in, and a margin, in milliseconds.
    pub open spec fn header_wait_ms(self, wall: Option<TimeSpan>) -> int {
        let period = self.refill_rate.millis();
        let time = match wall {
            Some(wall) => wall.millis(),
            None => 0,
        };
        let rest = if period > 0 {
            period - time % period
        } else {
            0
        };
        if rest + HEADER_MARGIN_MS <= u64::MAX {
            rest + HEADER_MARGIN_MS
        } else {
            u64::MAX as int
        }
    }

    pub open spec fn answer(self, weight: nat, clock: DynamicReading) -> (
        Option<TimeSpan>,
        Option<DynamicLimitReason>,
    ) {
        if self.goes_by_header(clock.now) {
            if self.header_grants(weight) {
                (None, None)
            } else {
                (
                    Some(
                        TimeSpan {
                            nanos: (self.header_wait_ms(clock.wall) * NANOS_PER_MILLI) as u128,
                        },
                    ),
                    Some(DynamicLimitReason::HeaderRate),
                )
            }
        } else {
            match self.fallback.wait(weight, clock.fallback) {
                None => (None, None),
                Some(wait) => (Some(wait), Some(DynamicLimitReason::FixedWindowRate)),
            }
        }
    }

    pub open spec fn after_request(self, weight: nat, clock: DynamicReading) -> DynamicState {
        if self.goes_by_header(clock.now) {
            self
        } else {
            DynamicState { fallback: self.fallback.after_request(weight, clock.fallback), ..self }
        }
    }

    /// What the source said is kept, unless it said nothing.
    pub open spec fn after_update(self, new_weight: nat, now: TimeSpan) -> DynamicState {
        if new_weight > 0 {
            DynamicState { current_used_weight: new_weight, last_updated: now, ..self }
        } else {
            self
        }
    }
}

impl DynamicState {
    /// A report can lead to that state, by some reading of the clock.
    pub open spec fn may_become(self, new_weight: nat, after: DynamicState) -> bool {
        exists|now: TimeSpan| #[trigger] self.after_update(new_weight, now) == after
    }
}

/// A full bucket, and a source that has said nothing.
pub open spec fn unreported(max_weight: nat, refill_rate: TimeSpan) -> DynamicState {
    DynamicState {
        max_weight,
        current_used_weight: 0,
        last_updated: TimeSpan { nanos: 0 },
        refill_rate,
        fallback: full_bucket(max_weight, refill_rate),
    }
}

/// Limiter that can be used when source reports the rate-limit usage.
///
/// Can fallback to fixed window bucket.
pub struct DynamicBucket {
    max_weight: usize,
    current_used_weight: usize,
    started: Instant,
    last_updated: TimeSpan,
    refill_rate: TimeSpan,
    fallback_bucket: FixedWindowBucket,
}

impl View for DynamicBucket {
    type V = DynamicState;

    closed spec fn view(&self) -> DynamicState {
        DynamicState {
            max_weight: self.max_weight as nat,
            current_used_weight: self.current_used_weight as nat,
            last_updated: self.last_updated,
            refill_rate: self.refill_rate,
            fallback: self.fallback_bucket@,
        }
    }
}

impl DynamicBucket {
    /// The moment that the bucket's steady clock is counted from.
    pub closed spec fn origin(self) -> Instant {
        self.started
    }

    /// The moment that the steady clock of the bucket that is fallen back on is counted from.
    pub closed spec fn fallback_origin(self) -> Instant {
        self.fallback_bucket.origin()
    }

    pub fn new(max_weight: usize, refill_rate: TimeSpan) -> (r: DynamicBucket)
        ensures
            r@ == unreported(max_weight as nat, refill_rate),
    {
        DynamicBucket {
            max_weight,
            current_used_weight: 0,
            started: instant_now(),
            last_updated: TimeSpan { nanos: 0 },
            refill_rate,
            fallback_bucket: FixedWindowBucket::new(max_weight, refill_rate),
        }
    }

    /// Keeps what the source said of the weight in use, with the clock read as given.
    pub fn update_weight_at(&mut self, new_weight: usize, now: TimeSpan)
        ensures
            final(self)@ == old(self)@.after_update(new_weight as nat, now),
            final(self).origin() == old(self).origin(),
            final(self).fallback_origin() == old(self).fallback_origin(),
            new_weight == 0 ==> *final(self) == *old(self),
    {
        if new_weight > 0 {
            self.current_used_weight = new_weight;
            self.last_updated = now;
        }
    }

    /// Keeps what the source said of the weight in use.
    pub fn update_weight(&mut self, new_weight: usize)
        ensures
            old(self)@.may_become(new_weight as nat, final(self)@),
            final(self).origin() == old(self).origin(),
            final(self).fallback_origin() == old(self).fallback_origin(),
            new_weight == 0 ==> *final(self) == *old(self),
    {
        let now = elapsed_since(&self.started);
        self.update_weight_at(new_weight, now);
    }

    /// Weighs a request, with the clocks read as given.
    pub fn prepare_request_at(&mut self, weight: usize, clock: &DynamicReading) -> (r: (
        Option<TimeSpan>,
        Option<DynamicLimitReason>,
    ))
        requires
            old(self)@.ready(clock.now),
        ensures
            r == old(self)@.answer(weight as nat, *clock),
            final(self)@ == old(self)@.after_request(weight as nat, *clock),
            final(self).origin() == old(self).origin(),
            final(self).fallback_origin() == old(self).fallback_origin(),
            old(self)@.goes_by_header(clock.now) ==> *final(self) == *old(self),
            old(self)@.fallback.well_formed() ==> final(self)@.fallback.well_formed(),
    {
        let elapsed = clock.now.saturating_sub(&self.last_updated);
        if elapsed.nanos <= self.refill_rate.nanos && self.current_used_weight > 0 {
            self.prepare_with_header_data(weight, clock.wall)
        } else {
            self.prepare_with_fallback(weight, &clock.fallback)
        }
    }

    /// Weighs a request.
    pub fn prepare_request(&mut self, weight: usize) -> (r: (
        Option<TimeSpan>,
        Option<DynamicLimitReason>,
    ))
        requires
            old(self)@.fallback.well_formed(),
        ensures
            final(self)@.fallback.well_formed(),
            final(self).origin() == old(self).origin(),
            final(self).fallback_origin() == old(self).fallback_origin(),
            exists|clock: DynamicReading|
                {
                    &&& #[trigger] old(self)@.answer(weight as nat, clock) == r
                    &&& final(self)@ == old(self)@.after_request(weight as nat, clock)
                    &&& old(self)@.goes_by_header(clock.now) ==> *final(self) == *old(self)
                },
    {
        let now = elapsed_since(&self.started);
        let wall = wall_clock();
        let fallback = self.fallback_bucket.read_clocks();
        let clock = DynamicReading { now, wall, fallback };
        self.prepare_request_at(weight, &clock)
    }

    fn prepare_with_header_data(&self, weight: usize, wall: Option<TimeSpan>) -> (r: (
        Option<TimeSpan>,
        Option<DynamicLimitReason>,
    ))
        ensures
            r == if self@.header_grants(weight as nat) {
                (None, None)
            } else {
                (
                    Some(
                        (TimeSpan {
                            nanos: (self@.header_wait_ms(wall) * NANOS_PER_MILLI) as u128,
                        }),
                    ),
                    Some(DynamicLimitReason::HeaderRate),
                )
            },
    {
        let available = self.max_weight.saturating_sub(self.current_used_weight);
        if available >= weight {
            return (None, None);
        }
        let current_millis: u64 = match wall {
            Some(wall) => wall.as_millis(),
            None => 0,
        };
        let period_millis: u64 = self.refill_rate.as_millis();
        let millis_in_period: u64 = if period_millis > 0 {
            current_millis % period_millis
        } else {
            0
        };
        let remaining_millis: u64 = period_millis.saturating_sub(millis_in_period);
        let wait_time = TimeSpan::from_millis(remaining_millis.saturating_add(HEADER_MARGIN_MS));
        (Some(wait_time), Some(DynamicLimitReason::HeaderRate))
    }

    fn prepare_with_fallback(&mut self, weight: usize, clock: &ClockReading) -> (r: (
        Option<TimeSpan>,
        Option<DynamicLimitReason>,
    ))
        requires
            old(self)@.fallback.well_formed(),
        ensures
            r == match old(self)@.fallback.wait(weight as nat, *clock) {
                None => (None, None),
                Some(wait) => (Some(wait), Some(DynamicLimitReason::FixedWindowRate)),
            },
            final(self)@ == (DynamicState {
                fallback: old(self)@.fallback.after_request(weight as nat, *clock),
                ..old(self)@
            }),
            final(self)@.fallback.well_formed(),
            final(self).origin() == old(self).origin(),
            final(self).fallback_origin() == old(self).fallback_origin(),
    {
        match self.fallback_bucket.calculate_wait_time_at(weight, clock) {
            None => (None, None),
            Some(wait_time) => (Some(wait_time), Some(DynamicLimitReason::FixedWindowRate)),
        }
    }
}

#[verifier::external_type_specification]
#[verifier::external_body]
pub struct ExHeaderValue(HeaderValue);

#[verifier::external_type_specification]
#[verifier::external_body]
#[verifier::reject_recursive_types(T)]
pub struct ExHeaderMap<T>(HeaderMap<T>);

/// What `HeaderMap::get` finds in the headers of a response: by each text in lower case that
/// names a header, the bytes of the first value there.
pub uninterp spec fn header_values(headers: HeaderMap<HeaderValue>) -> Map<Seq<char>, Seq<u8>>;

/// The name that a header stands under: ASCII letters in lower case.
pub open spec fn header_name(name: Seq<char>) -> Seq<char> {
    name.map_values(|c: char| crate::text::ascii_lower(c))
}

/// `HeaderMap::get`, by a name in any case: the bytes of the first value under that
/// name, and none where there is no such header.
#[verifier::external_body]
fn header_value(headers: &HeaderMap<HeaderValue>, name: &str) -> (r: Option<Vec<u8>>)
    ensures
        match r {
            Some(value) => header_values(*headers).contains_key(header_name(name@))
                && header_values(*headers)[header_name(name@)] == value@,
            None => !header_values(*headers).contains_key(header_name(name@)),
        },
{
    match headers.get(name) {
        Some(value) => Some(value.as_bytes().to_vec()),
        None => None,
    }
}

/// What a limiter reads of a response.
pub struct ResponseInfo {
    pub status: u16,
    pub headers: HeaderMap<HeaderValue>,
}

pub open spec fn is_digit(b: u8) -> bool {
    48 <= b <= 57
}

/// The number that a run of decimal digits stands for.
pub open spec fn digits_value(digits: Seq<u8>) -> nat
    decreases digits.len(),
{
    if digits.len() == 0 {
        0
    } else {
        digits_value(digits.drop_last()) * 10 + (digits.last() - 48) as nat
    }
}

/// The digits of a number as it is written: a plus sign may stand before them.
pub open spec fn number_digits(text: Seq<u8>) -> Seq<u8> {
    if text.len() > 0 && text[0] == 43 {
        text.skip(1)
    } else {
        text
    }
}

/// The number that a text writes: one decimal digit at least, nothing but digits, and no
/// more than fits.
pub open spec fn written_number(text: Seq<u8>) -> Option<nat> {
    let digits = number_digits(text);
    if digits.len() > 0 && (forall|i: int| 0 <= i < digits.len() ==> #[trigger] is_digit(digits[i]))
        && digits_value(digits) <= usize::MAX {
        Some(digits_value(digits))
    } else {
        None
    }
}

proof fn lemma_digits_value_grows(digits: Seq<u8>, n: int)
    requires
        0 <= n <= digits.len(),
    ensures
        digits_value(digits.take(n)) <= digits_value(digits),
    decreases digits.len() - n,
{
    if n < digits.len() {
        let next = digits.take(n + 1);
        assert(next.drop_last() == digits.take(n));
        lemma_digits_value_grows(digits, n + 1);
    } else {
        assert(digits.take(n) == digits);
    }
}

/// Reads a number from text.
pub fn parse_number(text: &Vec<u8>) -> (r: Option<usize>)
    ensures
        match r {
            Some(n) => written_number(text@) == Some(n as nat),
            None => written_number(text@) is None,
        },
{
    let start: usize = if text.len() > 0 && text[0] == 43 {
        1
    } else {
        0
    };
    let ghost digits = number_digits(text@);
    if start == text.len() {
        return None;
    }
    let mut value: usize = 0;
    let mut i: usize = start;
    assert(digits.take(0) == Seq::<u8>::empty());
    while i < text.len()
        invariant
            start <= 1,
            start <= i <= text@.len(),
            digits == number_digits(text@),
            digits.len() == text@.len() - start,
            digits == text@.skip(start as int),
            value == digits_value(digits.take(i - start)),
            forall|k: int| 0 <= k < i - start ==> #[trigger] is_digit(digits[k]),
        decreases text@.len() - i,
    {
        let b = text[i];
        assert(digits[i - start] == b);
        if b < 48 || b > 57 {
            assert(!is_digit(digits[i - start]));
            return None;
        }
        let digit: usize = (b - 48) as usize;
        let ghost next = digits.take(i - start + 1);
        proof {
            assert(next.drop_last() == digits.take(i - start));
            assert(next.last() == b);
            lemma_digits_value_grows(digits, i - start + 1);
        }
        let tenfold = match value.checked_mul(10) {
            Some(tenfold) => tenfold,
            None => {
                return None;
            },
        };
        value = match tenfold.checked_add(digit) {
            Some(sum) => sum,
            None => {
                return None;
            },
        };
        i += 1;
    }
    assert(digits.take(digits.len() as int) == digits);
    Some(value)
}

/// Bytes that a header's value may hold to be read as text.
pub open spec fn is_visible(b: u8) -> bool {
    32 <= b < 127 || b == 9
}

/// The weight that a source reports in a header: a number, in visible characters.
pub open spec fn reported_weight(headers: HeaderMap<HeaderValue>, name: Seq<char>) -> Option<nat> {
    let values = header_values(headers);
    let key = header_name(name);
    if values.contains_key(key) {
        weight_in(values[key])
    } else {
        None
    }
}

pub open spec fn weight_in(value: Seq<u8>) -> Option<nat> {
    if forall|i: int| 0 <= i < value.len() ==> #[trigger] is_visible(value[i]) {
        written_number(value)
    } else {
        None
    }
}

/// Reads the weight that a header's value reports.
pub fn read_weight(value: &Vec<u8>) -> (r: Option<usize>)
    ensures
        match r {
            Some(n) => weight_in(value@) == Some(n as nat),
            None => weight_in(value@) is None,
        },
{
    let mut i: usize = 0;
    while i < value.len()
        invariant
            i <= value@.len(),
            forall|k: int| 0 <= k < i ==> #[trigger] is_visible(value@[k]),
        decreases value@.len() - i,
    {
        let b = value[i];
        if (b < 32 || b >= 127) && b != 9 {
            assert(!is_visible(value@[i as int]));
            return None;
        }
        i += 1;
    }
    parse_number(value)
}

/// A limit on requests that goes by their weight.
pub trait RateLimiter: Send + Sync {
    /// The limiter can weigh requests.
    spec fn ready(&self) -> bool;

    /// The limiter can take what a response says.
    spec fn takes_responses(&self) -> bool;

    /// Whether a status says that the limit was passed.
    spec fn exits_on(&self, status: u16) -> bool;

    /// Prepare for a request with given weight. Returns wait time if needed.
    fn prepare_request(&mut self, weight: usize) -> (r: Option<TimeSpan>)
        requires
            old(self).ready(),
        ensures
            final(self).ready(),
            final(self).takes_responses(),
            forall|status: u16| #[trigger]
                final(self).exits_on(status) == old(self).exits_on(status),
    ;

    /// Update the limiter with response data (e.g., rate limit headers).
    fn update_from_response(&mut self, response: &ResponseInfo, weight: usize)
        requires
            old(self).takes_responses(),
        ensures
            final(self).takes_responses(),
            final(self).ready() == old(self).ready(),
            forall|status: u16| #[trigger]
                final(self).exits_on(status) == old(self).exits_on(status),
    ;

    /// Check if response indicates rate limiting and should exit.
    fn should_exit_on_response(&self, response: &ResponseInfo) -> (r: bool)
        ensures
            r == self.exits_on(response.status),
    ;
}

/// The settings of a limiter for a fixed window rate. The share of the limit that is
/// kept free is a single-precision number.
#[derive(Debug, Clone, Copy, PartialEq, Eq, Structural)]
pub struct FixedWindowRateLimiterConfig {
    pub limit: usize,
    pub refill_rate: TimeSpan,
    pub limiter_buffer_pct: Bits32,
    pub exit_status: u16,
}

impl FixedWindowRateLimiterConfig {
    pub fn new(
        limit: usize,
        refill_rate: TimeSpan,
        limiter_buffer_pct: Bits32,
        exit_status: u16,
    ) -> (r: FixedWindowRateLimiterConfig)
        ensures
            r == (FixedWindowRateLimiterConfig {
                limit,
                refill_rate,
                limiter_buffer_pct,
                exit_status,
            }),
    {
        FixedWindowRateLimiterConfig { limit, refill_rate, limiter_buffer_pct, exit_status }
    }
}

pub struct FixedWindowRateLimiter {
    bucket: FixedWindowBucket,
    exit_status: u16,
}

impl FixedWindowRateLimiter {
    pub closed spec fn bucket_state(self) -> BucketState {
        self.bucket@
    }

    /// The moment that the steady clock of the bucket is counted from.
    pub closed spec fn origin(self) -> Instant {
        self.bucket.origin()
    }

    /// The limiter goes by the settings and has not been asked yet.
    pub open spec fn is_new(
        self,
        config: FixedWindowRateLimiterConfig,
        effective_limit: usize,
    ) -> bool {
        &&& self.bucket_state() == full_bucket(effective_limit as nat, config.refill_rate)
        &&& forall|status: u16| #[trigger] self.exits_on(status) == (status == config.exit_status)
        &&& self.ready() == (config.refill_rate.secs() >= 1)
    }

    /// A limiter with a full bucket. `effective_limit` is what the share that is kept
    /// free leaves of the limit.
    pub fn new(config: FixedWindowRateLimiterConfig, effective_limit: usize) -> (r:
        FixedWindowRateLimiter)
        ensures
            r.is_new(config, effective_limit),
    {
        FixedWindowRateLimiter {
            bucket: FixedWindowBucket::new(effective_limit, config.refill_rate),
            exit_status: config.exit_status,
        }
    }
}

impl RateLimiter for FixedWindowRateLimiter {
    open spec fn ready(&self) -> bool {
        self.bucket_state().well_formed()
    }

    /// What a response used up is taken out of the bucket.
    open spec fn takes_responses(&self) -> bool {
        self.bucket_state().well_formed()
    }

    closed spec fn exits_on(&self, status: u16) -> bool {
        status == self.exit_status
    }

    fn prepare_request(&mut self, weight: usize) -> (r: Option<TimeSpan>)
        ensures
            final(self).origin() == old(self).origin(),
            old(self).bucket_state().may_answer(weight as nat, r, final(self).bucket_state()),
    {
        self.bucket.calculate_wait_time(weight)
    }

    fn update_from_response(&mut self, _response: &ResponseInfo, weight: usize)
        ensures
            final(self).origin() == old(self).origin(),
            old(self).bucket_state().may_lose(weight as nat, final(self).bucket_state()),
    {
        self.bucket.consume_tokens(weight);
    }

    fn should_exit_on_response(&self, response: &ResponseInfo) -> (r: bool) {
        response.status == self.exit_status
    }
}

/// The settings of a limiter that goes by what its source reports.
#[derive(Debug, Clone, Copy)]
pub struct DynamicRateLimiterConfig {
    pub max_weight: usize,
    pub refill_rate: TimeSpan,
    pub limiter_buffer_pct: Bits32,
    pub used_weight_header: &'static str,
    pub exit_status: u16,
    pub extra_exit_status: Option<u16>,
}

impl DynamicRateLimiterConfig {
    pub fn new(
        max_weight: usize,
        refill_rate: TimeSpan,
        limiter_buffer_pct: Bits32,
        used_weight_header: &'static str,
        exit_status: u16,
        extra_exit_status: Option<u16>,
    ) -> (r: DynamicRateLimiterConfig)
        ensures
            r == (DynamicRateLimiterConfig {
                max_weight,
                refill_rate,
                limiter_buffer_pct,
                used_weight_header,
                exit_status,
                extra_exit_status,
            }),
    {
        DynamicRateLimiterConfig {
            max_weight,
            refill_rate,
            limiter_buffer_pct,
            used_weight_header,
            exit_status,
            extra_exit_status,
        }
    }
}

pub struct HeaderDynamicRateLimiter {
    bucket: DynamicBucket,
    used_weight_header: &'static str,
    exit_status: u16,
    extra_exit_status: Option<u16>,
}

impl HeaderDynamicRateLimiter {
    pub closed spec fn bucket_state(self) -> DynamicState {
        self.bucket@
    }

    /// The moment that the steady clock of the bucket is counted from.
    pub closed spec fn origin(self) -> Instant {
        self.bucket.origin()
    }

    /// The moment that the steady clock of the bucket that is fallen back on is counted from.
    pub closed spec fn fallback_origin(self) -> Instant {
        self.bucket.fallback_origin()
    }

    /// What a response reports leads to that limiter, at some reading of the clock.
    pub open spec fn hears(
        self,
        headers: HeaderMap<HeaderValue>,
        after: HeaderDynamicRateLimiter,
    ) -> bool {
        match reported_weight(headers, self.header()) {
            Some(weight) => {
                &&& self.bucket_state().may_become(weight, after.bucket_state())
                &&& weight == 0 ==> after == self
            },
            None => after == self,
        }
    }

    /// The header that the source reports in.
    pub closed spec fn header(self) -> Seq<char> {
        self.used_weight_header@
    }

    /// The limiter goes by the settings and has neither been asked nor told anything yet.
    pub open spec fn is_new(self, config: DynamicRateLimiterConfig, effective_limit: usize) -> bool {
        &&& self.bucket_state() == unreported(effective_limit as nat, config.refill_rate)
        &&& self.header() == config.used_weight_header@
        &&& forall|status: u16| #[trigger]
            self.exits_on(status) == (status == config.exit_status || config.extra_exit_status
                == Some(status))
        &&& self.ready() == (config.refill_rate.secs() >= 1)
    }

    /// A limiter that has heard nothing from its source. `effective_limit` is what the
    /// share that is kept free leaves of the limit.
    pub fn new(config: DynamicRateLimiterConfig, effective_limit: usize) -> (r:
        HeaderDynamicRateLimiter)
        ensures
            r.is_new(config, effective_limit),
    {
        HeaderDynamicRateLimiter {
            bucket: DynamicBucket::new(effective_limit, config.refill_rate),
            used_weight_header: config.used_weight_header,
            exit_status: config.exit_status,
            extra_exit_status: config.extra_exit_status,
        }
    }
}

impl RateLimiter for HeaderDynamicRateLimiter {
    open spec fn ready(&self) -> bool {
        self.bucket_state().fallback.well_formed()
    }

    /// What a response reports is kept, and the bucket stays as it is.
    open spec fn takes_responses(&self) -> bool {
        true
    }

    closed spec fn exits_on(&self, status: u16) -> bool {
        status == self.exit_status || self.extra_exit_status == Some(status)
    }

    fn prepare_request(&mut self, weight: usize) -> (r: Option<TimeSpan>)
        ensures
            final(self).header() == old(self).header(),
            final(self).origin() == old(self).origin(),
            final(self).fallback_origin() == old(self).fallback_origin(),
            exists|clock: DynamicReading|
                {
                    &&& #[trigger] old(self).bucket_state().answer(weight as nat, clock).0 == r
                    &&& final(self).bucket_state() == old(self).bucket_state().after_request(
                        weight as nat,
                        clock,
                    )
                    &&& old(self).bucket_state().goes_by_header(clock.now) ==> *final(self)
                        == *old(self)
                },
    {
        let (wait_time, _reason) = self.bucket.prepare_request(weight);
        wait_time
    }

    fn update_from_response(&mut self, response: &ResponseInfo, _weight: usize)
        ensures
            final(self).header() == old(self).header(),
            final(self).origin() == old(self).origin(),
            final(self).fallback_origin() == old(self).fallback_origin(),
            old(self).hears(response.headers, *final(self)),
    {
        if let Some(value) = header_value(&response.headers, self.used_weight_header) {
            if let Some(weight) = read_weight(&value) {
                self.bucket.update_weight(weight);
            }
        }
    }

    fn should_exit_on_response(&self, response: &ResponseInfo) -> (r: bool) {
        let extra = match self.extra_exit_status {
            Some(status) => status == response.status,
            None => false,
        };
        response.status == self.exit_status || extra
    }
}

/// What is done with a bucket, and the clocks as they stood then.
pub enum BucketCall {
    /// Tokens are asked for.
    Request { tokens: nat, clock: ClockReading },
    /// Tokens were used up elsewhere.
    Use { tokens: nat, clock: ClockReading },
}

impl BucketCall {
    pub open spec fn clock(self) -> ClockReading {
        match self {
            BucketCall::Request { clock, .. } => clock,
            BucketCall::Use { clock, .. } => clock,
        }
    }
}

impl BucketState {
    pub open spec fn after_call(self, call: BucketCall) -> BucketState {
        match call {
            BucketCall::Request { tokens, clock } => self.after_request(tokens, clock),
            BucketCall::Use { tokens, clock } => self.after_use(tokens, clock),
        }
    }

    /// The tokens that a call is granted.
    pub open spec fn granted_to(self, call: BucketCall) -> nat {
        match call {
            BucketCall::Request { tokens, clock } => if self.grants(tokens, clock) {
                tokens
            } else {
                0
            },
            BucketCall::Use { .. } => 0,
        }
    }

    /// The tokens that a call finds used up elsewhere, as far as there are any.
    pub open spec fn used_by(self, call: BucketCall) -> nat {
        match call {
            BucketCall::Request { .. } => 0,
            BucketCall::Use { tokens, clock } => if tokens <= self.refilled(
                clock,
            ).available_tokens {
                tokens
            } else {
                self.refilled(clock).available_tokens
            },
        }
    }
}

/// The bucket after a run of calls.
pub open spec fn after_calls(bucket: BucketState, calls: Seq<BucketCall>) -> BucketState
    decreases calls.len(),
{
    if calls.len() == 0 {
        bucket
    } else {
        after_calls(bucket, calls.drop_last()).after_call(calls.last())
    }
}

/// The tokens that were granted over a run of calls.
pub open spec fn granted(bucket: BucketState, calls: Seq<BucketCall>) -> nat
    decreases calls.len(),
{
    if calls.len() == 0 {
        0
    } else {
        granted(bucket, calls.drop_last()) + after_calls(bucket, calls.drop_last()).granted_to(
            calls.last(),
        )
    }
}

/// The tokens that were used up elsewhere over a run of calls.
pub open spec fn used_up(bucket: BucketState, calls: Seq<BucketCall>) -> nat
    decreases calls.len(),
{
    if calls.len() == 0 {
        0
    } else {
        used_up(bucket, calls.drop_last()) + after_calls(bucket, calls.drop_last()).used_by(
            calls.last(),
        )
    }
}

/// No call of a run comes when the bucket is filled again.
pub open spec fn within_one_window(bucket: BucketState, calls: Seq<BucketCall>) -> bool {
    forall|i: int|
        0 <= i < calls.len() ==> !after_calls(bucket, calls.take(i)).refills(
            (#[trigger] calls[i]).clock(),
        )
}

/// Between two refills no more tokens are granted than a bucket holds, less what was used up
/// elsewhere; and what was granted or used up is what was taken out.
pub proof fn law_grants_of_a_window_keep_to_the_limit(bucket: BucketState, calls: Seq<BucketCall>)
    requires
        bucket.well_formed(),
        within_one_window(bucket, calls),
    ensures
        after_calls(bucket, calls).well_formed(),
        granted(bucket, calls) + used_up(bucket, calls) + after_calls(
            bucket,
            calls,
        ).available_tokens == bucket.available_tokens,
        granted(bucket, calls) + used_up(bucket, calls) <= bucket.max_tokens,
    decreases calls.len(),
{
    if calls.len() > 0 {
        let rest = calls.drop_last();
        assert forall|i: int| 0 <= i < rest.len() implies !after_calls(
            bucket,
            rest.take(i),
        ).refills((#[trigger] rest[i]).clock()) by {
            assert(rest.take(i) == calls.take(i));
            assert(rest[i] == calls[i]);
        }
        law_grants_of_a_window_keep_to_the_limit(bucket, rest);
        let n = calls.len() - 1;
        assert(calls.take(n) == rest);
        assert(!after_calls(bucket, calls.take(n)).refills(calls[n].clock()));
    }
}

/// A request that waits as long as it was told is granted then, whatever others were granted
/// or used up in the rest of the window, provided that it asks for no more than a full bucket.
pub proof fn law_waiting_as_told_is_enough(
    bucket: BucketState,
    tokens: nat,
    told: ClockReading,
    others: Seq<BucketCall>,
    next: ClockReading,
)
    requires
        bucket.well_formed(),
        tokens <= bucket.max_tokens,
        bucket.wait(tokens, told) is Some,
        told.now.nanos <= told.later.nanos,
        bucket.last_refill.nanos <= told.now.nanos,
        within_one_window(bucket.after_request(tokens, told), others),
        next.wall is Some,
        next.now.nanos >= told.later.nanos + bucket.wait(tokens, told)->0.nanos,
    ensures
        after_calls(bucket.after_request(tokens, told), others).grants(tokens, next),
        after_calls(bucket.after_request(tokens, told), others).wait(tokens, next) is None,
{
    lemma_window_stays(bucket.after_request(tokens, told), others);
}

proof fn lemma_window_stays(bucket: BucketState, calls: Seq<BucketCall>)
    requires
        within_one_window(bucket, calls),
    ensures
        after_calls(bucket, calls).last_refill == bucket.last_refill,
        after_calls(bucket, calls).refill_rate == bucket.refill_rate,
        after_calls(bucket, calls).max_tokens == bucket.max_tokens,
    decreases calls.len(),
{
    if calls.len() > 0 {
        let rest = calls.drop_last();
        assert forall|i: int| 0 <= i < rest.len() implies !after_calls(
            bucket,
            rest.take(i),
        ).refills((#[trigger] rest[i]).clock()) by {
            assert(rest.take(i) == calls.take(i));
            assert(rest[i] == calls[i]);
        }
        lemma_window_stays(bucket, rest);
        let n = calls.len() - 1;
        assert(calls.take(n) == rest);
        assert(!after_calls(bucket, calls.take(n)).refills(calls[n].clock()));
    }
}

/// A bucket is its state and the moment that its clock is counted from: two that agree in
/// both are the same.
pub proof fn law_a_bucket_is_its_state_and_origin(a: FixedWindowBucket, b: FixedWindowBucket)
    ensures
        a@ == b@ && a.origin() == b.origin() <==> a == b,
{
}

/// A dynamic bucket is its state and the moments that its clock, and that of the bucket that
/// is fallen back on, are counted from.
pub proof fn law_a_dynamic_bucket_is_its_state_and_origins(a: DynamicBucket, b: DynamicBucket)
    ensures
        a@ == b@ && a.origin() == b.origin() && a.fallback_origin() == b.fallback_origin()
            <==> a == b,
{
    law_a_bucket_is_its_state_and_origin(a.fallback_bucket, b.fallback_bucket);
}

/// A wait is never longer than a window, and a request for more than a full bucket is
/// never granted.
pub proof fn law_waits_and_refusals_of_a_bucket(
    bucket: BucketState,
    tokens: nat,
    clock: ClockReading,
)
    requires
        bucket.well_formed(),
    ensures
        bucket.wait(tokens, clock) matches Some(wait) ==> wait.nanos <= bucket.refill_rate.nanos,
        tokens > bucket.max_tokens ==> !bucket.grants(tokens, clock),
        bucket.after_request(tokens, clock).well_formed(),
        bucket.after_use(tokens, clock).well_formed(),
        bucket.after_request(tokens, clock).max_tokens == bucket.max_tokens,
        bucket.after_use(tokens, clock).max_tokens == bucket.max_tokens,
{
}

/// A wait that goes by what the source said lasts the margin at least, and no longer than
/// a period and the margin.
pub proof fn law_header_wait_is_bounded(state: DynamicState, wall: Option<TimeSpan>)
    ensures
        HEADER_MARGIN_MS <= state.header_wait_ms(wall),
        state.header_wait_ms(wall) <= state.refill_rate.millis() + HEADER_MARGIN_MS,
{
    let period = state.refill_rate.millis();
    if period > 0 {
        let time = match wall {
            Some(wall) => wall.millis(),
            None => 0,
        };
        vstd::arithmetic::div_mod::lemma_mod_bound(time, period);
    }
}

/// A report of no weight changes nothing; any other stands until the next, and is gone by
/// for a window.
pub proof fn law_reports_are_kept(state: DynamicState, weight: nat, at: TimeSpan, now: TimeSpan)
    ensures
        state.after_update(0, at) == state,
        weight > 0 && now.nanos <= at.nanos + state.refill_rate.nanos ==> state.after_update(
            weight,
            at,
        ).goes_by_header(now),
        weight > 0 && now.nanos > at.nanos + state.refill_rate.nanos ==> !state.after_update(
            weight,
            at,
        ).goes_by_header(now),
        state.after_update(weight, at).fallback == state.fallback,
{
}

/// What is left of a limit under a report: nothing, where more than the limit is in use.
pub open spec fn left_of(max_weight: nat, used: nat) -> nat {
    if used <= max_weight {
        (max_weight - used) as nat
    } else {
        0
    }
}

/// While a report is in force, that is some use was reported no longer than a window ago, a
/// request goes out at once exactly if its weight is no more than what the report leaves, and
/// is held back by the header's rate otherwise; weighing it changes nothing. So what lets a
/// request through lets every lighter one through, and so does every report of less use. At
/// any other time the bucket that is fallen back on decides, by its own rate, and nothing but
/// that bucket changes.
pub proof fn law_a_report_lets_through_what_it_leaves(
    state: DynamicState,
    weight: nat,
    lighter: nat,
    less_used: nat,
    clock: DynamicReading,
)
    requires
        lighter <= weight,
        less_used <= state.current_used_weight,
    ensures
        ({
            let in_force = state.current_used_weight > 0 && clock.now.nanos
                <= state.last_updated.nanos + state.refill_rate.nanos;
            let answer = state.answer(weight, clock);
            let fits = weight <= left_of(state.max_weight, state.current_used_weight);
            &&& in_force ==> (answer == (None::<TimeSpan>, None::<DynamicLimitReason>) <==> fits)
            &&& in_force && !fits ==> answer.0 is Some && answer.1 == Some(
                DynamicLimitReason::HeaderRate,
            )
            &&& in_force ==> state.after_request(weight, clock) == state
            &&& in_force && answer.0 is None ==> state.answer(lighter, clock).0 is None
            &&& in_force && less_used > 0 && answer.0 is None ==> (DynamicState {
                current_used_weight: less_used,
                ..state
            }).answer(weight, clock).0 is None
            &&& !in_force ==> answer.0 == state.fallback.wait(weight, clock.fallback) && (answer.1
                == if answer.0 is Some {
                Some(DynamicLimitReason::FixedWindowRate)
            } else {
                None
            })
            &&& !in_force ==> state.after_request(weight, clock) == (DynamicState {
                fallback: state.fallback.after_request(weight, clock.fallback),
                ..state
            })
        }),
{
}

/// A request that a report holds back waits until the period of the wall clock is over, and a
/// twentieth of a second more: the wait ends that long after a multiple of the period, it is
/// longer than the margin, and no longer than a period and the margin.
pub proof fn law_a_held_back_request_waits_for_the_next_period(
    state: DynamicState,
    wall: TimeSpan,
)
    requires
        0 < state.refill_rate.nanos as int / 1_000_000 <= u64::MAX - 50,
        wall.nanos as int / 1_000_000 <= u64::MAX,
    ensures
        ({
            let period = state.refill_rate.nanos as int / 1_000_000;
            let time = wall.nanos as int / 1_000_000;
            let wait = state.header_wait_ms(Some(wall));
            &&& 50 < wait <= period + 50
            &&& (time + wait - 50) % period == 0
            &&& state.header_wait_ms(None) == period + 50
        }),
{
    let period = state.refill_rate.nanos as int / 1_000_000;
    let time = wall.nanos as int / 1_000_000;
    vstd::arithmetic::div_mod::lemma_small_mod(period as nat, MILLIS_MODULUS as nat);
    vstd::arithmetic::div_mod::lemma_small_mod(time as nat, MILLIS_MODULUS as nat);
    assert(state.refill_rate.millis() == period);
    assert(wall.millis() == time);
    vstd::arithmetic::div_mod::lemma_mod_bound(time, period);
    vstd::arithmetic::div_mod::lemma_fundamental_div_mod(time, period);
    let q = time / period;
    assert(time + (period - time % period) == (q + 1) * period) by (nonlinear_arith)
        requires
            time == period * q + time % period,
    ;
    vstd::arithmetic::div_mod::lemma_mod_multiples_basic(q + 1, period);
    vstd::arithmetic::div_mod::lemma_small_mod(0, period as nat);
}

/// The answer to a request that is held back gives that wait in nanoseconds.
pub proof fn law_a_held_back_request_is_told_its_wait(
    state: DynamicState,
    weight: nat,
    clock: DynamicReading,
)
    requires
        state.current_used_weight > 0,
        clock.now.nanos <= state.last_updated.nanos + state.refill_rate.nanos,
        weight > left_of(state.max_weight, state.current_used_weight),
    ensures
        state.answer(weight, clock).0 matches Some(wait) && wait.nanos == state.header_wait_ms(
            clock.wall,
        ) * 1_000_000,
{
    law_header_wait_is_bounded(state, clock.wall);
}

/// A bucket is filled up exactly when a window has passed since it was filled last, or the wall
/// clock is in the first second of a window; the wall clock must be readable. Filled up it
/// holds all it can, as of now. Else it stays as it is. Its size and its window never change.
pub proof fn law_a_bucket_fills_up_once_a_window(bucket: BucketState, clock: ClockReading)
    ensures
        ({
            let after = bucket.refilled(clock);
            let due = clock.wall matches Some(wall) && (clock.now.nanos >= bucket.last_refill.nanos
                + bucket.refill_rate.nanos || bucket.refill_rate.nanos == 0 || (wall.nanos as int
                / 1_000_000_000) % (bucket.refill_rate.nanos as int / 1_000_000_000) == 0);
            &&& due ==> after.available_tokens == bucket.max_tokens && after.last_refill
                == clock.now
            &&& !due ==> after == bucket
            &&& after.max_tokens == bucket.max_tokens
            &&& after.refill_rate == bucket.refill_rate
        }),
{
}

/// A request is granted exactly if the bucket, filled up where that is due, holds as many
/// tokens; then they are taken out, and else nothing is. What is granted would be granted to
/// every smaller request. A request that is not granted waits for the rest of the window.
/// Tokens used up elsewhere are taken out as far as there are any.
pub proof fn law_a_bucket_grants_what_it_holds(
    bucket: BucketState,
    tokens: nat,
    smaller: nat,
    clock: ClockReading,
)
    requires
        smaller <= tokens,
    ensures
        ({
            let full = bucket.refilled(clock);
            let after = bucket.after_request(tokens, clock);
            &&& bucket.wait(tokens, clock) is None <==> tokens <= full.available_tokens
            &&& tokens <= full.available_tokens ==> after.available_tokens + tokens
                == full.available_tokens
            &&& tokens > full.available_tokens ==> after == full
            &&& after.last_refill == full.last_refill && after.max_tokens == bucket.max_tokens
                && after.refill_rate == bucket.refill_rate
            &&& bucket.wait(tokens, clock) is None ==> bucket.wait(smaller, clock) is None
            &&& bucket.wait(tokens, clock) matches Some(wait) ==> {
                let end = full.last_refill.nanos + bucket.refill_rate.nanos;
                &&& full.last_refill.nanos <= clock.later.nanos <= end ==> clock.later.nanos
                    + wait.nanos == end
                &&& clock.later.nanos > end ==> wait.nanos == 0
            }
        }),
        ({
            let full = bucket.refilled(clock);
            let after = bucket.after_use(tokens, clock);
            &&& tokens <= full.available_tokens ==> after.available_tokens + tokens
                == full.available_tokens
            &&& tokens > full.available_tokens ==> after.available_tokens == 0
            &&& after.last_refill == full.last_refill && after.max_tokens == bucket.max_tokens
                && after.refill_rate == bucket.refill_rate
        }),
{
}

/// A report replaces the one before it, whatever that was, and is as of now.
pub proof fn law_a_report_replaces_the_last(
    state: DynamicState,
    weight: nat,
    at: TimeSpan,
    after: DynamicState,
)
    ensures
        weight > 0 ==> state.after_update(weight, at).current_used_weight == weight,
        weight > 0 ==> state.after_update(weight, at).last_updated == at,
        state.after_update(weight, at).max_weight == state.max_weight,
        state.after_update(weight, at).refill_rate == state.refill_rate,
        state.after_update(weight, at).fallback == state.fallback,
        state.may_become(weight, after) ==> (after.current_used_weight == if weight > 0 {
            weight
        } else {
            state.current_used_weight
        }) && after.max_weight == state.max_weight && after.refill_rate == state.refill_rate
            && after.fallback == state.fallback,
        state.may_become(0, after) ==> after == state,
{
}

/// Spans count whole seconds and whole milliseconds, and what is left of one after another is
/// what has to be added to the other, or nothing.
pub proof fn law_spans_of_time(a: TimeSpan, b: TimeSpan)
    ensures
        a.secs() * 1_000_000_000 <= a.nanos < (a.secs() + 1) * 1_000_000_000,
        a.nanos as int / 1_000_000 <= u64::MAX ==> a.millis() * 1_000_000 <= a.nanos < (a.millis()
            + 1) * 1_000_000,
        a.nanos >= b.nanos ==> a.minus(b).nanos + b.nanos == a.nanos,
        a.nanos < b.nanos ==> a.minus(b).nanos == 0,
{
    let n = a.nanos as int / 1_000_000;
    if n <= u64::MAX {
        vstd::arithmetic::div_mod::lemma_small_mod(n as nat, MILLIS_MODULUS as nat);
    }
}

/// How a number is written: a digit alone stands for itself, a further digit makes it ten times
/// as large and adds to it, a plus sign before the first digit changes nothing, and nothing
/// else, and no text without a digit, is a number. What does not fit is none either.
pub proof fn law_numbers_are_written_in_decimals(text: Seq<u8>, digit: u8)
    requires
        digit < 10,
    ensures
        written_number(Seq::<u8>::empty()) is None,
        written_number(seq![43u8]) is None,
        written_number(seq![(48 + digit) as u8]) == Some(digit as nat),
        written_number(text) matches Some(n) ==> written_number(text.push((48 + digit) as u8))
            == if n * 10 + digit <= usize::MAX {
            Some((n * 10 + digit) as nat)
        } else {
            None
        },
        text.len() > 0 && text[0] != 43 ==> written_number(seq![43u8] + text) == written_number(
            text,
        ),
        written_number(text) matches Some(n) ==> n <= usize::MAX && forall|i: int|
            0 <= i < text.len() ==> 48 <= #[trigger] text[i] <= 57 || (i == 0 && text[i] == 43),
{
    let d = (48 + digit) as u8;
    let one = seq![d];
    assert(one.drop_last() =~= Seq::<u8>::empty());
    assert(number_digits(one) == one);
    assert(digits_value(Seq::<u8>::empty()) == 0);
    assert(digits_value(one) == digit);
    assert(is_digit(one[0]));
    assert(number_digits(seq![43u8]) =~= Seq::<u8>::empty());
    if text.len() > 0 {
        let more = text.push(d);
        let digits = number_digits(text);
        assert(number_digits(more) =~= digits.push(d));
        assert(digits.push(d).drop_last() =~= digits);
        if written_number(text) is Some {
            assert forall|i: int| 0 <= i < digits.push(d).len() implies #[trigger] is_digit(
                digits.push(d)[i],
            ) by {
                if i < digits.len() {
                    assert(is_digit(digits[i]));
                }
            }
            assert forall|i: int| 0 <= i < text.len() implies 48 <= #[trigger] text[i] <= 57 || (i
                == 0 && text[i] == 43) by {
                if text[0] == 43 {
                    if i > 0 {
                        assert(is_digit(digits[i - 1]));
                    }
                } else {
                    assert(is_digit(digits[i]));
                }
            }
        }
        if text[0] != 43 {
            assert(number_digits(seq![43u8] + text) =~= text);
        }
    }
}

/// A header's value reports the number that it writes, and nothing where it writes none. Under
/// which case of letters the header is asked for makes no difference.
pub proof fn law_reports_are_what_the_header_writes(
    headers: HeaderMap<HeaderValue>,
    name: Seq<char>,
    other_case: Seq<char>,
    value: Seq<u8>,
)
    requires
        name.len() == other_case.len(),
        forall|i: int|
            0 <= i < name.len() ==> crate::text::ascii_lower(#[trigger] name[i])
                == crate::text::ascii_lower(other_case[i]),
    ensures
        weight_in(value) == written_number(value),
        reported_weight(headers, name) == reported_weight(headers, other_case),
        !header_values(headers).contains_key(header_name(name)) ==> reported_weight(headers, name)
            is None,
        header_values(headers).contains_key(header_name(name)) ==> reported_weight(headers, name)
            == written_number(header_values(headers)[header_name(name)]),
{
    assert(header_name(name) =~= header_name(other_case));
    lemma_weight_is_written(value);
    if header_values(headers).contains_key(header_name(name)) {
        lemma_weight_is_written(header_values(headers)[header_name(name)]);
    }
}

proof fn lemma_weight_is_written(value: Seq<u8>)
    ensures
        weight_in(value) == written_number(value),
{
    if written_number(value) is Some {
        law_numbers_are_written_in_decimals(value, 0);
        assert forall|i: int| 0 <= i < value.len() implies #[trigger] is_visible(value[i]) by {
            assert(48 <= value[i] <= 57 || value[i] == 43);
        }
    }
}

/// A new bucket grants up to all that it holds at once, and no more, whatever the clocks say; its
/// first window begins with its clock. A bucket that goes by reports does the same until one comes.
pub proof fn law_new_buckets_are_full(
    max: nat,
    refill_rate: TimeSpan,
    tokens: nat,
    clock: ClockReading,
    reading: DynamicReading,
)
    ensures
        full_bucket(max, refill_rate).wait(tokens, clock) is None <==> tokens <= max,
        full_bucket(max, refill_rate).refill_rate == refill_rate,
        tokens > max && refill_rate.nanos >= 1_000_000_000 && !full_bucket(
            max,
            refill_rate,
        ).refills(clock) ==> (full_bucket(max, refill_rate).wait(tokens, clock) matches Some(wait)
            && (clock.later.nanos <= refill_rate.nanos ==> clock.later.nanos + wait.nanos
            == refill_rate.nanos)),
        unreported(max, refill_rate).fallback == full_bucket(max, refill_rate),
        full_bucket(max, refill_rate).well_formed() <==> refill_rate.nanos >= 1_000_000_000,
        unreported(max, refill_rate).answer(tokens, reading).0 is None <==> tokens <= max,
        unreported(max, refill_rate).answer(tokens, reading).1 != Some(
            DynamicLimitReason::HeaderRate,
        ),
        unreported(max, refill_rate).max_weight == max,
        unreported(max, refill_rate).refill_rate == refill_rate,
{
}

/// A limiter for a fixed rate ends on the one status of its settings, and lets requests up to
/// its limit through at first.
pub proof fn law_new_fixed_limiters_go_by_their_settings(
    limiter: FixedWindowRateLimiter,
    config: FixedWindowRateLimiterConfig,
    effective_limit: usize,
    status: u16,
    weight: nat,
    clock: ClockReading,
)
    requires
        limiter.is_new(config, effective_limit),
    ensures
        limiter.exits_on(status) <==> status == config.exit_status,
        limiter.bucket_state().wait(weight, clock) is None <==> weight <= effective_limit,
        limiter.bucket_state().refill_rate == config.refill_rate,
        limiter.ready() <==> config.refill_rate.nanos >= 1_000_000_000,
{
}

/// A limiter that goes by reports ends on the status of its settings, and on a second one where
/// they name it; it listens to the header that they name, and lets requests up to its limit
/// through at first.
pub proof fn law_new_header_limiters_go_by_their_settings(
    limiter: HeaderDynamicRateLimiter,
    config: DynamicRateLimiterConfig,
    effective_limit: usize,
    status: u16,
    weight: nat,
    reading: DynamicReading,
)
    requires
        limiter.is_new(config, effective_limit),
    ensures
        limiter.exits_on(config.exit_status),
        config.extra_exit_status matches Some(extra) ==> limiter.exits_on(extra),
        limiter.exits_on(status) && status != config.exit_status ==> config.extra_exit_status
            == Some(status),
        limiter.header() == config.used_weight_header@,
        limiter.bucket_state().answer(weight, reading).0 is None <==> weight <= effective_limit,
        limiter.bucket_state().refill_rate == config.refill_rate,
        limiter.ready() <==> config.refill_rate.nanos >= 1_000_000_000,
{
}

/// Whatever the clocks say: a request that is let through takes its tokens out of what the
/// bucket held, or of a full bucket, and one that is not takes nothing; a wait is no longer
/// than a window. Tokens that were used up elsewhere are gone, or the bucket is empty.
pub proof fn law_tokens_are_taken_out(
    bucket: BucketState,
    tokens: nat,
    answer: Option<TimeSpan>,
    asked: BucketState,
    lost: BucketState,
)
    requires
        bucket.may_answer(tokens, answer, asked),
        bucket.may_lose(tokens, lost),
    ensures
        answer is None ==> asked.available_tokens + tokens == bucket.available_tokens
            || asked.available_tokens + tokens == bucket.max_tokens,
        answer matches Some(wait) ==> wait.nanos <= bucket.refill_rate.nanos && (
        asked.available_tokens == bucket.available_tokens || asked.available_tokens
            == bucket.max_tokens) && asked.available_tokens < tokens,
        asked.max_tokens == bucket.max_tokens && asked.refill_rate == bucket.refill_rate,
        lost.available_tokens == 0 || lost.available_tokens + tokens == bucket.available_tokens
            || lost.available_tokens + tokens == bucket.max_tokens,
        lost.available_tokens == 0 ==> tokens >= bucket.available_tokens || tokens
            >= bucket.max_tokens,
        lost.max_tokens == bucket.max_tokens && lost.refill_rate == bucket.refill_rate,
{
}

/// A limiter hears the weight that the response reports under its header, and only that: a
/// response without it, or with something else there, changes nothing.
pub proof fn law_limiters_hear_their_header(
    limiter: HeaderDynamicRateLimiter,
    headers: HeaderMap<HeaderValue>,
    after: HeaderDynamicRateLimiter,
)
    requires
        limiter.hears(headers, after),
    ensures
        !header_values(headers).contains_key(header_name(limiter.header())) ==> after == limiter,
        header_values(headers).contains_key(header_name(limiter.header())) ==> match written_number(
            header_values(headers)[header_name(limiter.header())],
        ) {
            Some(weight) => if weight > 0 {
                after.bucket_state().current_used_weight == weight
            } else {
                after == limiter
            },
            None => after == limiter,
        },
        after.bucket_state().fallback == limiter.bucket_state().fallback,
        after.bucket_state().max_weight == limiter.bucket_state().max_weight,
        after.bucket_state().refill_rate == limiter.bucket_state().refill_rate,
{
    if header_values(headers).contains_key(header_name(limiter.header())) {
        lemma_weight_is_written(header_values(headers)[header_name(limiter.header())]);
    }
}

} // verus!

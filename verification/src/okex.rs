//! OKX: requests, and what is read from its replies.
use crate::error::AdapterError;
use crate::json::{list_item, list_member, serde_from_str, text_member, value_member};
use crate::limiter::{FixedWindowRateLimiterConfig, TimeSpan};
use crate::listing::{
    has_market, Candle, DailyFigures, DailyVolume, Endpoint, ListRow, Listing, MinQty, PriceChange,
    RowOutcome, TickSize,
};
use crate::market::{Exchange, MarketKind};
use crate::text::{ends_with, is_text, push_decimal};
use crate::ticker::{Bits32, Bits64, Ticker, TickerInfo, TickerMap, UnixMs};
use crate::timeframe::Timeframe;
use serde_json::Value;
use vstd::prelude::*;

verus! {

pub const WS_DOMAIN: &'static str = "127.0.0.1";

pub const REST_API_BASE: &'static str = "http://127.0.0.1";

pub const LIMIT: usize = 20;

pub const REFILL_SECONDS: u64 = 2;

/// One twentieth, in single precision.
pub const LIMITER_BUFFER_BITS: u32 = 0x3D4C_CCCD;

/// The status of a request beyond the limit.
pub const TOO_MANY_REQUESTS: u16 = 429;

/// As many candles as one reply can hold.
pub const MAX_CANDLES: u64 = 300;

pub open spec fn exchange_of_market(market_type: MarketKind) -> Exchange {
    match market_type {
        MarketKind::Spot => Exchange::OkexSpot,
        MarketKind::LinearPerps => Exchange::OkexLinear,
        MarketKind::InversePerps => Exchange::OkexInverse,
    }
}

pub fn exchange_from_market_type(market_type: MarketKind) -> (r: Exchange)
    ensures
        r == exchange_of_market(market_type),
        r.venue_spec() == crate::market::Venue::Okex,
        r.market_spec() == market_type,
{
    match market_type {
        MarketKind::Spot => Exchange::OkexSpot,
        MarketKind::LinearPerps => Exchange::OkexLinear,
        MarketKind::InversePerps => Exchange::OkexInverse,
    }
}

/// What the quantities of a venue are counted in.
#[derive(Debug, Clone, Copy, PartialEq, Eq, Structural)]
pub enum RawQtyUnit {
    Base,
    Contracts,
}

pub open spec fn qty_unit_of(market: MarketKind) -> RawQtyUnit {
    if market == MarketKind::Spot {
        RawQtyUnit::Base
    } else {
        RawQtyUnit::Contracts
    }
}

pub fn raw_qty_unit_from_market_type(market: MarketKind) -> (r: RawQtyUnit)
    ensures
        r == qty_unit_of(market),
{
    match market {
        MarketKind::Spot => RawQtyUnit::Base,
        MarketKind::LinearPerps | MarketKind::InversePerps => RawQtyUnit::Contracts,
    }
}

/// The name of a candle interval at the venue.
pub open spec fn okx_bar(tf: Timeframe) -> Option<Seq<char>> {
    match tf {
        Timeframe::M1 => Some("1m"@),
        Timeframe::M3 => Some("3m"@),
        Timeframe::M5 => Some("5m"@),
        Timeframe::M15 => Some("15m"@),
        Timeframe::M30 => Some("30m"@),
        Timeframe::H1 => Some("1H"@),
        Timeframe::H2 => Some("2H"@),
        Timeframe::H4 => Some("4H"@),
        Timeframe::H12 => Some("12Hutc"@),
        Timeframe::D1 => Some("1Dutc"@),
        _ => None,
    }
}

/// The name of a candle interval at the venue.
pub fn timeframe_to_okx_bar(tf: Timeframe) -> (r: Option<&'static str>)
    ensures
        match r {
            Some(bar) => okx_bar(tf) == Some(bar@),
            None => okx_bar(tf) is None,
        },
{
    match tf {
        Timeframe::M1 => Some("1m"),
        Timeframe::M3 => Some("3m"),
        Timeframe::M5 => Some("5m"),
        Timeframe::M15 => Some("15m"),
        Timeframe::M30 => Some("30m"),
        Timeframe::H1 => Some("1H"),
        Timeframe::H2 => Some("2H"),
        Timeframe::H4 => Some("4H"),
        Timeframe::H12 => Some("12Hutc"),
        Timeframe::D1 => Some("1Dutc"),
        _ => None,
    }
}

/// The limit on requests. The share of it that is kept free is a single-precision number.
#[derive(Debug, Clone, Copy, PartialEq, Eq, Structural)]
pub struct OkexConfig {
    pub limit: usize,
    pub refill_rate: TimeSpan,
    pub limiter_buffer_pct: Bits32,
}

impl Default for OkexConfig {
    fn default() -> (r: OkexConfig)
        ensures
            r.is_default(),
    {
        OkexConfig {
            limit: LIMIT,
            refill_rate: TimeSpan::from_secs(REFILL_SECONDS),
            limiter_buffer_pct: Bits32(LIMITER_BUFFER_BITS),
        }
    }
}

impl OkexConfig {
    /// The limit that the venue names.
    pub open spec fn is_default(self) -> bool {
        &&& self.limit == LIMIT
        &&& self.refill_rate.nanos == 2_000_000_000
        &&& self.limiter_buffer_pct == Bits32(LIMITER_BUFFER_BITS)
    }

    pub open spec fn limiter_config_spec(self) -> FixedWindowRateLimiterConfig {
        FixedWindowRateLimiterConfig {
            limit: self.limit,
            refill_rate: self.refill_rate,
            limiter_buffer_pct: self.limiter_buffer_pct,
            exit_status: TOO_MANY_REQUESTS,
        }
    }

    pub fn limiter_config(self) -> (r: FixedWindowRateLimiterConfig)
        ensures
            r == self.limiter_config_spec(),
    {
        FixedWindowRateLimiterConfig::new(
            self.limit,
            self.refill_rate,
            self.limiter_buffer_pct,
            TOO_MANY_REQUESTS,
        )
    }
}

/// Reads a reply.
pub fn read_document(text: &str) -> (r: Result<Value, AdapterError>)
    ensures
        match r {
            Ok(document) => crate::json::serde_document(text@) == Ok::<_, Seq<char>>(
                crate::json::json(document),
            ),
            Err(e) => crate::json::serde_document(text@) matches Err(message) && e@
                == crate::error::AdapterErrorView::ParseError(message),
        },
{
    match serde_from_str(text) {
        Ok(document) => Ok(document),
        Err(message) => Err(AdapterError::ParseError(message)),
    }
}

/// The list of instruments, or of figures, in a reply.
pub fn instrument_list<'a>(document: &'a Value) -> (r: Result<&'a Vec<Value>, AdapterError>)
    ensures
        crate::json::is_list_of(
            r,
            crate::json::json(*document).member("data"@),
            "Result list is not an array"@,
        ),
{
    list_member(document, "data", "Result list is not an array")
}

/// The list of candles in a reply.
pub fn kline_list<'a>(document: &'a Value) -> (r: Result<&'a Vec<Value>, AdapterError>)
    ensures
        crate::json::is_list_of(
            r,
            crate::json::json(*document).member("data"@),
            "Kline result is not an array"@,
        ),
{
    list_member(document, "data", "Kline result is not an array")
}

/// The list of open interest in a reply.
pub fn open_interest_list<'a>(document: &'a Value) -> (r: Result<&'a Vec<Value>, AdapterError>)
    ensures
        crate::json::is_list_of(
            r,
            crate::json::json(*document).member("data"@),
            "Fetch result is not an array"@,
        ),
{
    list_member(document, "data", "Fetch result is not an array")
}

/// The type of instrument that an endpoint is asked for.
pub open spec fn instrument_type(endpoint: Endpoint) -> Seq<char> {
    match endpoint {
        Endpoint::Spot => "SPOT"@,
        Endpoint::Perps => "SWAP"@,
    }
}

fn push_instrument_type(url: &mut String, endpoint: Endpoint)
    ensures
        final(url)@ == old(url)@ + instrument_type(endpoint),
{
    match endpoint {
        Endpoint::Spot => url.append("SPOT"),
        Endpoint::Perps => url.append("SWAP"),
    }
}

/// Where the instruments are listed.
pub open spec fn instruments_address(endpoint: Endpoint) -> Seq<char> {
    REST_API_BASE@ + "/public/instruments?instType="@ + instrument_type(endpoint)
}

/// Where the instruments are listed.
pub fn instruments_url(endpoint: Endpoint) -> (r: String)
    ensures
        r@ == instruments_address(endpoint),
{
    let mut url = REST_API_BASE.to_string();
    url.append("/public/instruments?instType=");
    push_instrument_type(&mut url, endpoint);
    url
}

/// Where the figures of the day are.
pub open spec fn tickers_address(endpoint: Endpoint) -> Seq<char> {
    REST_API_BASE@ + "/market/tickers?instType="@ + instrument_type(endpoint)
}

/// Where the figures of the day are.
pub fn tickers_url(endpoint: Endpoint) -> (r: String)
    ensures
        r@ == tickers_address(endpoint),
{
    let mut url = REST_API_BASE.to_string();
    url.append("/market/tickers?instType=");
    push_instrument_type(&mut url, endpoint);
    url
}

/// As many candles as a range holds, one at least, and no more than a reply can hold.
pub open spec fn kline_limit_spec(timeframe: Timeframe, range: Option<(UnixMs, UnixMs)>) -> int {
    match range {
        Some((start, end)) => {
            let n = (end.0 - start.0) / timeframe.milliseconds() as int;
            if n < 1 {
                1
            } else if n > MAX_CANDLES {
                MAX_CANDLES as int
            } else {
                n
            }
        },
        None => MAX_CANDLES as int,
    }
}

/// As many candles as a range holds, one at least, and no more than a reply can hold.
pub fn kline_limit(timeframe: Timeframe, range: Option<(UnixMs, UnixMs)>) -> (r: u64)
    requires
        range matches Some((start, end)) ==> start.0 <= end.0,
    ensures
        r == kline_limit_spec(timeframe, range),
        1 <= r <= MAX_CANDLES,
{
    match range {
        Some((start, end)) => {
            let n: u64 = (end.0 - start.0) / timeframe.to_milliseconds();
            if n < 1 {
                1
            } else if n > MAX_CANDLES {
                MAX_CANDLES
            } else {
                n
            }
        },
        None => MAX_CANDLES,
    }
}

pub open spec fn klines_url_spec(
    symbol: Seq<char>,
    bar: Seq<char>,
    limit: int,
    range: Option<(UnixMs, UnixMs)>,
) -> Seq<char> {
    let url = REST_API_BASE@ + "/market/history-candles?instId="@ + symbol + "&bar="@ + bar
        + "&limit="@ + crate::text::decimal(limit as nat);
    match range {
        Some((start, end)) => url + "&before="@ + crate::text::decimal(start.0 as nat) + "&after="@
            + crate::text::decimal(end.0 as nat),
        None => url,
    }
}

fn unsupported(timeframe: Timeframe) -> (r: AdapterError)
    ensures
        r@ == crate::error::AdapterErrorView::InvalidRequest(
            "Unsupported timeframe: "@ + timeframe.label_spec(),
        ),
{
    let mut message = "Unsupported timeframe: ".to_string();
    message.append(timeframe.label());
    AdapterError::InvalidRequest(message)
}

/// Where candles are; an error for an interval that the venue does not have.
pub fn klines_url(
    ticker_info: &TickerInfo,
    timeframe: Timeframe,
    range: Option<(UnixMs, UnixMs)>,
) -> (r: Result<String, AdapterError>)
    requires
        range matches Some((start, end)) ==> start.0 <= end.0,
    ensures
        match r {
            Ok(url) => okx_bar(timeframe) matches Some(bar) && url@ == klines_url_spec(
                ticker_info@.ticker.symbol,
                bar,
                kline_limit_spec(timeframe, range),
                range,
            ),
            Err(e) => okx_bar(timeframe) is None && e@
                == crate::error::AdapterErrorView::InvalidRequest(
                "Unsupported timeframe: "@ + timeframe.label_spec(),
            ),
        },
{
    let (symbol, _market_type) = ticker_info.ticker.to_full_symbol_and_type();
    let bar = match timeframe_to_okx_bar(timeframe) {
        Some(bar) => bar,
        None => {
            return Err(unsupported(timeframe));
        },
    };
    let mut url = REST_API_BASE.to_string();
    url.append("/market/history-candles?instId=");
    url.append(symbol.as_str());
    url.append("&bar=");
    url.append(bar);
    url.append("&limit=");
    push_decimal(&mut url, kline_limit(timeframe, range));
    if let Some((start, end)) = range {
        url.append("&before=");
        push_decimal(&mut url, start.0);
        url.append("&after=");
        push_decimal(&mut url, end.0);
    }
    Ok(url)
}

pub open spec fn open_interest_url_spec(
    symbol: Seq<char>,
    bar: Seq<char>,
    range: Option<(UnixMs, UnixMs)>,
) -> Seq<char> {
    let url = REST_API_BASE@ + "/rubik/stat/contracts/open-interest-history?instId="@ + symbol
        + "&period="@ + bar;
    match range {
        Some((start, end)) => url + "&begin="@ + crate::text::decimal(start.0 as nat) + "&end="@
            + crate::text::decimal(end.0 as nat),
        None => url,
    }
}

/// Where open interest is; an error for an interval that the venue does not have.
pub fn open_interest_url(
    ticker_info: &TickerInfo,
    range: Option<(UnixMs, UnixMs)>,
    period: Timeframe,
) -> (r: Result<String, AdapterError>)
    ensures
        match r {
            Ok(url) => okx_bar(period) matches Some(bar) && url@ == open_interest_url_spec(
                ticker_info@.ticker.symbol,
                bar,
                range,
            ),
            Err(e) => okx_bar(period) is None && e@
                == crate::error::AdapterErrorView::InvalidRequest(
                "Unsupported timeframe: "@ + period.label_spec(),
            ),
        },
{
    let (symbol, _market) = ticker_info.ticker.to_full_symbol_and_type();
    let bar = match timeframe_to_okx_bar(period) {
        Some(bar) => bar,
        None => {
            return Err(unsupported(period));
        },
    };
    let mut url = REST_API_BASE.to_string();
    url.append("/rubik/stat/contracts/open-interest-history?instId=");
    url.append(symbol.as_str());
    url.append("&period=");
    url.append(bar);
    if let Some((start, end)) = range {
        url.append("&begin=");
        push_decimal(&mut url, start.0);
        url.append("&end=");
        push_decimal(&mut url, end.0);
    }
    Ok(url)
}

/// The tickers of the venue: none are listed at present.
pub fn fetch_ticker_metadata(_markets: &Vec<MarketKind>) -> (r: TickerMap<Option<Listing>>)
    ensures
        r.well_formed(),
        r@ == Map::<crate::ticker::TickerView, Option<Listing>>::empty(),
{
    TickerMap::new()
}

/// The figures of the day: none are given at present.
pub fn fetch_ticker_stats(_markets: &Vec<MarketKind>) -> (r: TickerMap<DailyFigures>)
    ensures
        r.well_formed(),
        r@ == Map::<crate::ticker::TickerView, DailyFigures>::empty(),
{
    TickerMap::new()
}

/// The sizes of a ticker, where its price step and its smallest quantity could be read.
pub open spec fn listing_of(
    tick_size: Option<Bits32>,
    lot_size: Option<Bits32>,
    contract_size: Option<Bits32>,
) -> Option<Listing> {
    match (tick_size, lot_size) {
        (Some(tick), Some(lot)) => Some(
            Listing {
                min_ticksize: TickSize::Value(tick),
                min_qty: MinQty::Value(lot),
                contract_size,
            },
        ),
        _ => None,
    }
}

fn read_listing(
    tick_size: Option<Bits32>,
    lot_size: Option<Bits32>,
    contract_size: Option<Bits32>,
) -> (r: Option<Listing>)
    ensures
        r == listing_of(tick_size, lot_size, contract_size),
{
    match (tick_size, lot_size) {
        (Some(tick), Some(lot)) => Some(
            Listing {
                min_ticksize: TickSize::Value(tick),
                min_qty: MinQty::Value(lot),
                contract_size,
            },
        ),
        _ => None,
    }
}

/// A spot instrument as the venue lists it.
pub struct SpotInstrument {
    pub inst_id: Option<String>,
    pub state: Option<String>,
    pub quote_ccy: Option<String>,
    pub tick_size: Option<Bits32>,
    pub lot_size: Option<Bits32>,
}

/// The members that the sizes of a spot instrument are read from.
pub struct SpotInstrumentMembers<'a> {
    pub tick_size: &'a Value,
    pub lot_size: &'a Value,
}

impl<'a> SpotInstrumentMembers<'a> {
    /// The members are those that the item has under the keys.
    pub open spec fn are_of(self, item: crate::json::JsonView) -> bool {
        &&& crate::json::json(*self.tick_size) == item.member("tickSz"@)
        &&& crate::json::json(*self.lot_size) == item.member("lotSz"@)
    }
}

impl SpotInstrument {
    /// The members of an item that the numbers are read from.
    pub fn members<'a>(item: &'a Value) -> (r: SpotInstrumentMembers<'a>)
        ensures
            r.are_of(crate::json::json(*item)),
    {
        SpotInstrumentMembers {
            tick_size: value_member(item, "tickSz"),
            lot_size: value_member(item, "lotSz"),
        }
    }

    /// Reads an item of the list. The sizes are handed in as single-precision numbers.
        /// The row holds what the item has under the keys, and the numbers that go with it.
    pub open spec fn is_read(
        self,
        item: crate::json::JsonView,
        tick_size: Option<Bits32>,
        lot_size: Option<Bits32>,
    ) -> bool {
        &&& crate::text::text_view(self.inst_id) == item.member("instId"@).as_text()
        &&& crate::text::text_view(self.state) == item.member("state"@).as_text()
        &&& crate::text::text_view(self.quote_ccy) == item.member("quoteCcy"@).as_text()
        &&& self.tick_size == tick_size
        &&& self.lot_size == lot_size
    }

pub fn from_value(item: &Value, tick_size: Option<Bits32>, lot_size: Option<Bits32>) -> (r:
        SpotInstrument)
        ensures
            r.is_read(crate::json::json(*item), tick_size, lot_size),
    {
        SpotInstrument {
            inst_id: text_member(item, "instId"),
            state: text_member(item, "state"),
            quote_ccy: text_member(item, "quoteCcy"),
            tick_size,
            lot_size,
        }
    }
}

impl ListRow for SpotInstrument {
    type Figure = Option<Listing>;

    type Scope = Vec<MarketKind>;

    open spec fn ready(scope: Vec<MarketKind>) -> bool {
        true
    }

    /// A live pair against a dollar coin is listed, without sizes where they cannot be read.
    open spec fn outcome(&self, scope: Vec<MarketKind>) -> crate::listing::RowOutcomeView<
        Option<Listing>,
    > {
        match crate::text::text_view(self.inst_id) {
            Some(symbol) => {
                let quote = crate::text::text_view(self.quote_ccy);
                let ticker = crate::ticker::TickerView { symbol, exchange: Exchange::OkexSpot };
                if crate::text::text_view(self.state) != Some("live"@) || (quote != Some("USDT"@)
                    && quote != Some("USDC"@)) {
                    crate::listing::RowOutcomeView::Skip
                } else if !Exchange::symbol_supported(symbol) {
                    crate::listing::RowOutcomeView::Unsupported(ticker)
                } else {
                    crate::listing::RowOutcomeView::Keep(
                        ticker,
                        listing_of(self.tick_size, self.lot_size, None),
                    )
                }
            },
            None => crate::listing::RowOutcomeView::Skip,
        }
    }

    fn read(&self, scope: &Vec<MarketKind>) -> (r: RowOutcome<Option<Listing>>) {
        let exchange = Exchange::OkexSpot;
        let symbol = match &self.inst_id {
            Some(symbol) => symbol.as_str(),
            None => {
                return RowOutcome::Skip;
            },
        };
        if !is_text(&self.state, "live") {
            return RowOutcome::Skip;
        }
        if !is_text(&self.quote_ccy, "USDT") && !is_text(&self.quote_ccy, "USDC") {
            return RowOutcome::Skip;
        }
        if !exchange.is_symbol_supported(symbol) {
            return RowOutcome::Unsupported(Ticker::new(symbol, exchange));
        }
        RowOutcome::Keep(
            Ticker::new(symbol, exchange),
            read_listing(self.tick_size, self.lot_size, None),
        )
    }
}

/// A perpetual as the venue lists it.
pub struct PerpsInstrument {
    pub inst_id: Option<String>,
    pub state: Option<String>,
    pub ct_type: Option<String>,
    pub settle_ccy: Option<String>,
    pub tick_size: Option<Bits32>,
    pub lot_size: Option<Bits32>,
    pub contract_size: Option<Bits32>,
}

/// The members that the sizes of a perpetual are read from.
pub struct PerpsInstrumentMembers<'a> {
    pub tick_size: &'a Value,
    pub lot_size: &'a Value,
    pub contract_size: &'a Value,
}

impl<'a> PerpsInstrumentMembers<'a> {
    /// The members are those that the item has under the keys.
    pub open spec fn are_of(self, item: crate::json::JsonView) -> bool {
        &&& crate::json::json(*self.tick_size) == item.member("tickSz"@)
        &&& crate::json::json(*self.lot_size) == item.member("lotSz"@)
        &&& crate::json::json(*self.contract_size) == item.member("ctVal"@)
    }
}

impl PerpsInstrument {
    /// The members of an item that the numbers are read from.
    pub fn members<'a>(item: &'a Value) -> (r: PerpsInstrumentMembers<'a>)
        ensures
            r.are_of(crate::json::json(*item)),
    {
        PerpsInstrumentMembers {
            tick_size: value_member(item, "tickSz"),
            lot_size: value_member(item, "lotSz"),
            contract_size: value_member(item, "ctVal"),
        }
    }

    /// Reads an item of the list. The sizes are handed in as single-precision numbers.
        /// The row holds what the item has under the keys, and the numbers that go with it.
    pub open spec fn is_read(
        self,
        item: crate::json::JsonView,
        tick_size: Option<Bits32>,
        lot_size: Option<Bits32>,
        contract_size: Option<Bits32>,
    ) -> bool {
        &&& crate::text::text_view(self.inst_id) == item.member("instId"@).as_text()
        &&& crate::text::text_view(self.state) == item.member("state"@).as_text()
        &&& crate::text::text_view(self.ct_type) == item.member("ctType"@).as_text()
        &&& crate::text::text_view(self.settle_ccy) == item.member("settleCcy"@).as_text()
        &&& self.tick_size == tick_size
        &&& self.lot_size == lot_size
        &&& self.contract_size == contract_size
    }

pub fn from_value(
        item: &Value,
        tick_size: Option<Bits32>,
        lot_size: Option<Bits32>,
        contract_size: Option<Bits32>,
    ) -> (r: PerpsInstrument)
        ensures
            r.is_read(crate::json::json(*item), tick_size, lot_size, contract_size),
    {
        PerpsInstrument {
            inst_id: text_member(item, "instId"),
            state: text_member(item, "state"),
            ct_type: text_member(item, "ctType"),
            settle_ccy: text_member(item, "settleCcy"),
            tick_size,
            lot_size,
            contract_size,
        }
    }

    /// The market of a contract: linear where it settles in USDT, or inverse.
    pub open spec fn market(self) -> Option<MarketKind> {
        let ct_type = crate::text::text_view(self.ct_type);
        if ct_type == Some("linear"@) {
            if crate::text::text_view(self.settle_ccy) == Some("USDT"@) {
                Some(MarketKind::LinearPerps)
            } else {
                None
            }
        } else if ct_type == Some("inverse"@) {
            Some(MarketKind::InversePerps)
        } else {
            None
        }
    }

    fn read_market(&self) -> (r: Option<MarketKind>)
        ensures
            r == self.market(),
    {
        if is_text(&self.ct_type, "linear") {
            if is_text(&self.settle_ccy, "USDT") {
                Some(MarketKind::LinearPerps)
            } else {
                None
            }
        } else if is_text(&self.ct_type, "inverse") {
            Some(MarketKind::InversePerps)
        } else {
            None
        }
    }
}

impl ListRow for PerpsInstrument {
    type Figure = Option<Listing>;

    type Scope = Vec<MarketKind>;

    open spec fn ready(scope: Vec<MarketKind>) -> bool {
        true
    }

    /// A live contract of a market that is asked for is listed, without sizes where they
    /// cannot be read.
    open spec fn outcome(&self, scope: Vec<MarketKind>) -> crate::listing::RowOutcomeView<
        Option<Listing>,
    > {
        match (crate::text::text_view(self.inst_id), self.market()) {
            (Some(symbol), Some(market)) => {
                let ticker = crate::ticker::TickerView {
                    symbol,
                    exchange: exchange_of_market(market),
                };
                if crate::text::text_view(self.state) != Some("live"@) || !scope@.contains(
                    market,
                ) {
                    crate::listing::RowOutcomeView::Skip
                } else if !Exchange::symbol_supported(symbol) {
                    crate::listing::RowOutcomeView::Unsupported(ticker)
                } else {
                    crate::listing::RowOutcomeView::Keep(
                        ticker,
                        listing_of(self.tick_size, self.lot_size, self.contract_size),
                    )
                }
            },
            _ => crate::listing::RowOutcomeView::Skip,
        }
    }

    fn read(&self, scope: &Vec<MarketKind>) -> (r: RowOutcome<Option<Listing>>) {
        let symbol = match &self.inst_id {
            Some(symbol) => symbol.as_str(),
            None => {
                return RowOutcome::Skip;
            },
        };
        if !is_text(&self.state, "live") {
            return RowOutcome::Skip;
        }
        let market_kind = match self.read_market() {
            Some(market_kind) => market_kind,
            None => {
                return RowOutcome::Skip;
            },
        };
        if !has_market(scope, market_kind) {
            return RowOutcome::Skip;
        }
        let exchange = exchange_from_market_type(market_kind);
        if !exchange.is_symbol_supported(symbol) {
            return RowOutcome::Unsupported(Ticker::new(symbol, exchange));
        }
        RowOutcome::Keep(
            Ticker::new(symbol, exchange),
            read_listing(self.tick_size, self.lot_size, self.contract_size),
        )
    }
}

/// Whether an instrument is listed does not depend on its sizes: where they cannot be read it
/// is still listed, without them.
pub proof fn law_unreadable_sizes_leave_tickers_listed(
    spot: SpotInstrument,
    perps: PerpsInstrument,
    scope: Vec<MarketKind>,
    ticker: crate::ticker::TickerView,
)
    ensures
        ({
            let bare = SpotInstrument { tick_size: None, lot_size: None, ..spot };
            &&& spot.outcome(scope).keeps(ticker) <==> bare.outcome(scope).keeps(ticker)
            &&& bare.outcome(scope) matches crate::listing::RowOutcomeView::Keep(_, listing)
                ==> listing is None
            &&& !(spot.outcome(scope) is Fail)
        }),
        ({
            let bare = PerpsInstrument { tick_size: None, lot_size: None, ..perps };
            &&& perps.outcome(scope).keeps(ticker) <==> bare.outcome(scope).keeps(ticker)
            &&& bare.outcome(scope) matches crate::listing::RowOutcomeView::Keep(_, listing)
                ==> listing is None
            &&& !(perps.outcome(scope) is Fail)
        }),
{
}

/// The figures of a spot pair as the venue gives them.
pub struct SpotFigures {
    pub inst_id: Option<String>,
    pub last: Option<Bits64>,
    pub open_24h: Option<Bits64>,
    pub volume_24h: Option<Bits64>,
}

/// The members that the figures of a day are read from.
pub struct FigureMembers<'a> {
    pub last: &'a Value,
    pub open_24h: &'a Value,
    pub volume_24h: &'a Value,
}

impl<'a> FigureMembers<'a> {
    /// The members are those that the item has under the keys.
    pub open spec fn are_of(self, item: crate::json::JsonView) -> bool {
        &&& crate::json::json(*self.last) == item.member("last"@)
        &&& crate::json::json(*self.open_24h) == item.member("open24h"@)
        &&& crate::json::json(*self.volume_24h) == item.member("volCcy24h"@)
    }
}

impl SpotFigures {
    /// The members of an item that the numbers are read from.
    pub fn members<'a>(item: &'a Value) -> (r: FigureMembers<'a>)
        ensures
            r.are_of(crate::json::json(*item)),
    {
        FigureMembers {
            last: value_member(item, "last"),
            open_24h: value_member(item, "open24h"),
            volume_24h: value_member(item, "volCcy24h"),
        }
    }

    /// Reads an item of the list. The numbers are handed in in double precision.
        /// The row holds what the item has under the keys, and the numbers that go with it.
    pub open spec fn is_read(
        self,
        item: crate::json::JsonView,
        last: Option<Bits64>,
        open_24h: Option<Bits64>,
        volume_24h: Option<Bits64>,
    ) -> bool {
        &&& crate::text::text_view(self.inst_id) == item.member("instId"@).as_text()
        &&& self.last == last
        &&& self.open_24h == open_24h
        &&& self.volume_24h == volume_24h
    }

pub fn from_value(
        item: &Value,
        last: Option<Bits64>,
        open_24h: Option<Bits64>,
        volume_24h: Option<Bits64>,
    ) -> (r: SpotFigures)
        ensures
            r.is_read(crate::json::json(*item), last, open_24h, volume_24h),
    {
        SpotFigures { inst_id: text_member(item, "instId"), last, open_24h, volume_24h }
    }
}

impl ListRow for SpotFigures {
    type Figure = DailyFigures;

    type Scope = Vec<MarketKind>;

    open spec fn ready(scope: Vec<MarketKind>) -> bool {
        true
    }

    /// A pair with all three numbers is listed. Its volume is in the quote currency.
    open spec fn outcome(&self, scope: Vec<MarketKind>) -> crate::listing::RowOutcomeView<
        DailyFigures,
    > {
        match (crate::text::text_view(self.inst_id), self.last, self.open_24h, self.volume_24h) {
            (Some(symbol), Some(last_price), Some(open), Some(volume)) =>
                if Exchange::symbol_supported(symbol) {
                crate::listing::RowOutcomeView::Keep(
                    crate::ticker::TickerView { symbol, exchange: Exchange::OkexSpot },
                    DailyFigures {
                        last_price,
                        price_change: PriceChange::SinceOpen(open),
                        volume: DailyVolume::Quote(volume),
                    },
                )
            } else {
                crate::listing::RowOutcomeView::Skip
            },
            _ => crate::listing::RowOutcomeView::Skip,
        }
    }

    fn read(&self, scope: &Vec<MarketKind>) -> (r: RowOutcome<DailyFigures>) {
        let exchange = Exchange::OkexSpot;
        let symbol = match &self.inst_id {
            Some(symbol) => symbol.as_str(),
            None => {
                return RowOutcome::Skip;
            },
        };
        if !exchange.is_symbol_supported(symbol) {
            return RowOutcome::Skip;
        }
        match (self.last, self.open_24h, self.volume_24h) {
            (Some(last_price), Some(open), Some(volume)) => RowOutcome::Keep(
                Ticker::new(symbol, exchange),
                DailyFigures {
                    last_price,
                    price_change: PriceChange::SinceOpen(open),
                    volume: DailyVolume::Quote(volume),
                },
            ),
            _ => RowOutcome::Skip,
        }
    }
}

/// The market that a contract's symbol names.
pub open spec fn market_of_symbol(symbol: Seq<char>) -> Option<MarketKind> {
    if crate::text::has_suffix(symbol, "-USDT-SWAP"@) {
        Some(MarketKind::LinearPerps)
    } else if crate::text::has_suffix(symbol, "-USD-SWAP"@) {
        Some(MarketKind::InversePerps)
    } else {
        None
    }
}

/// The market that a contract's symbol names.
pub fn market_from_symbol(symbol: &str) -> (r: Option<MarketKind>)
    ensures
        r == market_of_symbol(symbol@),
{
    if ends_with(symbol, "-USDT-SWAP") {
        Some(MarketKind::LinearPerps)
    } else if ends_with(symbol, "-USD-SWAP") {
        Some(MarketKind::InversePerps)
    } else {
        None
    }
}

/// The figures of a perpetual as the venue gives them.
pub struct PerpsFigures {
    pub inst_id: Option<String>,
    pub last: Option<Bits64>,
    pub open_24h: Option<Bits64>,
    pub volume_24h: Option<Bits64>,
}

impl PerpsFigures {
    /// The members of an item that the numbers are read from.
    pub fn members<'a>(item: &'a Value) -> (r: FigureMembers<'a>)
        ensures
            r.are_of(crate::json::json(*item)),
    {
        FigureMembers {
            last: value_member(item, "last"),
            open_24h: value_member(item, "open24h"),
            volume_24h: value_member(item, "volCcy24h"),
        }
    }

    /// Reads an item of the list. The numbers are handed in in double precision.
        /// The row holds what the item has under the keys, and the numbers that go with it.
    pub open spec fn is_read(
        self,
        item: crate::json::JsonView,
        last: Option<Bits64>,
        open_24h: Option<Bits64>,
        volume_24h: Option<Bits64>,
    ) -> bool {
        &&& crate::text::text_view(self.inst_id) == item.member("instId"@).as_text()
        &&& self.last == last
        &&& self.open_24h == open_24h
        &&& self.volume_24h == volume_24h
    }

pub fn from_value(
        item: &Value,
        last: Option<Bits64>,
        open_24h: Option<Bits64>,
        volume_24h: Option<Bits64>,
    ) -> (r: PerpsFigures)
        ensures
            r.is_read(crate::json::json(*item), last, open_24h, volume_24h),
    {
        PerpsFigures { inst_id: text_member(item, "instId"), last, open_24h, volume_24h }
    }
}

impl ListRow for PerpsFigures {
    type Figure = DailyFigures;

    type Scope = Vec<MarketKind>;

    open spec fn ready(scope: Vec<MarketKind>) -> bool {
        true
    }

    /// A contract of a market that is asked for is listed, where it has all three numbers.
    /// Its volume is in the base currency.
    open spec fn outcome(&self, scope: Vec<MarketKind>) -> crate::listing::RowOutcomeView<
        DailyFigures,
    > {
        match (crate::text::text_view(self.inst_id), self.last, self.open_24h, self.volume_24h) {
            (Some(symbol), Some(last_price), Some(open), Some(volume)) => match market_of_symbol(
                symbol,
            ) {
                Some(market) => if scope@.contains(market) && Exchange::symbol_supported(symbol) {
                    crate::listing::RowOutcomeView::Keep(
                        crate::ticker::TickerView { symbol, exchange: exchange_of_market(market) },
                        DailyFigures {
                            last_price,
                            price_change: PriceChange::SinceOpen(open),
                            volume: DailyVolume::Base(volume),
                        },
                    )
                } else {
                    crate::listing::RowOutcomeView::Skip
                },
                None => crate::listing::RowOutcomeView::Skip,
            },
            _ => crate::listing::RowOutcomeView::Skip,
        }
    }

    fn read(&self, scope: &Vec<MarketKind>) -> (r: RowOutcome<DailyFigures>) {
        let symbol = match &self.inst_id {
            Some(symbol) => symbol.as_str(),
            None => {
                return RowOutcome::Skip;
            },
        };
        let perps_market = match market_from_symbol(symbol) {
            Some(perps_market) => perps_market,
            None => {
                return RowOutcome::Skip;
            },
        };
        if !has_market(scope, perps_market) {
            return RowOutcome::Skip;
        }
        let exchange = exchange_from_market_type(perps_market);
        if !exchange.is_symbol_supported(symbol) {
            return RowOutcome::Skip;
        }
        match (self.last, self.open_24h, self.volume_24h) {
            (Some(last_price), Some(open), Some(volume)) => RowOutcome::Keep(
                Ticker::new(symbol, exchange),
                DailyFigures {
                    last_price,
                    price_change: PriceChange::SinceOpen(open),
                    volume: DailyVolume::Base(volume),
                },
            ),
            _ => RowOutcome::Skip,
        }
    }
}

/// A row of candles as the venue sends it, each cell as far as it could be read.
#[derive(Debug, Clone, Copy, PartialEq, Eq, Structural)]
pub struct KlineRow {
    pub time: Option<u64>,
    pub open: Option<Bits64>,
    pub high: Option<Bits64>,
    pub low: Option<Bits64>,
    pub close: Option<Bits64>,
    pub volume: Option<Bits64>,
}

/// The cells of a row of candles.
pub struct KlineCells<'a> {
    pub time: Option<&'a Value>,
    pub open: Option<&'a Value>,
    pub high: Option<&'a Value>,
    pub low: Option<&'a Value>,
    pub close: Option<&'a Value>,
    pub volume: Option<&'a Value>,
}

impl<'a> KlineCells<'a> {
    /// The cells are those of the row, in its order.
    pub open spec fn are_of(self, row: crate::json::JsonView) -> bool {
        &&& crate::json::item_view(self.time) == row.item(0)
        &&& crate::json::item_view(self.open) == row.item(1)
        &&& crate::json::item_view(self.high) == row.item(2)
        &&& crate::json::item_view(self.low) == row.item(3)
        &&& crate::json::item_view(self.close) == row.item(4)
        &&& crate::json::item_view(self.volume) == row.item(5)
    }
}

impl KlineRow {
    /// The cells that a row of candles is read from.
    pub fn cells<'a>(row: &'a Value) -> (r: KlineCells<'a>)
        ensures
            r.are_of(crate::json::json(*row)),
    {
        KlineCells {
            time: list_item(row, 0),
            open: list_item(row, 1),
            high: list_item(row, 2),
            low: list_item(row, 3),
            close: list_item(row, 4),
            volume: list_item(row, 5),
        }
    }

    /// The candle of a row that has a time and all four prices. A missing volume is zero.
    pub open spec fn candle_spec(self) -> Option<Candle> {
        match (self.time, self.open, self.high, self.low, self.close) {
            (Some(time), Some(open), Some(high), Some(low), Some(close)) => Some(
                Candle {
                    time,
                    open,
                    high,
                    low,
                    close,
                    volume: match self.volume {
                        Some(volume) => volume,
                        None => Bits64(0),
                    },
                },
            ),
            _ => None,
        }
    }

    /// The candle of a row that has a time and all four prices. A missing volume is zero.
    pub fn candle(&self) -> (r: Option<Candle>)
        ensures
            r == self.candle_spec(),
    {
        match (self.time, self.open, self.high, self.low, self.close) {
            (Some(time), Some(open), Some(high), Some(low), Some(close)) => Some(
                Candle {
                    time,
                    open,
                    high,
                    low,
                    close,
                    volume: match self.volume {
                        Some(volume) => volume,
                        None => Bits64(0),
                    },
                },
            ),
            _ => None,
        }
    }
}

/// The candle at `i` is earlier than that at `j`, or of the same time and an earlier row.
pub open spec fn comes_before(candles: Seq<Candle>, order: Seq<int>, i: int, j: int) -> bool {
    candles[i].time < candles[j].time || (candles[i].time == candles[j].time && order[i] < order[j])
}

/// `order` gives for each candle its row: every row that makes a candle occurs, earlier
/// candles come first, and candles of one time come in the order of their rows.
pub open spec fn in_time_order(rows: Seq<KlineRow>, candles: Seq<Candle>, order: Seq<int>) -> bool {
    &&& order.len() == candles.len()
    &&& forall|i: int|
        0 <= i < order.len() ==> 0 <= #[trigger] order[i] < rows.len()
            && rows[order[i]].candle_spec() == Some(candles[i])
    &&& forall|i: int, j: int|
        0 <= i < j < order.len() ==> #[trigger] comes_before(candles, order, i, j)
    &&& forall|k: int|
        0 <= k < rows.len() && (#[trigger] rows[k]).candle_spec() is Some ==> order.contains(k)
}

/// The candles of the rows, by time. Rows without a time or a price are passed over.
pub fn collect_klines(rows: &Vec<KlineRow>) -> (r: Vec<Candle>)
    ensures
        exists|order: Seq<int>| #[trigger] in_time_order(rows@, r@, order),
{
    let mut out: Vec<Candle> = Vec::new();
    let ghost mut order: Seq<int> = Seq::empty();
    let mut i: usize = 0;
    assert(in_time_order(rows@.take(0), out@, order));
    while i < rows.len()
        invariant
            i <= rows@.len(),
            in_time_order(rows@.take(i as int), out@, order),
        decreases rows@.len() - i,
    {
        let ghost head = rows@.take(i as int);
        let ghost longer = rows@.take(i + 1);
        proof {
            assert forall|k: int| 0 <= k < head.len() implies longer[k] == head[k] by {}
            assert(longer[i as int] == rows@[i as int]);
        }
        if let Some(candle) = rows[i].candle() {
            let mut p: usize = out.len();
            while p > 0 && out[p - 1].time > candle.time
                invariant
                    p <= out@.len(),
                    forall|j: int| p <= j < out@.len() ==> (#[trigger] out@[j]).time > candle.time,
                decreases p,
            {
                p -= 1;
            }
            let ghost before = out@;
            let ghost rows_before = order;
            out.insert(p, candle);
            proof {
                order = order.insert(p as int, i as int);
                lemma_inserted_in_order(
                    head,
                    longer,
                    before,
                    rows_before,
                    p as int,
                    candle,
                    i as int,
                );
            }
        } else {
            proof {
                assert(in_time_order(longer, out@, order)) by {
                    assert forall|k: int|
                        0 <= k < longer.len() && (#[trigger] longer[k]).candle_spec()
                            is Some implies order.contains(k) by {
                        assert(k < i);
                        assert(head[k].candle_spec() is Some);
                    }
                }
            }
        }
        i += 1;
    }
    assert(rows@.take(rows@.len() as int) == rows@);
    out
}

proof fn lemma_inserted_in_order(
    head: Seq<KlineRow>,
    longer: Seq<KlineRow>,
    candles: Seq<Candle>,
    order: Seq<int>,
    p: int,
    candle: Candle,
    row: int,
)
    requires
        in_time_order(head, candles, order),
        longer.len() == head.len() + 1,
        row == head.len(),
        forall|k: int| 0 <= k < head.len() ==> longer[k] == head[k],
        longer[row].candle_spec() == Some(candle),
        0 <= p <= candles.len(),
        forall|j: int| p <= j < candles.len() ==> (#[trigger] candles[j]).time > candle.time,
        p > 0 ==> candles[p - 1].time <= candle.time,
    ensures
        in_time_order(longer, candles.insert(p, candle), order.insert(p, row)),
{
    let more = candles.insert(p, candle);
    let rows = order.insert(p, row);
    assert forall|i: int| 0 <= i < rows.len() implies 0 <= #[trigger] rows[i] < longer.len()
        && longer[rows[i]].candle_spec() == Some(more[i]) by {
        if i < p {
            assert(rows[i] == order[i]);
        } else if i > p {
            assert(rows[i] == order[i - 1]);
        }
    }
    assert forall|j: int| 0 <= j < p implies (#[trigger] candles[j]).time <= candle.time by {
        if j < p - 1 {
            assert(comes_before(candles, order, j, p - 1));
        }
    }
    assert forall|i: int, j: int| 0 <= i < j < rows.len() implies #[trigger] comes_before(
        more,
        rows,
        i,
        j,
    ) by {
        let a = if i < p {
            i
        } else {
            i - 1
        };
        let b = if j < p {
            j
        } else {
            j - 1
        };
        if i == p {
            assert(more[j] == candles[b]);
        } else if j == p {
            assert(more[i] == candles[a]);
            assert(rows[i] == order[a]);
        } else {
            assert(comes_before(candles, order, a, b));
        }
    }
    assert forall|k: int|
        0 <= k < longer.len() && (#[trigger] longer[k]).candle_spec() is Some implies rows.contains(
        k,
    ) by {
        if k == row {
            assert(rows[p] == k);
        } else {
            assert(head[k].candle_spec() is Some);
            let q = choose|q: int| 0 <= q < order.len() && order[q] == k;
            if q < p {
                assert(rows[q] == k);
            } else {
                assert(rows[q + 1] == k);
            }
        }
    }
}

proof fn lemma_same_prefix(
    rows: Seq<KlineRow>,
    a: Seq<Candle>,
    a_order: Seq<int>,
    b: Seq<Candle>,
    b_order: Seq<int>,
    n: int,
)
    requires
        in_time_order(rows, a, a_order),
        in_time_order(rows, b, b_order),
        0 <= n <= a_order.len(),
    ensures
        n <= b_order.len(),
        forall|i: int| 0 <= i < n ==> #[trigger] a_order[i] == b_order[i],
    decreases n,
{
    if n > 0 {
        let m = n - 1;
        lemma_same_prefix(rows, a, a_order, b, b_order, m);
        let k = a_order[m];
        assert(rows[k].candle_spec() == Some(a[m]));
        assert(b_order.contains(k));
        let q = choose|q: int| 0 <= q < b_order.len() && b_order[q] == k;
        if q < m {
            assert(a_order[q] == k);
            assert(comes_before(a, a_order, q, m));
        }
        if q > m {
            let l = b_order[m];
            assert(rows[l].candle_spec() == Some(b[m]));
            assert(rows[b_order[q]].candle_spec() == Some(b[q]));
            assert(comes_before(b, b_order, m, q));
            assert(a_order.contains(l));
            let p = choose|p: int| 0 <= p < a_order.len() && a_order[p] == l;
            assert(rows[a_order[p]].candle_spec() == Some(a[p]));
            if p < m {
                assert(b_order[p] == l);
                assert(comes_before(b, b_order, p, m));
            } else if p > m {
                assert(comes_before(a, a_order, m, p));
            }
        }
    }
}

/// There is one way to put the candles of a reply in order.
pub proof fn law_time_order_is_the_only_one(
    rows: Seq<KlineRow>,
    a: Seq<Candle>,
    a_order: Seq<int>,
    b: Seq<Candle>,
    b_order: Seq<int>,
)
    requires
        in_time_order(rows, a, a_order),
        in_time_order(rows, b, b_order),
    ensures
        a == b,
{
    lemma_same_prefix(rows, a, a_order, b, b_order, a_order.len() as int);
    lemma_same_prefix(rows, b, b_order, a, a_order, b_order.len() as int);
    assert forall|i: int| 0 <= i < a.len() implies a[i] == b[i] by {
        assert(rows[a_order[i]].candle_spec() == Some(a[i]));
        assert(rows[b_order[i]].candle_spec() == Some(b[i]));
    }
    assert(a =~= b);
}

/// Open interest at a time.
#[derive(Debug, Clone, Copy, PartialEq, Eq, Structural)]
pub struct OpenInterest {
    pub time: UnixMs,
    pub value: Bits64,
}

/// A row of open interest as the venue sends it, each cell as far as it could be read.
#[derive(Debug, Clone, Copy, PartialEq, Eq, Structural)]
pub struct OpenInterestRow {
    pub time: Option<u64>,
    pub value: Option<Bits64>,
}

/// The cells of a row of open interest.
pub struct OpenInterestCells<'a> {
    pub time: Option<&'a Value>,
    pub value: Option<&'a Value>,
}

impl<'a> OpenInterestCells<'a> {
    /// The cells are the first and the third of the row.
    pub open spec fn are_of(self, row: crate::json::JsonView) -> bool {
        &&& crate::json::item_view(self.time) == row.item(0)
        &&& crate::json::item_view(self.value) == row.item(2)
    }
}

impl OpenInterestRow {
    /// The cells that a row of open interest is read from.
    pub fn cells<'a>(row: &'a Value) -> (r: OpenInterestCells<'a>)
        ensures
            r.are_of(crate::json::json(*row)),
    {
        OpenInterestCells { time: list_item(row, 0), value: list_item(row, 2) }
    }

    pub open spec fn complete(self) -> bool {
        self.time is Some && self.value is Some
    }

    pub open spec fn reading(self) -> OpenInterest {
        OpenInterest { time: UnixMs(self.time->0), value: self.value->0 }
    }
}

/// The rows that have a time and a value, in their order.
pub open spec fn open_interest_of(rows: Seq<OpenInterestRow>) -> Seq<OpenInterest> {
    rows.filter(|row: OpenInterestRow| row.complete()).map_values(
        |row: OpenInterestRow| row.reading(),
    )
}

/// The rows that have a time and a value, in their order.
pub fn collect_open_interest(rows: &Vec<OpenInterestRow>) -> (r: Vec<OpenInterest>)
    ensures
        r@ == open_interest_of(rows@),
{
    let mut out: Vec<OpenInterest> = Vec::new();
    let mut i: usize = 0;
    proof {
        reveal(Seq::filter);
    }
    assert(rows@.take(0).filter(|row: OpenInterestRow| row.complete()) == Seq::<
        OpenInterestRow,
    >::empty());
    while i < rows.len()
        invariant
            i <= rows@.len(),
            out@ == open_interest_of(rows@.take(i as int)),
        decreases rows@.len() - i,
    {
        let row = rows[i];
        proof {
            reveal(Seq::filter);
            let head = rows@.take(i + 1);
            assert(head.drop_last() == rows@.take(i as int));
            assert(head.last() == row);
        }
        if let (Some(time), Some(value)) = (row.time, row.value) {
            out.push(OpenInterest { time: UnixMs(time), value });
        }
        assert(out@ == open_interest_of(rows@.take(i + 1)));
        i += 1;
    }
    assert(rows@.take(rows@.len() as int) == rows@);
    out
}

/// The name of an interval at the venue says how long it is, and candles come in every interval
/// from a minute on.
pub proof fn law_bars_say_the_length(tf: Timeframe)
    ensures
        okx_bar(tf) is Some <==> tf.milliseconds() >= 60_000,
        okx_bar(tf) matches Some(bar) ==> exists|digits: int| #[trigger]
            crate::timeframe::names_length(bar, digits, tf.milliseconds() as int),
{
    reveal_strlit("1m");
    reveal_strlit("3m");
    reveal_strlit("5m");
    reveal_strlit("15m");
    reveal_strlit("30m");
    reveal_strlit("1H");
    reveal_strlit("2H");
    reveal_strlit("4H");
    reveal_strlit("12Hutc");
    reveal_strlit("1Dutc");
    if let Some(bar) = okx_bar(tf) {
        let digits: int = match tf {
            Timeframe::M15 | Timeframe::M30 | Timeframe::H12 => 2,
            _ => 1,
        };
        let unit = bar.skip(digits);
        if tf.milliseconds() < 3_600_000 {
            assert(unit =~= seq!['m']);
            assert(unit.len() != seq!['m', 's'].len());
        } else if tf.milliseconds() < 43_200_000 {
            assert(unit =~= seq!['H']);
            assert(unit.len() != seq!['m', 's'].len());
            assert(unit[0] != seq!['m'][0]);
        } else if tf.milliseconds() < 86_400_000 {
            assert(unit =~= seq!['H', 'u', 't', 'c']);
            assert(unit.len() != seq!['m', 's'].len());
            assert(unit.len() != seq!['m'].len());
        } else {
            assert(unit =~= seq!['D', 'u', 't', 'c']);
            assert(unit.len() != seq!['m', 's'].len());
            assert(unit.len() != seq!['m'].len());
            assert(unit.len() != seq!['h'].len());
            assert(unit.len() != seq!['H'].len());
            assert(unit[0] != seq!['H', 'u', 't', 'c'][0]);
        }
        assert(crate::timeframe::names_length(bar, digits, tf.milliseconds() as int));
    }
}

/// As many candles are asked for as whole intervals fit into the range, but one at least and
/// three hundred at most; and three hundred without a range.
pub proof fn law_candles_asked_for_fit_the_range(tf: Timeframe, start: UnixMs, end: UnixMs)
    requires
        start.0 <= end.0,
    ensures
        kline_limit_spec(tf, None) == 300,
        ({
            let n = kline_limit_spec(tf, Some((start, end)));
            &&& 1 <= n <= 300
            &&& n > 1 ==> n * tf.milliseconds() <= end.0 - start.0
            &&& n < 300 ==> end.0 - start.0 < (n + 1) * tf.milliseconds()
        }),
{
    let ms = tf.milliseconds() as int;
    let span = end.0 - start.0;
    vstd::arithmetic::div_mod::lemma_fundamental_div_mod(span, ms);
    vstd::arithmetic::div_mod::lemma_mod_bound(span, ms);
    let q = span / ms;
    let n = kline_limit_spec(tf, Some((start, end)));
    if n > 1 {
        assert(n * ms <= ms * q) by (nonlinear_arith)
            requires
                n <= q,
                ms > 0,
        ;
    }
    if n < 300 {
        assert(ms * q + ms <= (n + 1) * ms) by (nonlinear_arith)
            requires
                q <= n,
                ms > 0,
        ;
    }
}

/// Addresses of candles and of open interest name the instrument, the interval and, for
/// candles, how many are asked for. A range adds its start and its end, in that order, in
/// milliseconds, and changes nothing else.
pub proof fn law_addresses_with_a_range(
    symbol: Seq<char>,
    bar: Seq<char>,
    limit: int,
    start: UnixMs,
    end: UnixMs,
)
    ensures
        ({
            let plain = klines_url_spec(symbol, bar, limit, None);
            let ranged = klines_url_spec(symbol, bar, limit, Some((start, end)));
            &&& plain == "http://127.0.0.1"@ + "/market/history-candles?instId="@ + symbol
                + "&bar="@ + bar + "&limit="@ + crate::text::decimal(limit as nat)
            &&& ranged == plain + ("&before="@ + crate::text::decimal(start.0 as nat) + "&after="@
                + crate::text::decimal(end.0 as nat))
        }),
        ({
            let plain = open_interest_url_spec(symbol, bar, None);
            let ranged = open_interest_url_spec(symbol, bar, Some((start, end)));
            &&& plain == "http://127.0.0.1"@
                + "/rubik/stat/contracts/open-interest-history?instId="@ + symbol + "&period="@
                + bar
            &&& ranged == plain + ("&begin="@ + crate::text::decimal(start.0 as nat) + "&end="@
                + crate::text::decimal(end.0 as nat))
        }),
{
    assert(REST_API_BASE@ == "http://127.0.0.1"@);
    assert(klines_url_spec(symbol, bar, limit, Some((start, end))) =~= klines_url_spec(
        symbol,
        bar,
        limit,
        None,
    ) + ("&before="@ + crate::text::decimal(start.0 as nat) + "&after="@ + crate::text::decimal(
        end.0 as nat,
    )));
    assert(open_interest_url_spec(symbol, bar, Some((start, end))) =~= open_interest_url_spec(
        symbol,
        bar,
        None,
    ) + ("&begin="@ + crate::text::decimal(start.0 as nat) + "&end="@ + crate::text::decimal(
        end.0 as nat,
    )));
}

/// Spot pairs and perpetuals are asked for by their types, instruments and figures at addresses
/// of their own. Exchanges of the venue are of the market that they are found for, and only
/// spot quantities are counted in the base currency.
pub proof fn law_markets_of_the_venue(market: MarketKind)
    ensures
        instruments_address(Endpoint::Spot) == "http://127.0.0.1"@
            + "/public/instruments?instType="@ + "SPOT"@,
        instruments_address(Endpoint::Perps) == "http://127.0.0.1"@
            + "/public/instruments?instType="@ + "SWAP"@,
        tickers_address(Endpoint::Spot) == "http://127.0.0.1"@ + "/market/tickers?instType="@
            + "SPOT"@,
        tickers_address(Endpoint::Perps) == "http://127.0.0.1"@ + "/market/tickers?instType="@
            + "SWAP"@,
        exchange_of_market(market).venue_spec() == crate::market::Venue::Okex,
        exchange_of_market(market).market_spec() == market,
        qty_unit_of(market) is Base <==> market is Spot,
{
    assert(REST_API_BASE@ == "http://127.0.0.1"@);
}

/// A row makes a candle exactly if it has a time and all four prices; each part of the candle
/// is the cell of its own, and a missing volume is zero.
pub proof fn law_candles_keep_their_prices(row: KlineRow)
    ensures
        match row.candle_spec() {
            Some(candle) => {
                &&& row.time == Some(candle.time)
                &&& row.open == Some(candle.open)
                &&& row.high == Some(candle.high)
                &&& row.low == Some(candle.low)
                &&& row.close == Some(candle.close)
                &&& match row.volume {
                    Some(volume) => candle.volume == volume,
                    None => candle.volume.0 == 0,
                }
            },
            None => row.time is None || row.open is None || row.high is None || row.low is None
                || row.close is None,
        },
{
}

/// Candles come by time, every complete row has its candle, and nothing else has one; there are
/// as many candles as complete rows, since no row counts twice.
pub proof fn law_candles_come_by_time(
    rows: Seq<KlineRow>,
    candles: Seq<Candle>,
    order: Seq<int>,
    i: int,
    j: int,
    k: int,
)
    requires
        in_time_order(rows, candles, order),
        0 <= i < j < candles.len(),
        0 <= k < rows.len(),
    ensures
        candles[i].time <= candles[j].time,
        order[i] != order[j],
        candles[i].time == candles[j].time ==> order[i] < order[j],
        rows[order[i]].candle_spec() == Some(candles[i]),
        rows[k].candle_spec() matches Some(candle) ==> candles.contains(candle),
{
    assert(comes_before(candles, order, i, j));
    assert(rows[order[i]].candle_spec() == Some(candles[i]));
    if rows[k].candle_spec() is Some {
        let q = choose|q: int| 0 <= q < order.len() && order[q] == k;
        assert(rows[order[q]].candle_spec() == Some(candles[q]));
        assert(candles[q] == rows[k].candle_spec()->0);
    }
}

/// Open interest keeps the order of the rows: a further row adds its time and its value at the
/// end where it has both, and nothing else.
pub proof fn law_open_interest_follows_the_rows(rows: Seq<OpenInterestRow>, row: OpenInterestRow)
    ensures
        open_interest_of(Seq::empty()).len() == 0,
        match (row.time, row.value) {
            (Some(time), Some(value)) => open_interest_of(rows.push(row)) == open_interest_of(
                rows,
            ).push(OpenInterest { time: UnixMs(time), value }),
            _ => open_interest_of(rows.push(row)) == open_interest_of(rows),
        },
{
    reveal(Seq::filter);
    assert(rows.push(row).drop_last() =~= rows);
    assert(open_interest_of(rows.push(row)) =~= match (row.time, row.value) {
        (Some(time), Some(value)) => open_interest_of(rows).push(
            OpenInterest { time: UnixMs(time), value },
        ),
        _ => open_interest_of(rows),
    });
}

/// A spot instrument is listed exactly if it is live, quoted in USDT or USDC, and its symbol
/// can be shown; a perpetual exactly if it is live, its symbol can be shown, and it is an
/// inverse one, or a linear one that settles in USDT, of a market that is asked for. Price
/// step, smallest quantity and contract size are kept each in its place; without one of the
/// first two there are no sizes. No row makes the list fail.
pub proof fn law_listed_instruments(
    spot: SpotInstrument,
    perps: PerpsInstrument,
    scope: Vec<MarketKind>,
)
    ensures
        ({
            let quote = crate::text::text_view(spot.quote_ccy);
            let wanted = crate::text::text_view(spot.state) == Some("live"@) && (quote == Some(
                "USDT"@,
            ) || quote == Some("USDC"@)) && crate::text::text_view(spot.inst_id) is Some;
            match spot.outcome(scope) {
                crate::listing::RowOutcomeView::Keep(ticker, listing) => {
                    &&& wanted && Exchange::symbol_supported(ticker.symbol)
                    &&& crate::text::text_view(spot.inst_id) == Some(ticker.symbol)
                    &&& ticker.exchange == Exchange::OkexSpot
                    &&& has_sizes(listing, spot.tick_size, spot.lot_size, None)
                },
                crate::listing::RowOutcomeView::Unsupported(ticker) => wanted
                    && crate::text::text_view(spot.inst_id) == Some(ticker.symbol)
                    && !Exchange::symbol_supported(ticker.symbol),
                crate::listing::RowOutcomeView::Skip => !wanted,
                crate::listing::RowOutcomeView::Fail(_) => false,
            }
        }),
        ({
            let kind = crate::text::text_view(perps.ct_type);
            let inverse = kind == Some("inverse"@);
            let linear = kind == Some("linear"@) && crate::text::text_view(perps.settle_ccy)
                == Some("USDT"@);
            let wanted = crate::text::text_view(perps.state) == Some("live"@)
                && crate::text::text_view(perps.inst_id) is Some && ((inverse && scope@.contains(
                MarketKind::InversePerps,
            )) || (linear && scope@.contains(MarketKind::LinearPerps)));
            match perps.outcome(scope) {
                crate::listing::RowOutcomeView::Keep(ticker, listing) => {
                    &&& wanted && Exchange::symbol_supported(ticker.symbol)
                    &&& crate::text::text_view(perps.inst_id) == Some(ticker.symbol)
                    &&& ticker.exchange == if linear {
                        Exchange::OkexLinear
                    } else {
                        Exchange::OkexInverse
                    }
                    &&& has_sizes(
                        listing,
                        perps.tick_size,
                        perps.lot_size,
                        perps.contract_size,
                    )
                },
                crate::listing::RowOutcomeView::Unsupported(ticker) => wanted
                    && crate::text::text_view(perps.inst_id) == Some(ticker.symbol)
                    && !Exchange::symbol_supported(ticker.symbol),
                crate::listing::RowOutcomeView::Skip => !wanted,
                crate::listing::RowOutcomeView::Fail(_) => false,
            }
        }),
{
    reveal_strlit("inverse");
    reveal_strlit("linear");
    assert("inverse"@.len() != "linear"@.len());
}

/// The sizes are those that were read.
pub open spec fn has_sizes(
    listing: Option<Listing>,
    tick: Option<Bits32>,
    lot: Option<Bits32>,
    contract: Option<Bits32>,
) -> bool {
    match listing {
        Some(sizes) => {
            &&& tick matches Some(step) && sizes.min_ticksize == TickSize::Value(step)
            &&& lot matches Some(qty) && sizes.min_qty == MinQty::Value(qty)
            &&& sizes.contract_size == contract
        },
        None => tick is None || lot is None,
    }
}

/// The figures of a day: the last price, the change since the opening price of the day, and
/// what was traded, which counts in the quote currency for spot pairs and in the base currency
/// for perpetuals. A row is passed over only where its symbol, or one of the three numbers, is
/// missing, its symbol cannot be shown, or, for a perpetual, its symbol names no market that is
/// asked for. No row makes the list fail.
pub proof fn law_figures_of_the_day(
    spot: SpotFigures,
    perps: PerpsFigures,
    scope: Vec<MarketKind>,
)
    ensures
        match spot.outcome(scope) {
            crate::listing::RowOutcomeView::Keep(ticker, figures) => {
                &&& crate::text::text_view(spot.inst_id) == Some(ticker.symbol)
                &&& Exchange::symbol_supported(ticker.symbol)
                &&& ticker.exchange == Exchange::OkexSpot
                &&& spot.last == Some(figures.last_price)
                &&& spot.open_24h matches Some(open) && figures.price_change
                    == PriceChange::SinceOpen(open)
                &&& spot.volume_24h matches Some(volume) && figures.volume == DailyVolume::Quote(
                    volume,
                )
            },
            crate::listing::RowOutcomeView::Skip => spot.last is None || spot.open_24h is None
                || spot.volume_24h is None || (crate::text::text_view(
                spot.inst_id,
            ) matches Some(symbol) ==> !Exchange::symbol_supported(symbol)),
            _ => false,
        },
        match perps.outcome(scope) {
            crate::listing::RowOutcomeView::Keep(ticker, figures) => {
                &&& crate::text::text_view(perps.inst_id) == Some(ticker.symbol)
                &&& Exchange::symbol_supported(ticker.symbol)
                &&& if crate::text::has_suffix(ticker.symbol, "-USDT-SWAP"@) {
                    ticker.exchange == Exchange::OkexLinear && scope@.contains(
                        MarketKind::LinearPerps,
                    )
                } else {
                    ticker.exchange == Exchange::OkexInverse && scope@.contains(
                        MarketKind::InversePerps,
                    ) && crate::text::has_suffix(ticker.symbol, "-USD-SWAP"@)
                }
                &&& perps.last == Some(figures.last_price)
                &&& perps.open_24h matches Some(open) && figures.price_change
                    == PriceChange::SinceOpen(open)
                &&& perps.volume_24h matches Some(volume) && figures.volume == DailyVolume::Base(
                    volume,
                )
            },
            crate::listing::RowOutcomeView::Skip => perps.last is None || perps.open_24h is None
                || perps.volume_24h is None || (crate::text::text_view(
                perps.inst_id,
            ) matches Some(symbol) ==> !Exchange::symbol_supported(symbol) || !(
            (crate::text::has_suffix(symbol, "-USDT-SWAP"@) && scope@.contains(
                MarketKind::LinearPerps,
            )) || (!crate::text::has_suffix(symbol, "-USDT-SWAP"@) && crate::text::has_suffix(
                symbol,
                "-USD-SWAP"@,
            ) && scope@.contains(MarketKind::InversePerps)))),
            _ => false,
        },
{
}

/// The venue takes twenty requests in two seconds, of which a twentieth is kept free, and says
/// with status 429 that there were more. The limiter goes by these settings as they are.
pub proof fn law_limit_of_the_venue(config: OkexConfig)
    ensures
        config.is_default() ==> config.limit == 20 && config.refill_rate.nanos == 2_000_000_000
            && config.limiter_buffer_pct.0 == 1_028_443_341,
        ({
            let settings = config.limiter_config_spec();
            &&& settings.limit == config.limit
            &&& settings.refill_rate == config.refill_rate
            &&& settings.limiter_buffer_pct == config.limiter_buffer_pct
            &&& settings.exit_status == 429
        }),
{
}

/// The cells of a row of candles come in the order time, open, high, low, close, volume; those
/// of a row of open interest are the first and the third. A row that ends before a cell does
/// not have it.
pub proof fn law_cells_come_in_their_order<'a>(
    row: Seq<crate::json::JsonView>,
    cells: KlineCells<'a>,
    interest: OpenInterestCells<'a>,
)
    requires
        cells.are_of(crate::json::JsonView::Array(row)),
        interest.are_of(crate::json::JsonView::Array(row)),
    ensures
        row.len() >= 6 ==> {
            &&& cells.time matches Some(cell) && crate::json::json(*cell) == row[0]
            &&& cells.open matches Some(cell) && crate::json::json(*cell) == row[1]
            &&& cells.high matches Some(cell) && crate::json::json(*cell) == row[2]
            &&& cells.low matches Some(cell) && crate::json::json(*cell) == row[3]
            &&& cells.close matches Some(cell) && crate::json::json(*cell) == row[4]
            &&& cells.volume matches Some(cell) && crate::json::json(*cell) == row[5]
        },
        row.len() <= 5 ==> cells.volume is None,
        row.len() <= 4 ==> cells.close is None,
        row.len() == 0 ==> cells.time is None && interest.time is None,
        row.len() >= 3 ==> {
            &&& interest.time matches Some(cell) && crate::json::json(*cell) == row[0]
            &&& interest.value matches Some(cell) && crate::json::json(*cell) == row[2]
        },
        row.len() <= 2 ==> interest.value is None,
{
}

/// What is listed of an instrument stands in its item of the reply: the symbol is that of the
/// item, and so is what it is listed for, and its sizes are read from the members that the
/// venue gives them in.
pub proof fn law_instruments_come_from_the_reply<'a>(
    item: crate::json::JsonView,
    spot_members: SpotInstrumentMembers<'a>,
    perps_members: PerpsInstrumentMembers<'a>,
    spot: SpotInstrument,
    perps: PerpsInstrument,
    tick: Option<Bits32>,
    lot: Option<Bits32>,
    contract: Option<Bits32>,
    scope: Vec<MarketKind>,
)
    requires
        spot_members.are_of(item),
        perps_members.are_of(item),
        spot.is_read(item, tick, lot),
        perps.is_read(item, tick, lot, contract),
    ensures
        crate::json::json(*spot_members.tick_size) == item.member("tickSz"@),
        crate::json::json(*spot_members.lot_size) == item.member("lotSz"@),
        crate::json::json(*perps_members.tick_size) == item.member("tickSz"@),
        crate::json::json(*perps_members.lot_size) == item.member("lotSz"@),
        crate::json::json(*perps_members.contract_size) == item.member("ctVal"@),
        spot.outcome(scope) matches crate::listing::RowOutcomeView::Keep(ticker, listing) ==> {
            let quote = item.member("quoteCcy"@).as_text();
            &&& item.member("instId"@).as_text() == Some(ticker.symbol)
            &&& item.member("state"@).as_text() == Some("live"@)
            &&& quote == Some("USDT"@) || quote == Some("USDC"@)
            &&& has_sizes(listing, tick, lot, None)
        },
        perps.outcome(scope) matches crate::listing::RowOutcomeView::Keep(ticker, listing) ==> {
            let kind = item.member("ctType"@).as_text();
            &&& item.member("instId"@).as_text() == Some(ticker.symbol)
            &&& item.member("state"@).as_text() == Some("live"@)
            &&& ticker.exchange is OkexLinear ==> kind == Some("linear"@) && item.member(
                "settleCcy"@,
            ).as_text() == Some("USDT"@)
            &&& ticker.exchange is OkexInverse ==> kind == Some("inverse"@)
            &&& ticker.exchange is OkexLinear || ticker.exchange is OkexInverse
            &&& has_sizes(listing, tick, lot, contract)
        },
{
}

/// The figures of an instrument are read from the members that the venue gives them in, and are
/// listed under the symbol of their item.
pub proof fn law_figures_come_from_the_reply<'a>(
    item: crate::json::JsonView,
    members: FigureMembers<'a>,
    spot: SpotFigures,
    perps: PerpsFigures,
    last: Option<Bits64>,
    open_24h: Option<Bits64>,
    volume_24h: Option<Bits64>,
    scope: Vec<MarketKind>,
)
    requires
        members.are_of(item),
        spot.is_read(item, last, open_24h, volume_24h),
        perps.is_read(item, last, open_24h, volume_24h),
    ensures
        crate::json::json(*members.last) == item.member("last"@),
        crate::json::json(*members.open_24h) == item.member("open24h"@),
        crate::json::json(*members.volume_24h) == item.member("volCcy24h"@),
        spot.outcome(scope) matches crate::listing::RowOutcomeView::Keep(ticker, figures) ==> {
            &&& item.member("instId"@).as_text() == Some(ticker.symbol)
            &&& last == Some(figures.last_price)
            &&& open_24h matches Some(open) && figures.price_change == PriceChange::SinceOpen(open)
            &&& volume_24h matches Some(volume) && figures.volume == DailyVolume::Quote(volume)
        },
        perps.outcome(scope) matches crate::listing::RowOutcomeView::Keep(ticker, figures) ==> {
            &&& item.member("instId"@).as_text() == Some(ticker.symbol)
            &&& last == Some(figures.last_price)
            &&& open_24h matches Some(open) && figures.price_change == PriceChange::SinceOpen(open)
            &&& volume_24h matches Some(volume) && figures.volume == DailyVolume::Base(volume)
        },
{
}

/// The market that a symbol names is the one that its end names, and no symbol names both.
pub proof fn law_symbols_name_their_market(head: Seq<char>)
    ensures
        market_of_symbol(head + "-USDT-SWAP"@) == Some(MarketKind::LinearPerps),
        market_of_symbol(head + "-USD-SWAP"@) == Some(MarketKind::InversePerps),
        market_of_symbol(head) matches Some(market) ==> crate::text::has_suffix(
            head,
            if market is LinearPerps {
                "-USDT-SWAP"@
            } else {
                "-USD-SWAP"@
            },
        ) && !(market is Spot),
{
    reveal_strlit("-USDT-SWAP");
    reveal_strlit("-USD-SWAP");
    crate::text::law_ends_of_texts(head, "-USDT-SWAP"@, head);
    crate::text::law_ends_of_texts(head, "-USD-SWAP"@, head);
    let s = head + "-USD-SWAP"@;
    if crate::text::has_suffix(s, "-USDT-SWAP"@) {
        crate::text::law_ends_of_texts(head, "-USDT-SWAP"@, s);
        let n = s.len() as int;
        assert(s.skip(n - 10)[4] == "-USDT-SWAP"@[4]);
        assert(s[n - 6] == 'T');
        assert(s[n - 6] == "-USD-SWAP"@[3]);
        assert(false);
    }
}

} // verus!

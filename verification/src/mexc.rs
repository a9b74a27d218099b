//! MEXC: requests, and what is read from its replies.
use crate::error::AdapterError;
use crate::json::{
    document_list, list_member, sonic_from_str, text_member, value_as_double, value_as_i64,
    value_as_u64, value_member,
};
use crate::listing::{
    has_market, Candle, DailyFigures, DailyVolume, Endpoint, ListRow, Listing, MinQty, PriceChange,
    RowOutcome, TickSize,
};
use crate::market::{Exchange, MarketKind};
use crate::text::{ends_with, is_text, push_decimal, same_text, str_to_uppercase};
use crate::ticker::{Bits32, Bits64, Ticker, TickerInfo, TickerMap, UnixMs};
use crate::timeframe::Timeframe;
use serde_json::Value;
use vstd::prelude::*;

verus! {

pub open spec fn exchange_of_market(market_type: MarketKind) -> Exchange {
    match market_type {
        MarketKind::Spot => Exchange::MexcSpot,
        MarketKind::LinearPerps => Exchange::MexcLinear,
        MarketKind::InversePerps => Exchange::MexcInverse,
    }
}

pub fn exchange_from_market_type(market_type: MarketKind) -> (r: Exchange)
    ensures
        r == exchange_of_market(market_type),
        r.venue_spec() == crate::market::Venue::Mexc,
        r.market_spec() == market_type,
{
    match market_type {
        MarketKind::Spot => Exchange::MexcSpot,
        MarketKind::LinearPerps => Exchange::MexcLinear,
        MarketKind::InversePerps => Exchange::MexcInverse,
    }
}

/// Reads a reply that lists tickers.
pub fn read_exchange_info(text: &str) -> (r: Result<Value, AdapterError>)
    ensures
        match r {
            Ok(document) => crate::json::sonic_document(text@) == Ok::<_, Seq<char>>(
                crate::json::json(document),
            ),
            Err(e) => crate::json::sonic_document(text@) matches Err(message) && e@
                == crate::error::AdapterErrorView::ParseError(
                "Failed to parse MEXC exchange info: "@ + message,
            ),
        },
{
    match sonic_from_str(text) {
        Ok(document) => Ok(document),
        Err(message) => {
            let mut text = "Failed to parse MEXC exchange info: ".to_string();
            text.append(message.as_str());
            Err(AdapterError::ParseError(text))
        },
    }
}

/// Reads a reply with figures of the day.
pub fn read_document(text: &str) -> (r: Result<Value, AdapterError>)
    ensures
        match r {
            Ok(document) => crate::json::sonic_document(text@) == Ok::<_, Seq<char>>(
                crate::json::json(document),
            ),
            Err(e) => crate::json::sonic_document(text@) matches Err(message) && e@
                == crate::error::AdapterErrorView::ParseError(message),
        },
{
    match sonic_from_str(text) {
        Ok(document) => Ok(document),
        Err(message) => Err(AdapterError::ParseError(message)),
    }
}

fn joined(base: &str, path: &str) -> (r: String)
    ensures
        r@ == base@ + path@,
{
    let mut url = base.to_string();
    url.append(path);
    url
}

/// Where tickers are listed, below the address of the interface.
pub open spec fn metadata_path(endpoint: Endpoint) -> Seq<char> {
    match endpoint {
        Endpoint::Spot => "/v3/exchangeInfo"@,
        Endpoint::Perps => "/v1/contract/detail"@,
    }
}

/// Where tickers are listed, below the address of the interface.
pub fn metadata_url(base: &str, endpoint: Endpoint) -> (r: String)
    ensures
        r@ == base@ + metadata_path(endpoint),
{
    match endpoint {
        Endpoint::Spot => joined(base, "/v3/exchangeInfo"),
        Endpoint::Perps => joined(base, "/v1/contract/detail"),
    }
}

/// Where the figures of the day are, below the address of the interface.
pub open spec fn stats_path(endpoint: Endpoint) -> Seq<char> {
    match endpoint {
        Endpoint::Spot => "/v3/ticker/24hr"@,
        Endpoint::Perps => "/v1/contract/ticker"@,
    }
}

/// Where the figures of the day are, below the address of the interface.
pub fn stats_url(base: &str, endpoint: Endpoint) -> (r: String)
    ensures
        r@ == base@ + stats_path(endpoint),
{
    match endpoint {
        Endpoint::Spot => joined(base, "/v3/ticker/24hr"),
        Endpoint::Perps => joined(base, "/v1/contract/ticker"),
    }
}

/// Where the order book of a contract is.
pub open spec fn depth_address(base: Seq<char>, symbol: Seq<char>) -> Seq<char> {
    base + "/v1/contract/depth/"@ + symbol + "?limit=1000"@
}

/// Where the order book of a contract is; an error for a spot pair.
pub fn depth_snapshot_url(base: &str, ticker: &Ticker) -> (r: Result<String, AdapterError>)
    ensures
        match r {
            Ok(url) => ticker@.exchange.market_spec() != MarketKind::Spot && url@
                == depth_address(base@, ticker@.symbol),
            Err(e) => ticker@.exchange.market_spec() == MarketKind::Spot && e@
                == crate::error::AdapterErrorView::InvalidRequest(
                "MEXC spot depth snapshot is not supported in this stream"@,
            ),
        },
{
    let (symbol, market_type) = ticker.to_full_symbol_and_type();
    if market_type == MarketKind::Spot {
        return Err(
            AdapterError::invalid_request(
                "MEXC spot depth snapshot is not supported in this stream",
            ),
        );
    }
    let mut url = joined(base, "/v1/contract/depth/");
    url.append(symbol.as_str());
    url.append("?limit=1000");
    Ok(url)
}

/// An order book as it is handed on. `O` is an order.
pub struct DepthPayload<O> {
    pub last_update_id: u64,
    pub time: UnixMs,
    pub bids: Vec<O>,
    pub asks: Vec<O>,
}

/// An order book as the venue sends it.
pub struct DepthData<O> {
    pub asks: Vec<O>,
    pub bids: Vec<O>,
    pub version: u64,
    pub timestamp: u64,
}

impl<O> DepthData<O> {
    /// The order book as it is handed on.
    pub open spec fn payload(self) -> DepthPayload<O> {
        DepthPayload {
            last_update_id: self.version,
            time: UnixMs(self.timestamp),
            bids: self.bids,
            asks: self.asks,
        }
    }

    pub fn into_payload(self) -> (r: DepthPayload<O>)
        ensures
            r == self.payload(),
    {
        DepthPayload {
            last_update_id: self.version,
            time: UnixMs(self.timestamp),
            bids: self.bids,
            asks: self.asks,
        }
    }
}

fn parse_failure<F>(message: &str) -> (r: RowOutcome<F>)
    ensures
        r@ == crate::listing::RowOutcomeView::<F>::Fail(
            crate::error::AdapterErrorView::ParseError(message@),
        ),
{
    RowOutcome::Fail(AdapterError::parse(message))
}

/// A list that fails because of what a row lacks.
pub open spec fn fails_with<F>(message: Seq<char>) -> crate::listing::RowOutcomeView<F> {
    crate::listing::RowOutcomeView::Fail(crate::error::AdapterErrorView::ParseError(message))
}

/// A spot pair as the venue lists it.
pub struct SpotSymbol {
    pub status: Option<String>,
    pub symbol: Option<String>,
    pub quote_asset: Option<String>,
    pub base_size: Option<Bits32>,
    pub quote_asset_precision: Option<i64>,
}

impl SpotSymbol {
    /// The member of an item that the size is read from.
    pub fn size_member<'a>(item: &'a Value) -> (r: &'a Value)
        ensures
            crate::json::json(*r) == crate::json::json(*item).member("baseSizePrecision"@),
    {
        value_member(item, "baseSizePrecision")
    }

    /// Reads an item of the list. The size is handed in as a single-precision number.
        /// The row holds what the item has under the keys, and the numbers that go with it.
    pub open spec fn is_read(
        self,
        item: crate::json::JsonView,
        base_size: Option<Bits32>,
    ) -> bool {
        &&& crate::text::text_view(self.status) == item.member("status"@).as_text()
        &&& crate::text::text_view(self.symbol) == item.member("symbol"@).as_text()
        &&& crate::text::text_view(self.quote_asset) == item.member("quoteAsset"@).as_text()
        &&& self.quote_asset_precision == item.member("quoteAssetPrecision"@).as_i64()
        &&& self.base_size == base_size
    }

pub fn from_value(item: &Value, base_size: Option<Bits32>) -> (r: SpotSymbol)
        ensures
            r.is_read(crate::json::json(*item), base_size),
    {
        SpotSymbol {
            status: text_member(item, "status"),
            symbol: text_member(item, "symbol"),
            quote_asset: text_member(item, "quoteAsset"),
            base_size,
            quote_asset_precision: value_as_i64(value_member(item, "quoteAssetPrecision")),
        }
    }

    /// The sizes, where both could be read.
    pub open spec fn listing(self) -> Option<Listing> {
        match (self.base_size, self.quote_asset_precision) {
            (Some(base_size), Some(places)) => Some(
                Listing {
                    min_ticksize: TickSize::DecimalPlaces(places),
                    min_qty: MinQty::Value(base_size),
                    contract_size: None,
                },
            ),
            _ => None,
        }
    }
}

impl ListRow for SpotSymbol {
    type Figure = Option<Listing>;

    type Scope = Vec<MarketKind>;

    open spec fn ready(scope: Vec<MarketKind>) -> bool {
        true
    }

    /// A pair is passed over where its status or its quote currency is given and is not
    /// one of those that are shown. It is listed without sizes where they cannot be read.
    open spec fn outcome(&self, scope: Vec<MarketKind>) -> crate::listing::RowOutcomeView<
        Option<Listing>,
    > {
        let status = crate::text::text_view(self.status);
        let quote = crate::text::text_view(self.quote_asset);
        if status is Some && status != Some("1"@) && status != Some("2"@) {
            crate::listing::RowOutcomeView::Skip
        } else {
            match crate::text::text_view(self.symbol) {
                None => fails_with("Missing symbol"@),
                Some(symbol) => {
                    let ticker = crate::ticker::TickerView {
                        symbol,
                        exchange: Exchange::MexcSpot,
                    };
                    if !Exchange::symbol_supported(symbol) {
                        crate::listing::RowOutcomeView::Unsupported(ticker)
                    } else if quote is Some && quote != Some("USDT"@) && quote != Some("USDC"@)
                        && quote != Some("USD"@) {
                        crate::listing::RowOutcomeView::Skip
                    } else {
                        crate::listing::RowOutcomeView::Keep(ticker, self.listing())
                    }
                },
            }
        }
    }

    fn read(&self, scope: &Vec<MarketKind>) -> (r: RowOutcome<Option<Listing>>) {
        let exchange = exchange_from_market_type(MarketKind::Spot);
        if self.status.is_some() && !is_text(&self.status, "1") && !is_text(&self.status, "2") {
            return RowOutcome::Skip;
        }
        let symbol = match &self.symbol {
            Some(symbol) => symbol.as_str(),
            None => {
                return parse_failure("Missing symbol");
            },
        };
        if !exchange.is_symbol_supported(symbol) {
            return RowOutcome::Unsupported(Ticker::new(symbol, exchange));
        }
        if self.quote_asset.is_some() && !is_text(&self.quote_asset, "USDT") && !is_text(
            &self.quote_asset,
            "USDC",
        ) && !is_text(&self.quote_asset, "USD") {
            return RowOutcome::Skip;
        }
        let listing = match (self.base_size, self.quote_asset_precision) {
            (Some(base_size), Some(places)) => Some(
                Listing {
                    min_ticksize: TickSize::DecimalPlaces(places),
                    min_qty: MinQty::Value(base_size),
                    contract_size: None,
                },
            ),
            _ => None,
        };
        RowOutcome::Keep(Ticker::new(symbol, exchange), listing)
    }
}

/// A contract as the venue lists it.
pub struct Contract {
    pub state: Option<i64>,
    pub symbol: Option<String>,
    pub quote_coin: Option<String>,
    pub settle_coin: Option<String>,
    pub base_coin: Option<String>,
    pub min_volume: Option<Bits32>,
    pub price_unit: Option<Bits32>,
    pub contract_size: Option<Bits32>,
}

/// The members that the sizes of a contract are read from.
pub struct ContractMembers<'a> {
    pub min_volume: &'a Value,
    pub price_unit: &'a Value,
    pub contract_size: &'a Value,
}

impl<'a> ContractMembers<'a> {
    /// The members are those that the item has under the keys.
    pub open spec fn are_of(self, item: crate::json::JsonView) -> bool {
        &&& crate::json::json(*self.min_volume) == item.member("minVol"@)
        &&& crate::json::json(*self.price_unit) == item.member("priceUnit"@)
        &&& crate::json::json(*self.contract_size) == item.member("contractSize"@)
    }
}

impl Contract {
    /// The members of an item that the numbers are read from.
    pub fn members<'a>(item: &'a Value) -> (r: ContractMembers<'a>)
        ensures
            r.are_of(crate::json::json(*item)),
    {
        ContractMembers {
            min_volume: value_member(item, "minVol"),
            price_unit: value_member(item, "priceUnit"),
            contract_size: value_member(item, "contractSize"),
        }
    }

    /// Reads an item of the list. The sizes are handed in as single-precision numbers.
        /// The row holds what the item has under the keys, and the numbers that go with it.
    pub open spec fn is_read(
        self,
        item: crate::json::JsonView,
        min_volume: Option<Bits32>,
        price_unit: Option<Bits32>,
        contract_size: Option<Bits32>,
    ) -> bool {
        &&& crate::text::text_view(self.symbol) == item.member("symbol"@).as_text()
        &&& crate::text::text_view(self.quote_coin) == item.member("quoteCoin"@).as_text()
        &&& crate::text::text_view(self.settle_coin) == item.member("settleCoin"@).as_text()
        &&& crate::text::text_view(self.base_coin) == item.member("baseCoin"@).as_text()
        &&& self.state == item.member("state"@).as_i64()
        &&& self.min_volume == min_volume
        &&& self.price_unit == price_unit
        &&& self.contract_size == contract_size
    }

pub fn from_value(
        item: &Value,
        min_volume: Option<Bits32>,
        price_unit: Option<Bits32>,
        contract_size: Option<Bits32>,
    ) -> (r: Contract)
        ensures
            r.is_read(crate::json::json(*item), min_volume, price_unit, contract_size),
    {
        Contract {
            state: value_as_i64(value_member(item, "state")),
            symbol: text_member(item, "symbol"),
            quote_coin: text_member(item, "quoteCoin"),
            settle_coin: text_member(item, "settleCoin"),
            base_coin: text_member(item, "baseCoin"),
            min_volume,
            price_unit,
            contract_size,
        }
    }

    /// The sizes, where all three could be read.
    pub open spec fn listing(self) -> Option<Listing> {
        match (self.min_volume, self.price_unit, self.contract_size) {
            (Some(min_volume), Some(price_unit), Some(contract_size)) => Some(
                Listing {
                    min_ticksize: TickSize::Value(price_unit),
                    min_qty: MinQty::Contracts(min_volume),
                    contract_size: Some(contract_size),
                },
            ),
            _ => None,
        }
    }

    fn read_listing(&self) -> (r: Option<Listing>)
        ensures
            r == self.listing(),
    {
        match (self.min_volume, self.price_unit, self.contract_size) {
            (Some(min_volume), Some(price_unit), Some(contract_size)) => Some(
                Listing {
                    min_ticksize: TickSize::Value(price_unit),
                    min_qty: MinQty::Contracts(min_volume),
                    contract_size: Some(contract_size),
                },
            ),
            _ => None,
        }
    }
}

/// The market of a contract: inverse where it settles in its base currency, linear where it
/// settles in its quote currency.
pub open spec fn contract_market(
    base: Seq<char>,
    quote: Seq<char>,
    settle: Seq<char>,
) -> Option<MarketKind> {
    if settle == base {
        Some(MarketKind::InversePerps)
    } else if settle == quote {
        Some(MarketKind::LinearPerps)
    } else {
        None
    }
}

pub open spec fn is_dollar_coin(coin: Seq<char>) -> bool {
    coin == "USDT"@ || coin == "USD"@ || coin == "USDC"@
}

impl ListRow for Contract {
    type Figure = Option<Listing>;

    type Scope = Vec<MarketKind>;

    open spec fn ready(scope: Vec<MarketKind>) -> bool {
        true
    }

    /// An open contract against a dollar coin is listed, if its market is asked for, and
    /// without sizes where they cannot be read. The list fails at a contract of which it
    /// cannot be told what it is.
    open spec fn outcome(&self, scope: Vec<MarketKind>) -> crate::listing::RowOutcomeView<
        Option<Listing>,
    > {
        let symbol = crate::text::text_view(self.symbol);
        let quote = crate::text::text_view(self.quote_coin);
        let settle = crate::text::text_view(self.settle_coin);
        let base = crate::text::text_view(self.base_coin);
        if self.state matches Some(state) && state != 0 {
            crate::listing::RowOutcomeView::Skip
        } else if symbol is None {
            fails_with("Missing symbol"@)
        } else if quote is None {
            fails_with("Missing quoteCoin"@)
        } else if !is_dollar_coin(quote->0) {
            crate::listing::RowOutcomeView::Skip
        } else if settle is None {
            fails_with("Missing settleCoin"@)
        } else if base is None {
            fails_with("Missing baseCoin"@)
        } else {
            match contract_market(base->0, quote->0, settle->0) {
                None => fails_with("Unknown contract type"@),
                Some(market) => {
                    let ticker = crate::ticker::TickerView {
                        symbol: symbol->0,
                        exchange: exchange_of_market(market),
                    };
                    if !scope@.contains(market) {
                        crate::listing::RowOutcomeView::Skip
                    } else if !Exchange::symbol_supported(symbol->0) {
                        crate::listing::RowOutcomeView::Unsupported(ticker)
                    } else {
                        crate::listing::RowOutcomeView::Keep(ticker, self.listing())
                    }
                },
            }
        }
    }

    fn read(&self, scope: &Vec<MarketKind>) -> (r: RowOutcome<Option<Listing>>) {
        if let Some(state) = self.state {
            if state != 0 {
                return RowOutcome::Skip;
            }
        }
        let symbol = match &self.symbol {
            Some(symbol) => symbol.as_str(),
            None => {
                return parse_failure("Missing symbol");
            },
        };
        let quote_asset = match &self.quote_coin {
            Some(quote_asset) => quote_asset.as_str(),
            None => {
                return parse_failure("Missing quoteCoin");
            },
        };
        if !same_text(quote_asset, "USDT") && !same_text(quote_asset, "USD") && !same_text(
            quote_asset,
            "USDC",
        ) {
            return RowOutcome::Skip;
        }
        let settle_asset = match &self.settle_coin {
            Some(settle_asset) => settle_asset.as_str(),
            None => {
                return parse_failure("Missing settleCoin");
            },
        };
        let base_asset = match &self.base_coin {
            Some(base_asset) => base_asset.as_str(),
            None => {
                return parse_failure("Missing baseCoin");
            },
        };
        let perps_market = if same_text(settle_asset, base_asset) {
            MarketKind::InversePerps
        } else if same_text(settle_asset, quote_asset) {
            MarketKind::LinearPerps
        } else {
            return parse_failure("Unknown contract type");
        };
        if !has_market(scope, perps_market) {
            return RowOutcome::Skip;
        }
        let exchange = exchange_from_market_type(perps_market);
        if !exchange.is_symbol_supported(symbol) {
            return RowOutcome::Unsupported(Ticker::new(symbol, exchange));
        }
        RowOutcome::Keep(Ticker::new(symbol, exchange), self.read_listing())
    }
}

/// Whether a ticker is listed, and whether its list fails, does not depend on its sizes: where
/// they cannot be read it is still listed, without them.
pub proof fn law_unreadable_sizes_leave_tickers_listed(
    spot: SpotSymbol,
    contract: Contract,
    scope: Vec<MarketKind>,
    ticker: crate::ticker::TickerView,
)
    ensures
        ({
            let bare = SpotSymbol { base_size: None, quote_asset_precision: None, ..spot };
            &&& spot.outcome(scope).keeps(ticker) <==> bare.outcome(scope).keeps(ticker)
            &&& spot.outcome(scope) is Fail <==> bare.outcome(scope) is Fail
            &&& bare.outcome(scope) matches crate::listing::RowOutcomeView::Keep(_, listing)
                ==> listing is None
        }),
        ({
            let bare = Contract {
                min_volume: None,
                price_unit: None,
                contract_size: None,
                ..contract
            };
            &&& contract.outcome(scope).keeps(ticker) <==> bare.outcome(scope).keeps(ticker)
            &&& contract.outcome(scope) is Fail <==> bare.outcome(scope) is Fail
            &&& bare.outcome(scope) matches crate::listing::RowOutcomeView::Keep(_, listing)
                ==> listing is None
        }),
{
}

/// The figures of a spot pair as the venue gives them.
pub struct SpotFigures {
    pub symbol: Option<String>,
    pub last_price: Option<Bits64>,
    pub price_change_percent: Option<Bits32>,
    pub volume: Option<Bits64>,
    pub quote_volume: Option<Bits64>,
}

/// The members that the figures of a spot pair are read from.
pub struct SpotFigureMembers<'a> {
    pub last_price: &'a Value,
    pub price_change_percent: &'a Value,
    pub volume: &'a Value,
    pub quote_volume: &'a Value,
}

impl<'a> SpotFigureMembers<'a> {
    /// The members are those that the item has under the keys.
    pub open spec fn are_of(self, item: crate::json::JsonView) -> bool {
        &&& crate::json::json(*self.last_price) == item.member("lastPrice"@)
        &&& crate::json::json(*self.price_change_percent) == item.member("priceChangePercent"@)
        &&& crate::json::json(*self.volume) == item.member("volume"@)
        &&& crate::json::json(*self.quote_volume) == item.member("quoteVolume"@)
    }
}

impl SpotFigures {
    /// The members of an item that the numbers are read from.
    pub fn members<'a>(item: &'a Value) -> (r: SpotFigureMembers<'a>)
        ensures
            r.are_of(crate::json::json(*item)),
    {
        SpotFigureMembers {
            last_price: value_member(item, "lastPrice"),
            price_change_percent: value_member(item, "priceChangePercent"),
            volume: value_member(item, "volume"),
            quote_volume: value_member(item, "quoteVolume"),
        }
    }

    /// Reads an item of the list. The numbers are handed in as they were read.
        /// The row holds what the item has under the keys, and the numbers that go with it.
    pub open spec fn is_read(
        self,
        item: crate::json::JsonView,
        last_price: Option<Bits64>,
        price_change_percent: Option<Bits32>,
        volume: Option<Bits64>,
        quote_volume: Option<Bits64>,
    ) -> bool {
        &&& crate::text::text_view(self.symbol) == item.member("symbol"@).as_text()
        &&& self.last_price == last_price
        &&& self.price_change_percent == price_change_percent
        &&& self.volume == volume
        &&& self.quote_volume == quote_volume
    }

pub fn from_value(
        item: &Value,
        last_price: Option<Bits64>,
        price_change_percent: Option<Bits32>,
        volume: Option<Bits64>,
        quote_volume: Option<Bits64>,
    ) -> (r: SpotFigures)
        ensures
            r.is_read(crate::json::json(*item), last_price, price_change_percent, volume, quote_volume),
    {
        SpotFigures {
            symbol: text_member(item, "symbol"),
            last_price,
            price_change_percent,
            volume,
            quote_volume,
        }
    }
}

/// The symbol of a pair against a dollar coin.
pub open spec fn quotes_dollars(symbol: Seq<char>) -> bool {
    crate::text::has_suffix(symbol, "USDT"@) || crate::text::has_suffix(symbol, "USD"@)
        || crate::text::has_suffix(symbol, "USDC"@)
}

impl ListRow for SpotFigures {
    type Figure = DailyFigures;

    type Scope = Vec<MarketKind>;

    open spec fn ready(scope: Vec<MarketKind>) -> bool {
        true
    }

    /// A pair against a dollar coin is listed. Its volume is that in the quote currency,
    /// or else that in the base currency. The list fails where a number is missing.
    open spec fn outcome(&self, scope: Vec<MarketKind>) -> crate::listing::RowOutcomeView<
        DailyFigures,
    > {
        match crate::text::text_view(self.symbol) {
            None => fails_with("Symbol not found"@),
            Some(symbol) => if !Exchange::symbol_supported(symbol) || !quotes_dollars(symbol) {
                crate::listing::RowOutcomeView::Skip
            } else if self.last_price is None {
                fails_with("Last price not found"@)
            } else if self.price_change_percent is None {
                fails_with("Price change percent not found"@)
            } else if self.volume is None {
                fails_with("Volume not found"@)
            } else {
                crate::listing::RowOutcomeView::Keep(
                    crate::ticker::TickerView { symbol, exchange: Exchange::MexcSpot },
                    DailyFigures {
                        last_price: self.last_price->0,
                        price_change: PriceChange::Ratio(self.price_change_percent->0),
                        volume: match self.quote_volume {
                            Some(quote_volume) => DailyVolume::Quote(quote_volume),
                            None => DailyVolume::Base(self.volume->0),
                        },
                    },
                )
            },
        }
    }

    fn read(&self, scope: &Vec<MarketKind>) -> (r: RowOutcome<DailyFigures>) {
        let exchange = exchange_from_market_type(MarketKind::Spot);
        let symbol = match &self.symbol {
            Some(symbol) => symbol.as_str(),
            None => {
                return parse_failure("Symbol not found");
            },
        };
        if !exchange.is_symbol_supported(symbol) {
            return RowOutcome::Skip;
        }
        if !ends_with(symbol, "USDT") && !ends_with(symbol, "USD") && !ends_with(symbol, "USDC") {
            return RowOutcome::Skip;
        }
        let last_price = match self.last_price {
            Some(last_price) => last_price,
            None => {
                return parse_failure("Last price not found");
            },
        };
        let price_change_percent = match self.price_change_percent {
            Some(price_change_percent) => price_change_percent,
            None => {
                return parse_failure("Price change percent not found");
            },
        };
        let volume = match self.volume {
            Some(volume) => volume,
            None => {
                return parse_failure("Volume not found");
            },
        };
        let daily_volume = match self.quote_volume {
            Some(quote_volume) => DailyVolume::Quote(quote_volume),
            None => DailyVolume::Base(volume),
        };
        RowOutcome::Keep(
            Ticker::new(symbol, exchange),
            DailyFigures {
                last_price,
                price_change: PriceChange::Ratio(price_change_percent),
                volume: daily_volume,
            },
        )
    }
}

/// The figures of a contract as the venue gives them. `market` is the market that the symbol
/// was found to belong to.
pub struct PerpsFigures {
    pub symbol: Option<String>,
    pub market: Option<MarketKind>,
    pub last_price: Option<Bits64>,
    pub rise_fall_rate: Option<Bits32>,
    pub volume_24: Option<Bits64>,
}

/// The members that the market and the figures of a contract are read from.
pub struct PerpsFigureMembers<'a> {
    pub symbol: &'a Value,
    pub last_price: &'a Value,
    pub rise_fall_rate: &'a Value,
    pub volume_24: &'a Value,
}

impl<'a> PerpsFigureMembers<'a> {
    /// The members are those that the item has under the keys.
    pub open spec fn are_of(self, item: crate::json::JsonView) -> bool {
        &&& crate::json::json(*self.symbol) == item.member("symbol"@)
        &&& crate::json::json(*self.last_price) == item.member("lastPrice"@)
        &&& crate::json::json(*self.rise_fall_rate) == item.member("riseFallRate"@)
        &&& crate::json::json(*self.volume_24) == item.member("volume24"@)
    }
}

impl PerpsFigures {
    /// The members of an item that the numbers are read from.
    pub fn members<'a>(item: &'a Value) -> (r: PerpsFigureMembers<'a>)
        ensures
            r.are_of(crate::json::json(*item)),
    {
        PerpsFigureMembers {
            symbol: value_member(item, "symbol"),
            last_price: value_member(item, "lastPrice"),
            rise_fall_rate: value_member(item, "riseFallRate"),
            volume_24: value_member(item, "volume24"),
        }
    }

    /// Reads an item of the list. The numbers are handed in as they were read.
        /// The row holds what the item has under the keys, and the numbers that go with it.
    pub open spec fn is_read(
        self,
        item: crate::json::JsonView,
        market: Option<MarketKind>,
        last_price: Option<Bits64>,
        rise_fall_rate: Option<Bits32>,
        volume_24: Option<Bits64>,
    ) -> bool {
        &&& crate::text::text_view(self.symbol) == item.member("symbol"@).as_text()
        &&& self.market == market
        &&& self.last_price == last_price
        &&& self.rise_fall_rate == rise_fall_rate
        &&& self.volume_24 == volume_24
    }

pub fn from_value(
        item: &Value,
        market: Option<MarketKind>,
        last_price: Option<Bits64>,
        rise_fall_rate: Option<Bits32>,
        volume_24: Option<Bits64>,
    ) -> (r: PerpsFigures)
        ensures
            r.is_read(crate::json::json(*item), market, last_price, rise_fall_rate, volume_24),
    {
        PerpsFigures {
            symbol: text_member(item, "symbol"),
            market,
            last_price,
            rise_fall_rate,
            volume_24,
        }
    }
}

/// What figures of contracts are read by: the markets asked for, and the sizes of contracts
/// in double precision, as far as they are known.
pub struct PerpsScope {
    pub markets: Vec<MarketKind>,
    pub contract_sizes: Option<TickerMap<Bits64>>,
}

impl PerpsScope {
    /// The size of a contract.
    pub open spec fn size_of(self, ticker: crate::ticker::TickerView) -> Option<Bits64> {
        match self.contract_sizes {
            Some(sizes) => if sizes@.contains_key(ticker) {
                Some(sizes@[ticker])
            } else {
                None
            },
            None => None,
        }
    }

    fn contract_size(&self, ticker: &Ticker) -> (r: Option<Bits64>)
        requires
            self.contract_sizes matches Some(sizes) ==> sizes.well_formed(),
        ensures
            r == self.size_of(ticker@),
    {
        match &self.contract_sizes {
            Some(sizes) => match sizes.get(ticker) {
                Some(size) => Some(*size),
                None => None,
            },
            None => None,
        }
    }
}

impl ListRow for PerpsFigures {
    type Figure = DailyFigures;

    type Scope = PerpsScope;

    open spec fn ready(scope: PerpsScope) -> bool {
        scope.contract_sizes matches Some(sizes) ==> sizes.well_formed()
    }

    /// A contract of a market that is asked for is listed, where its size is known. Inverse
    /// contracts are sized in the quote currency, linear ones in the base currency. The list
    /// fails where a number is missing.
    open spec fn outcome(&self, scope: PerpsScope) -> crate::listing::RowOutcomeView<
        DailyFigures,
    > {
        match crate::text::text_view(self.symbol) {
            None => fails_with("Symbol not found"@),
            Some(symbol) => match self.market {
                None => crate::listing::RowOutcomeView::Skip,
                Some(market) => {
                    let ticker = crate::ticker::TickerView {
                        symbol,
                        exchange: exchange_of_market(market),
                    };
                    if !scope.markets@.contains(market) || !Exchange::symbol_supported(symbol)
                        || scope.size_of(ticker) is None {
                        crate::listing::RowOutcomeView::Skip
                    } else if self.last_price is None {
                        fails_with("Last price not found"@)
                    } else if self.rise_fall_rate is None {
                        fails_with("Missing riseFallRate"@)
                    } else if self.volume_24 is None {
                        fails_with("Missing volume24"@)
                    } else {
                        let count = self.volume_24->0;
                        let size = scope.size_of(ticker)->0;
                        crate::listing::RowOutcomeView::Keep(
                            ticker,
                            DailyFigures {
                                last_price: self.last_price->0,
                                price_change: PriceChange::Ratio(self.rise_fall_rate->0),
                                volume: if market == MarketKind::InversePerps {
                                    DailyVolume::QuoteContracts { count, size }
                                } else {
                                    DailyVolume::BaseContracts { count, size }
                                },
                            },
                        )
                    }
                },
            },
        }
    }

    fn read(&self, scope: &PerpsScope) -> (r: RowOutcome<DailyFigures>) {
        let symbol = match &self.symbol {
            Some(symbol) => symbol.as_str(),
            None => {
                return parse_failure("Symbol not found");
            },
        };
        let perps_market = match self.market {
            Some(perps_market) => perps_market,
            None => {
                return RowOutcome::Skip;
            },
        };
        if !has_market(&scope.markets, perps_market) {
            return RowOutcome::Skip;
        }
        let exchange = exchange_from_market_type(perps_market);
        if !exchange.is_symbol_supported(symbol) {
            return RowOutcome::Skip;
        }
        let ticker = Ticker::new(symbol, exchange);
        let size = match scope.contract_size(&ticker) {
            Some(size) => size,
            None => {
                return RowOutcome::Skip;
            },
        };
        let last_price = match self.last_price {
            Some(last_price) => last_price,
            None => {
                return parse_failure("Last price not found");
            },
        };
        let rise_fall_rate = match self.rise_fall_rate {
            Some(rise_fall_rate) => rise_fall_rate,
            None => {
                return parse_failure("Missing riseFallRate");
            },
        };
        let count = match self.volume_24 {
            Some(count) => count,
            None => {
                return parse_failure("Missing volume24");
            },
        };
        let volume = if perps_market == MarketKind::InversePerps {
            DailyVolume::QuoteContracts { count, size }
        } else {
            DailyVolume::BaseContracts { count, size }
        };
        RowOutcome::Keep(
            ticker,
            DailyFigures { last_price, price_change: PriceChange::Ratio(rise_fall_rate), volume },
        )
    }
}

/// The part of a reply that lists tickers.
pub open spec fn listed_in(
    document: crate::json::JsonView,
    endpoint: Endpoint,
) -> crate::json::JsonView {
    match endpoint {
        Endpoint::Spot => document.member("symbols"@),
        Endpoint::Perps => document.member("data"@),
    }
}

/// What is said of a reply that lists no tickers.
pub open spec fn no_list_text(endpoint: Endpoint) -> Seq<char> {
    match endpoint {
        Endpoint::Spot => "Missing symbols array"@,
        Endpoint::Perps => "Result list is not an array"@,
    }
}

/// The part of a reply that lists figures.
pub open spec fn figures_in(
    document: crate::json::JsonView,
    endpoint: Endpoint,
) -> crate::json::JsonView {
    match endpoint {
        Endpoint::Spot => document,
        Endpoint::Perps => document.member("data"@),
    }
}

/// The list of tickers in a reply: under `symbols` for spot pairs, under `data` for contracts.
pub fn metadata_list<'a>(document: &'a Value, endpoint: Endpoint) -> (r: Result<
    &'a Vec<Value>,
    AdapterError,
>)
    ensures
        crate::json::is_list_of(
            r,
            listed_in(crate::json::json(*document), endpoint),
            no_list_text(endpoint),
        ),
{
    match endpoint {
        Endpoint::Spot => list_member(document, "symbols", "Missing symbols array"),
        Endpoint::Perps => list_member(document, "data", "Result list is not an array"),
    }
}

/// The list of figures in a reply: the reply itself for spot pairs, `data` for contracts.
pub fn stats_list<'a>(document: &'a Value, endpoint: Endpoint) -> (r: Result<
    &'a Vec<Value>,
    AdapterError,
>)
    ensures
        crate::json::is_list_of(
            r,
            figures_in(crate::json::json(*document), endpoint),
            "Data is not an array"@,
        ),
{
    match endpoint {
        Endpoint::Spot => document_list(document, "Data is not an array"),
        Endpoint::Perps => list_member(document, "data", "Data is not an array"),
    }
}

pub open spec fn klines_url_spec(
    base: Seq<char>,
    symbol: Seq<char>,
    market: MarketKind,
    interval: Seq<char>,
    range: Option<(UnixMs, UnixMs)>,
) -> Seq<char> {
    let symbol = crate::text::uppercase(symbol);
    match market {
        MarketKind::Spot => {
            let url = base + "/v3/klines?symbol="@ + symbol + "&interval="@ + interval;
            match range {
                Some((start, end)) => url + "&startTime="@ + crate::text::decimal(start.0 as nat)
                    + "&endTime="@ + crate::text::decimal(end.0 as nat),
                None => url,
            }
        },
        _ => {
            let url = base + "/v1/contract/kline/"@ + symbol + "?interval="@ + interval;
            match range {
                Some((start, end)) => url + "&start="@ + crate::text::decimal(
                    start.0 as nat / 1000,
                ) + "&end="@ + crate::text::decimal(end.0 as nat / 1000),
                None => url,
            }
        },
    }
}

/// Where candles are, below the address of the interface. `interval` is the name of the
/// interval at the venue; an error where it has none. Contracts take a range in seconds.
pub fn klines_url(
    base: &str,
    ticker_info: &TickerInfo,
    timeframe: Timeframe,
    interval: Option<&str>,
    range: Option<(UnixMs, UnixMs)>,
) -> (r: Result<String, AdapterError>)
    ensures
        match r {
            Ok(url) => interval matches Some(name) && url@ == klines_url_spec(
                base@,
                ticker_info@.ticker.symbol,
                ticker_info@.ticker.exchange.market_spec(),
                name@,
                range,
            ),
            Err(e) => interval is None && e@ == crate::error::AdapterErrorView::InvalidRequest(
                "Unsupported MEXC kline timeframe "@ + timeframe.label_spec() + " for "@
                    + ticker_info@.ticker.exchange.market_spec().label_spec(),
            ),
        },
{
    let (symbol, market_type) = ticker_info.ticker.to_full_symbol_and_type();
    let interval = match interval {
        Some(interval) => interval,
        None => {
            let mut message = "Unsupported MEXC kline timeframe ".to_string();
            message.append(timeframe.label());
            message.append(" for ");
            message.append(market_type.label());
            return Err(AdapterError::InvalidRequest(message));
        },
    };
    let symbol = str_to_uppercase(symbol.as_str());
    let mut url = base.to_string();
    match market_type {
        MarketKind::Spot => {
            url.append("/v3/klines?symbol=");
            url.append(symbol.as_str());
            url.append("&interval=");
            url.append(interval);
            if let Some((start, end)) = range {
                url.append("&startTime=");
                push_decimal(&mut url, start.0);
                url.append("&endTime=");
                push_decimal(&mut url, end.0);
            }
        },
        MarketKind::LinearPerps | MarketKind::InversePerps => {
            url.append("/v1/contract/kline/");
            url.append(symbol.as_str());
            url.append("?interval=");
            url.append(interval);
            if let Some((start, end)) = range {
                url.append("&start=");
                push_decimal(&mut url, start.0 / 1000);
                url.append("&end=");
                push_decimal(&mut url, end.0 / 1000);
            }
        },
    }
    Ok(url)
}

/// A candle of a spot pair as the venue sends it.
#[derive(Debug, Clone, Copy, PartialEq, Eq, Structural)]
pub struct KlineSpot {
    pub open_ts: u64,
    pub open: Bits64,
    pub high: Bits64,
    pub low: Bits64,
    pub close: Bits64,
    pub vol: Bits64,
    pub close_ts: u64,
    pub asset_vol: Bits64,
}

impl KlineSpot {
    pub open spec fn candle_spec(self) -> Candle {
        Candle {
            time: self.open_ts,
            open: self.open,
            high: self.high,
            low: self.low,
            close: self.close,
            volume: self.vol,
        }
    }
}

/// The candles of a spot pair, in the order of the reply.
pub fn spot_klines(rows: &Vec<KlineSpot>) -> (r: Vec<Candle>)
    ensures
        r@ == rows@.map_values(|row: KlineSpot| row.candle_spec()),
{
    let mut out: Vec<Candle> = Vec::new();
    let mut i: usize = 0;
    while i < rows.len()
        invariant
            i <= rows@.len(),
            out@ == rows@.take(i as int).map_values(|row: KlineSpot| row.candle_spec()),
        decreases rows@.len() - i,
    {
        let row = rows[i];
        out.push(
            Candle {
                time: row.open_ts,
                open: row.open,
                high: row.high,
                low: row.low,
                close: row.close,
                volume: row.vol,
            },
        );
        assert(rows@.take(i + 1) == rows@.take(i as int).push(row));
        i += 1;
    }
    assert(rows@.take(rows@.len() as int) == rows@);
    out
}

/// The candles of a contract as the venue sends them: a column for each part, each cell as
/// far as it is a number.
pub struct PerpsColumns {
    pub time: Vec<Option<u64>>,
    pub open: Vec<Option<Bits64>>,
    pub high: Vec<Option<Bits64>>,
    pub low: Vec<Option<Bits64>>,
    pub close: Vec<Option<Bits64>>,
    pub amount: Vec<Option<Bits64>>,
    pub volume: Vec<Option<Bits64>>,
}

pub open spec fn doubles_in(items: Seq<crate::json::JsonView>) -> Seq<Option<Bits64>> {
    items.map_values(|item: crate::json::JsonView| item.as_double())
}

pub open spec fn times_in(items: Seq<crate::json::JsonView>) -> Seq<Option<u64>> {
    items.map_values(|item: crate::json::JsonView| item.as_u64())
}

fn read_doubles(items: &Vec<Value>) -> (r: Vec<Option<Bits64>>)
    ensures
        r@ == doubles_in(crate::json::json_list(items@)),
{
    let mut out: Vec<Option<Bits64>> = Vec::new();
    let mut i: usize = 0;
    while i < items.len()
        invariant
            i <= items@.len(),
            out@.len() == i,
            forall|k: int|
                0 <= k < i ==> #[trigger] out@[k] == crate::json::json(items@[k]).as_double(),
        decreases items@.len() - i,
    {
        out.push(value_as_double(&items[i]));
        i += 1;
    }
    assert(out@ =~= doubles_in(crate::json::json_list(items@)));
    out
}

fn read_times(items: &Vec<Value>) -> (r: Vec<Option<u64>>)
    ensures
        r@ == times_in(crate::json::json_list(items@)),
{
    let mut out: Vec<Option<u64>> = Vec::new();
    let mut i: usize = 0;
    while i < items.len()
        invariant
            i <= items@.len(),
            out@.len() == i,
            forall|k: int|
                0 <= k < i ==> #[trigger] out@[k] == crate::json::json(items@[k]).as_u64(),
        decreases items@.len() - i,
    {
        out.push(value_as_u64(&items[i]));
        i += 1;
    }
    assert(out@ =~= times_in(crate::json::json_list(items@)));
    out
}

/// The message about the first column that candles lack.
pub open spec fn missing_column(data: crate::json::JsonView) -> Option<Seq<char>> {
    if data.member("time"@).as_items() is None {
        Some("Time array not found"@)
    } else if data.member("open"@).as_items() is None {
        Some("Open array not found"@)
    } else if data.member("high"@).as_items() is None {
        Some("High array not found"@)
    } else if data.member("low"@).as_items() is None {
        Some("Low array not found"@)
    } else if data.member("close"@).as_items() is None {
        Some("Close array not found"@)
    } else if data.member("amount"@).as_items() is None {
        Some("Amount array not found"@)
    } else if data.member("vol"@).as_items() is None {
        Some("Vol array not found"@)
    } else {
        None
    }
}

fn read_column(data: &Value, key: &str, message: &str) -> (r: Result<
    Vec<Option<Bits64>>,
    AdapterError,
>)
    ensures
        match r {
            Ok(column) => crate::json::json(*data).member(key@).as_items() matches Some(items)
                && column@ == doubles_in(items),
            Err(e) => crate::json::json(*data).member(key@).as_items() is None && e@
                == crate::error::AdapterErrorView::ParseError(message@),
        },
{
    match list_member(data, key, message) {
        Ok(items) => Ok(read_doubles(items)),
        Err(error) => Err(error),
    }
}

impl PerpsColumns {
    /// The columns hold what the data has under their names.
    pub open spec fn holds(self, data: crate::json::JsonView) -> bool {
        &&& data.member("time"@).as_items() matches Some(items) && self.time@ == times_in(items)
        &&& data.member("open"@).as_items() matches Some(items) && self.open@ == doubles_in(items)
        &&& data.member("high"@).as_items() matches Some(items) && self.high@ == doubles_in(items)
        &&& data.member("low"@).as_items() matches Some(items) && self.low@ == doubles_in(items)
        &&& data.member("close"@).as_items() matches Some(items) && self.close@ == doubles_in(items)
        &&& data.member("amount"@).as_items() matches Some(items) && self.amount@ == doubles_in(
            items,
        )
        &&& data.member("vol"@).as_items() matches Some(items) && self.volume@ == doubles_in(items)
    }

    /// Reads the columns; an error for the first that is missing.
    pub fn from_value(data: &Value) -> (r: Result<PerpsColumns, AdapterError>)
        ensures
            match r {
                Ok(columns) => missing_column(crate::json::json(*data)) is None && columns.holds(
                    crate::json::json(*data),
                ),
                Err(e) => missing_column(crate::json::json(*data)) matches Some(message) && e@
                    == crate::error::AdapterErrorView::ParseError(message),
            },
    {
        let time = match list_member(data, "time", "Time array not found") {
            Ok(items) => read_times(items),
            Err(error) => {
                return Err(error);
            },
        };
        let open = match read_column(data, "open", "Open array not found") {
            Ok(column) => column,
            Err(error) => {
                return Err(error);
            },
        };
        let high = match read_column(data, "high", "High array not found") {
            Ok(column) => column,
            Err(error) => {
                return Err(error);
            },
        };
        let low = match read_column(data, "low", "Low array not found") {
            Ok(column) => column,
            Err(error) => {
                return Err(error);
            },
        };
        let close = match read_column(data, "close", "Close array not found") {
            Ok(column) => column,
            Err(error) => {
                return Err(error);
            },
        };
        let amount = match read_column(data, "amount", "Amount array not found") {
            Ok(column) => column,
            Err(error) => {
                return Err(error);
            },
        };
        let volume = match read_column(data, "vol", "Vol array not found") {
            Ok(column) => column,
            Err(error) => {
                return Err(error);
            },
        };
        Ok(PerpsColumns { time, open, high, low, close, amount, volume })
    }
}

/// What a row across the columns gives: a candle, the message about the first cell that is no
/// number, or nothing, where a column ends above it or its time is beyond what can be told.
pub enum RowRead {
    Candle(Candle),
    Missing(&'static str),
    Beyond,
}

pub enum RowReadView {
    Candle(Candle),
    Missing(Seq<char>),
    Beyond,
}

impl View for RowRead {
    type V = RowReadView;

    open spec fn view(&self) -> RowReadView {
        match *self {
            RowRead::Candle(candle) => RowReadView::Candle(candle),
            RowRead::Missing(message) => RowReadView::Missing(message@),
            RowRead::Beyond => RowReadView::Beyond,
        }
    }
}

/// What is wrong with a cell, if anything.
pub open spec fn cell_trouble(column: Seq<Option<Bits64>>, i: int, message: Seq<char>) -> Option<
    RowReadView,
> {
    if i >= column.len() {
        Some(RowReadView::Beyond)
    } else if column[i] is None {
        Some(RowReadView::Missing(message))
    } else {
        None
    }
}

fn read_cell(column: &Vec<Option<Bits64>>, i: usize, message: &'static str) -> (r: Result<
    Bits64,
    RowRead,
>)
    ensures
        match r {
            Ok(bits) => cell_trouble(column@, i as int, message@) is None && column@[i as int]
                == Some(bits),
            Err(trouble) => cell_trouble(column@, i as int, message@) == Some(trouble@),
        },
{
    if i >= column.len() {
        return Err(RowRead::Beyond);
    }
    match column[i] {
        Some(bits) => Ok(bits),
        None => Err(RowRead::Missing(message)),
    }
}

impl PerpsColumns {
    /// The first trouble with a row that has a time.
    pub open spec fn trouble_after_time(self, i: int) -> Option<RowReadView> {
        let open = cell_trouble(self.open@, i, "Open value not found"@);
        let high = cell_trouble(self.high@, i, "High value not found"@);
        let low = cell_trouble(self.low@, i, "Low value not found"@);
        let close = cell_trouble(self.close@, i, "Close value not found"@);
        let amount = cell_trouble(self.amount@, i, "Amount value not found"@);
        let volume = cell_trouble(self.volume@, i, "Vol value not found"@);
        if open is Some {
            open
        } else if high is Some {
            high
        } else if low is Some {
            low
        } else if close is Some {
            close
        } else if amount is Some {
            amount
        } else {
            volume
        }
    }

    /// The row at `i`: times are in seconds.
    pub open spec fn row(self, i: int) -> RowReadView {
        match self.time@[i] {
            None => RowReadView::Missing("Time value not found"@),
            Some(seconds) => if seconds * 1000 > u64::MAX {
                RowReadView::Beyond
            } else {
                match self.trouble_after_time(i) {
                    Some(trouble) => trouble,
                    None => RowReadView::Candle(
                        Candle {
                            time: (seconds * 1000) as u64,
                            open: self.open@[i]->0,
                            high: self.high@[i]->0,
                            low: self.low@[i]->0,
                            close: self.close@[i]->0,
                            volume: self.volume@[i]->0,
                        },
                    ),
                }
            },
        }
    }

    fn read_row(&self, i: usize) -> (r: RowRead)
        requires
            i < self.time@.len(),
        ensures
            r@ == self.row(i as int),
    {
        let seconds = match self.time[i] {
            Some(seconds) => seconds,
            None => {
                return RowRead::Missing("Time value not found");
            },
        };
        let time = match seconds.checked_mul(1000) {
            Some(time) => time,
            None => {
                return RowRead::Beyond;
            },
        };
        let open = match read_cell(&self.open, i, "Open value not found") {
            Ok(bits) => bits,
            Err(trouble) => {
                return trouble;
            },
        };
        let high = match read_cell(&self.high, i, "High value not found") {
            Ok(bits) => bits,
            Err(trouble) => {
                return trouble;
            },
        };
        let low = match read_cell(&self.low, i, "Low value not found") {
            Ok(bits) => bits,
            Err(trouble) => {
                return trouble;
            },
        };
        let close = match read_cell(&self.close, i, "Close value not found") {
            Ok(bits) => bits,
            Err(trouble) => {
                return trouble;
            },
        };
        let _amount = match read_cell(&self.amount, i, "Amount value not found") {
            Ok(bits) => bits,
            Err(trouble) => {
                return trouble;
            },
        };
        let volume = match read_cell(&self.volume, i, "Vol value not found") {
            Ok(bits) => bits,
            Err(trouble) => {
                return trouble;
            },
        };
        RowRead::Candle(Candle { time, open, high, low, close, volume })
    }

    /// The rows above `i` all make candles.
    pub open spec fn candles_above(self, i: int) -> bool {
        forall|j: int| 0 <= j < i ==> #[trigger] self.row(j) is Candle
    }

    /// No column ends, and no time is too large, before a row says what is wrong.
    pub open spec fn readable(self) -> bool {
        forall|i: int|
            0 <= i < self.time@.len() && self.candles_above(i) ==> !(#[trigger] self.row(i)
                is Beyond)
    }

    /// Whether the candles can be read, or it can be said what is wrong with them.
    pub fn is_readable(&self) -> (r: bool)
        ensures
            r == self.readable(),
    {
        let mut i: usize = 0;
        while i < self.time.len()
            invariant
                i <= self.time@.len(),
                self.candles_above(i as int),
            decreases self.time@.len() - i,
        {
            match self.read_row(i) {
                RowRead::Candle(_) => {
                    assert(self.candles_above(i + 1)) by {
                        assert(self.row(i as int) is Candle);
                    }
                },
                RowRead::Missing(_) => {
                    assert forall|k: int|
                        0 <= k < self.time@.len() && self.candles_above(k) implies !(
                    #[trigger] self.row(k) is Beyond) by {
                        if k > i {
                            assert(self.row(i as int) is Candle);
                        }
                    }
                    return true;
                },
                RowRead::Beyond => {
                    assert(self.row(i as int) is Beyond);
                    return false;
                },
            }
            i += 1;
        }
        true
    }

    /// The candles of the rows, in their order; or the message about the first cell that is no
    /// number.
    pub open spec fn are_klines(
        self,
        r: Result<Seq<Candle>, crate::error::AdapterErrorView>,
    ) -> bool {
        match r {
            Ok(candles) => candles.len() == self.time@.len() && forall|i: int|
                0 <= i < candles.len() ==> #[trigger] self.row(i) == RowReadView::Candle(
                    candles[i],
                ),
            Err(e) => exists|i: int|
                0 <= i < self.time@.len() && self.candles_above(i) && (#[trigger] self.row(
                    i,
                ) matches RowReadView::Missing(message) && e
                    == crate::error::AdapterErrorView::ParseError(message)),
        }
    }

    /// The candles of a contract, in the order of the reply; an error for the first cell
    /// that is no number.
    pub fn perps_klines(&self) -> (r: Result<Vec<Candle>, AdapterError>)
        requires
            self.readable(),
        ensures
            self.are_klines(
                match r {
                    Ok(candles) => Ok(candles@),
                    Err(e) => Err(e@),
                },
            ),
    {
        let mut out: Vec<Candle> = Vec::new();
        let mut i: usize = 0;
        while i < self.time.len()
            invariant
                self.readable(),
                i <= self.time@.len(),
                out@.len() == i,
                self.candles_above(i as int),
                forall|k: int|
                    0 <= k < i ==> #[trigger] self.row(k) == RowReadView::Candle(out@[k]),
            decreases self.time@.len() - i,
        {
            match self.read_row(i) {
                RowRead::Candle(candle) => {
                    let ghost before = out@;
                    out.push(candle);
                    assert forall|k: int| 0 <= k < i + 1 implies #[trigger] self.row(k)
                        == RowReadView::Candle(out@[k]) by {
                        if k < i {
                            assert(out@[k] == before[k]);
                        }
                    }
                },
                RowRead::Missing(message) => {
                    assert(self.row(i as int) == RowReadView::Missing(message@));
                    return Err(AdapterError::parse(message));
                },
                RowRead::Beyond => {
                    assert(self.row(i as int) is Beyond);
                    assert(false);
                },
            }
            i += 1;
        }
        Ok(out)
    }
}

/// The cell of a column is there and is a number.
pub open spec fn has_number(column: Seq<Option<Bits64>>, i: int) -> bool {
    0 <= i < column.len() && column[i] is Some
}

/// Where a contract has candles there is one for each time, and each part of it is the cell of
/// its own column; the time is that of the row, in milliseconds in place of seconds. Where it
/// has none, a row lacks a number that the rows above it have.
pub proof fn law_candles_are_the_rows_of_the_columns(
    columns: PerpsColumns,
    r: Result<Seq<Candle>, crate::error::AdapterErrorView>,
    i: int,
)
    requires
        columns.are_klines(r),
        0 <= i < columns.time@.len(),
    ensures
        match r {
            Ok(candles) => {
                &&& candles.len() == columns.time@.len()
                &&& columns.time@[i] matches Some(seconds) && candles[i].time == 1000 * seconds
                &&& i < columns.open@.len() && columns.open@[i] == Some(candles[i].open)
                &&& i < columns.high@.len() && columns.high@[i] == Some(candles[i].high)
                &&& i < columns.low@.len() && columns.low@[i] == Some(candles[i].low)
                &&& i < columns.close@.len() && columns.close@[i] == Some(candles[i].close)
                &&& i < columns.volume@.len() && columns.volume@[i] == Some(candles[i].volume)
                &&& has_number(columns.amount@, i)
            },
            Err(_) => exists|k: int|
                0 <= k < columns.time@.len() && !(#[trigger] columns.time@[k] is Some && has_number(
                    columns.open@,
                    k,
                ) && has_number(columns.high@, k) && has_number(columns.low@, k) && has_number(
                    columns.close@,
                    k,
                ) && has_number(columns.amount@, k) && has_number(columns.volume@, k)),
        },
{
    match r {
        Ok(candles) => {
            assert(columns.row(i) == RowReadView::Candle(candles[i]));
        },
        Err(e) => {
            let k = choose|k: int|
                0 <= k < columns.time@.len() && columns.candles_above(k) && (#[trigger] columns.row(
                    k,
                ) matches RowReadView::Missing(message) && e
                    == crate::error::AdapterErrorView::ParseError(message));
            assert(columns.row(k) is Missing);
            let time = columns.time@[k];
        },
    }
}

/// The candles of a contract are those of the reply: the part of the candle at a position is
/// the number at that position of the list that the reply has under the name of the part.
pub proof fn law_contract_candles_come_from_the_reply(
    data: crate::json::JsonView,
    columns: PerpsColumns,
    candles: Seq<Candle>,
    i: int,
)
    requires
        columns.holds(data),
        columns.are_klines(Ok(candles)),
        0 <= i < candles.len(),
    ensures
        data.member("time"@).item(i) matches Some(cell) && (cell.as_u64() matches Some(seconds)
            && candles[i].time == 1000 * seconds),
        data.member("open"@).item(i) matches Some(cell) && cell.as_double() == Some(
            candles[i].open,
        ),
        data.member("high"@).item(i) matches Some(cell) && cell.as_double() == Some(
            candles[i].high,
        ),
        data.member("low"@).item(i) matches Some(cell) && cell.as_double() == Some(candles[i].low),
        data.member("close"@).item(i) matches Some(cell) && cell.as_double() == Some(
            candles[i].close,
        ),
        data.member("vol"@).item(i) matches Some(cell) && cell.as_double() == Some(
            candles[i].volume,
        ),
{
    law_candles_are_the_rows_of_the_columns(columns, Ok(candles), i);
    assert(columns.time@[i] == data.member("time"@).as_items()->0[i].as_u64());
    assert(columns.open@[i] == data.member("open"@).as_items()->0[i].as_double());
    assert(columns.high@[i] == data.member("high"@).as_items()->0[i].as_double());
    assert(columns.low@[i] == data.member("low"@).as_items()->0[i].as_double());
    assert(columns.close@[i] == data.member("close"@).as_items()->0[i].as_double());
    assert(columns.volume@[i] == data.member("vol"@).as_items()->0[i].as_double());
}

/// An order book keeps its sides: what was bid stays bid, and what was asked stays asked. It is
/// known by its version and has the time that the venue gave it.
pub proof fn law_an_order_book_keeps_its_sides<O>(data: DepthData<O>)
    ensures
        data.payload().bids == data.bids,
        data.payload().asks == data.asks,
        data.payload().last_update_id == data.version,
        data.payload().time.0 == data.timestamp,
{
}

/// A candle of a spot pair has the time at which it opens, its four prices each in its own
/// place, and the volume in the base currency.
pub proof fn law_spot_candles_keep_their_prices(rows: Seq<KlineSpot>, i: int)
    requires
        0 <= i < rows.len(),
    ensures
        ({
            let candle = rows.map_values(|row: KlineSpot| row.candle_spec())[i];
            &&& candle.time == rows[i].open_ts
            &&& candle.open == rows[i].open
            &&& candle.high == rows[i].high
            &&& candle.low == rows[i].low
            &&& candle.close == rows[i].close
            &&& candle.volume == rows[i].vol
        }),
{
}

/// Addresses of candles: below the address of the interface, for the symbol in capitals and the
/// interval. A range adds its start and its end, in that order, in milliseconds for spot pairs
/// and in whole seconds for contracts; nothing else changes with it.
pub proof fn law_candle_addresses(
    base: Seq<char>,
    symbol: Seq<char>,
    market: MarketKind,
    interval: Seq<char>,
    start: UnixMs,
    end: UnixMs,
)
    ensures
        ({
            let plain = klines_url_spec(base, symbol, market, interval, None);
            let ranged = klines_url_spec(base, symbol, market, interval, Some((start, end)));
            let name = crate::text::uppercase(symbol);
            &&& market is Spot ==> plain == base + "/v3/klines?symbol="@ + name + "&interval="@
                + interval
            &&& market is Spot ==> ranged == plain + ("&startTime="@ + crate::text::decimal(
                start.0 as nat,
            ) + "&endTime="@ + crate::text::decimal(end.0 as nat))
            &&& !(market is Spot) ==> plain == base + "/v1/contract/kline/"@ + name + "?interval="@
                + interval
            &&& !(market is Spot) ==> ranged == plain + ("&start="@ + crate::text::decimal(
                start.0 as nat / 1000,
            ) + "&end="@ + crate::text::decimal(end.0 as nat / 1000))
        }),
{
    let plain = klines_url_spec(base, symbol, market, interval, None);
    let ranged = klines_url_spec(base, symbol, market, interval, Some((start, end)));
    if market is Spot {
        assert(ranged =~= plain + ("&startTime="@ + crate::text::decimal(start.0 as nat)
            + "&endTime="@ + crate::text::decimal(end.0 as nat)));
    } else {
        assert(ranged =~= plain + ("&start="@ + crate::text::decimal(start.0 as nat / 1000)
            + "&end="@ + crate::text::decimal(end.0 as nat / 1000)));
    }
}

/// Spot pairs and contracts are asked for at interfaces of their own, tickers and figures at
/// addresses of their own, and an order book of a thousand levels at that of its contract.
pub proof fn law_addresses_of_the_venue(base: Seq<char>, symbol: Seq<char>)
    ensures
        metadata_path(Endpoint::Spot) == "/v3/exchangeInfo"@,
        metadata_path(Endpoint::Perps) == "/v1/contract/detail"@,
        stats_path(Endpoint::Spot) == "/v3/ticker/24hr"@,
        stats_path(Endpoint::Perps) == "/v1/contract/ticker"@,
        depth_address(base, symbol) == base + "/v1/contract/depth/"@ + symbol + "?limit=1000"@,
{
}

/// A spot pair is listed exactly if its status, where it has one, is `1` or `2`, its symbol can
/// be shown, and its quote currency, where it is given, is a dollar coin. It is listed under
/// its symbol as a spot pair, with the number of decimal places as its price step and the
/// size as its smallest quantity, or without sizes where one of the two is missing. The list
/// fails exactly at a pair of such a status that has no symbol.
pub proof fn law_listed_spot_pairs(row: SpotSymbol, scope: Vec<MarketKind>)
    ensures
        ({
            let status = crate::text::text_view(row.status);
            let quote = crate::text::text_view(row.quote_asset);
            let traded = status is None || status == Some("1"@) || status == Some("2"@);
            let dollars = quote is None || quote == Some("USDT"@) || quote == Some("USDC"@)
                || quote == Some("USD"@);
            match crate::text::text_view(row.symbol) {
                None => row.outcome(scope) is Fail <==> traded,
                Some(symbol) => {
                    &&& !(row.outcome(scope) is Fail)
                    &&& row.outcome(scope) is Unsupported <==> traded
                        && !Exchange::symbol_supported(symbol)
                    &&& match row.outcome(scope) {
                        crate::listing::RowOutcomeView::Keep(ticker, listing) => {
                            &&& traded && dollars && Exchange::symbol_supported(symbol)
                            &&& ticker.symbol == symbol && ticker.exchange == Exchange::MexcSpot
                            &&& match listing {
                                Some(sizes) => row.quote_asset_precision matches Some(places)
                                    && sizes.min_ticksize == TickSize::DecimalPlaces(places) && (
                                row.base_size matches Some(size) && sizes.min_qty == MinQty::Value(
                                    size,
                                )) && sizes.contract_size is None,
                                None => row.quote_asset_precision is None || row.base_size is None,
                            }
                        },
                        _ => !(traded && dollars && Exchange::symbol_supported(symbol)),
                    }
                },
            }
        }),
{
}

/// A contract is listed exactly if it is open, quoted in a dollar coin, settled in its base or
/// its quote currency, of a market that is asked for, and its symbol can be shown. Settled in
/// its base currency it is an inverse contract, and else a linear one. Its price step is the
/// unit of its price, its smallest quantity is counted in contracts, and its size is kept;
/// where one of the three is missing it is listed without sizes.
pub proof fn law_listed_contracts(row: Contract, scope: Vec<MarketKind>)
    ensures
        match row.outcome(scope) {
            crate::listing::RowOutcomeView::Keep(ticker, listing) => {
                &&& row.state matches Some(state) ==> state == 0
                &&& crate::text::text_view(row.symbol) == Some(ticker.symbol)
                &&& Exchange::symbol_supported(ticker.symbol)
                &&& crate::text::text_view(row.quote_coin) matches Some(quote) && (quote
                    == "USDT"@ || quote == "USD"@ || quote == "USDC"@)
                &&& crate::text::text_view(row.settle_coin) is Some
                &&& crate::text::text_view(row.base_coin) is Some
                &&& if crate::text::text_view(row.settle_coin) == crate::text::text_view(
                    row.base_coin,
                ) {
                    ticker.exchange == Exchange::MexcInverse && scope@.contains(
                        MarketKind::InversePerps,
                    )
                } else {
                    ticker.exchange == Exchange::MexcLinear && scope@.contains(
                        MarketKind::LinearPerps,
                    ) && crate::text::text_view(row.settle_coin) == crate::text::text_view(
                        row.quote_coin,
                    )
                }
                &&& match listing {
                    Some(sizes) => row.price_unit matches Some(unit) && sizes.min_ticksize
                        == TickSize::Value(unit) && (row.min_volume matches Some(volume)
                        && sizes.min_qty == MinQty::Contracts(volume)) && sizes.contract_size
                        == row.contract_size && row.contract_size is Some,
                    None => row.price_unit is None || row.min_volume is None || row.contract_size
                        is None,
                }
            },
            crate::listing::RowOutcomeView::Unsupported(ticker) => crate::text::text_view(
                row.symbol,
            ) == Some(ticker.symbol) && !Exchange::symbol_supported(ticker.symbol),
            crate::listing::RowOutcomeView::Fail(_) => !(row.state matches Some(state) && state
                != 0) && (crate::text::text_view(row.symbol) is None || crate::text::text_view(
                row.quote_coin,
            ) is None || crate::text::text_view(row.settle_coin) is None || crate::text::text_view(
                row.base_coin,
            ) is None || (crate::text::text_view(row.settle_coin) != crate::text::text_view(
                row.base_coin,
            ) && crate::text::text_view(row.settle_coin) != crate::text::text_view(
                row.quote_coin,
            ))),
            crate::listing::RowOutcomeView::Skip => {
                ||| row.state matches Some(state) && state != 0
                ||| !is_dollars(crate::text::text_view(row.quote_coin))
                ||| crate::text::text_view(row.settle_coin) == crate::text::text_view(
                    row.base_coin,
                ) && !scope@.contains(MarketKind::InversePerps)
                ||| crate::text::text_view(row.settle_coin) != crate::text::text_view(
                    row.base_coin,
                ) && !scope@.contains(MarketKind::LinearPerps)
            },
        },
{
}

/// One of the coins that stand for a dollar.
pub open spec fn is_dollars(coin: Option<Seq<char>>) -> bool {
    coin == Some("USDT"@) || coin == Some("USD"@) || coin == Some("USDC"@)
}

/// The figures of a spot pair: the last price, the change as the venue gives it, and what was
/// traded in the quote currency, or else in the base currency. A pair is passed over only
/// where its symbol cannot be shown or does not end in a dollar coin, and the list fails only
/// where its symbol, or a number of a pair that is shown, is missing.
pub proof fn law_figures_of_spot_pairs(row: SpotFigures, scope: Vec<MarketKind>)
    ensures
        match (row.outcome(scope), crate::text::text_view(row.symbol)) {
            (crate::listing::RowOutcomeView::Keep(ticker, figures), Some(symbol)) => {
                &&& ticker.symbol == symbol && ticker.exchange == Exchange::MexcSpot
                &&& row.last_price == Some(figures.last_price)
                &&& row.price_change_percent matches Some(change) && figures.price_change
                    == PriceChange::Ratio(change)
                &&& match row.quote_volume {
                    Some(amount) => figures.volume == DailyVolume::Quote(amount)
                        && row.volume is Some,
                    None => row.volume matches Some(amount) && figures.volume == DailyVolume::Base(
                        amount,
                    ),
                }
                &&& Exchange::symbol_supported(symbol)
                &&& crate::text::has_suffix(symbol, "USDT"@) || crate::text::has_suffix(
                    symbol,
                    "USD"@,
                ) || crate::text::has_suffix(symbol, "USDC"@)
            },
            (crate::listing::RowOutcomeView::Keep(..), None) => false,
            (crate::listing::RowOutcomeView::Unsupported(_), _) => false,
            (crate::listing::RowOutcomeView::Skip, Some(symbol)) => !Exchange::symbol_supported(
                symbol,
            ) || !(crate::text::has_suffix(symbol, "USDT"@) || crate::text::has_suffix(
                symbol,
                "USD"@,
            ) || crate::text::has_suffix(symbol, "USDC"@)),
            (crate::listing::RowOutcomeView::Skip, None) => false,
            (crate::listing::RowOutcomeView::Fail(_), Some(_)) => row.last_price is None
                || row.price_change_percent is None || row.volume is None,
            (crate::listing::RowOutcomeView::Fail(_), None) => true,
        },
{
}

/// The figures of a contract: the last price, the change as the venue gives it, and the number
/// of contracts with their size, which is in the quote currency for inverse contracts and in
/// the base currency for linear ones. A contract is passed over only where its market is not
/// known or not asked for, its symbol cannot be shown, or its size is not known; and the list
/// fails only where its symbol, or a number of a contract that is shown, is missing.
pub proof fn law_figures_of_contracts(row: PerpsFigures, scope: PerpsScope)
    ensures
        match (row.outcome(scope), crate::text::text_view(row.symbol)) {
            (crate::listing::RowOutcomeView::Keep(ticker, figures), Some(symbol)) => {
                &&& ticker.symbol == symbol && Exchange::symbol_supported(symbol)
                &&& row.market matches Some(market) && scope.markets@.contains(market)
                    && ticker.exchange.market_spec() == market
                &&& ticker.exchange.venue_spec() == crate::market::Venue::Mexc
                &&& row.last_price == Some(figures.last_price)
                &&& row.rise_fall_rate matches Some(change) && figures.price_change
                    == PriceChange::Ratio(change)
                &&& scope.contract_sizes matches Some(sizes) && sizes@.contains_key(ticker)
                &&& row.volume_24 is Some
                &&& ({
                    let count = row.volume_24->0;
                    let size = scope.contract_sizes->0@[ticker];
                    figures.volume == if row.market == Some(MarketKind::InversePerps) {
                        DailyVolume::QuoteContracts { count, size }
                    } else {
                        DailyVolume::BaseContracts { count, size }
                    }
                })
            },
            (crate::listing::RowOutcomeView::Keep(..), None) => false,
            (crate::listing::RowOutcomeView::Unsupported(_), _) => false,
            (crate::listing::RowOutcomeView::Skip, Some(symbol)) => row.market matches Some(market)
                ==> !scope.markets@.contains(market) || !Exchange::symbol_supported(symbol) || !(
            scope.contract_sizes matches Some(sizes) && sizes@.contains_key(
                crate::ticker::TickerView { symbol, exchange: exchange_of_market(market) },
            )),
            (crate::listing::RowOutcomeView::Skip, None) => false,
            (crate::listing::RowOutcomeView::Fail(_), Some(_)) => row.last_price is None
                || row.rise_fall_rate is None || row.volume_24 is None,
            (crate::listing::RowOutcomeView::Fail(_), None) => true,
        },
{
}

/// An exchange of the venue is of the market that it is found for.
pub proof fn law_exchanges_of_the_venue(market: MarketKind)
    ensures
        exchange_of_market(market).venue_spec() == crate::market::Venue::Mexc,
        exchange_of_market(market).market_spec() == market,
{
}

/// Replies list tickers and figures where the venue puts them, and each kind of reply that has
/// no list there is told in its own words.
pub proof fn law_lists_of_replies(
    members: Map<Seq<char>, crate::json::JsonView>,
    items: Seq<crate::json::JsonView>,
)
    ensures
        ({
            let list = crate::json::JsonView::Array(items);
            let spot = crate::json::JsonView::Object(members.insert("symbols"@, list));
            let perps = crate::json::JsonView::Object(members.insert("data"@, list));
            &&& listed_in(spot, Endpoint::Spot) == list
            &&& listed_in(perps, Endpoint::Perps) == list
            &&& figures_in(list, Endpoint::Spot) == list
            &&& figures_in(perps, Endpoint::Perps) == list
        }),
        no_list_text(Endpoint::Spot) == "Missing symbols array"@,
        no_list_text(Endpoint::Perps) == "Result list is not an array"@,
{
}

/// What is listed of a spot pair stands in its item of the reply: the symbol and the decimal
/// places are those of the item, and so are the status and the quote currency that it is
/// listed for.
pub proof fn law_spot_pairs_come_from_the_reply(
    item: crate::json::JsonView,
    row: SpotSymbol,
    base_size: Option<Bits32>,
    scope: Vec<MarketKind>,
)
    requires
        row.is_read(item, base_size),
    ensures
        row.outcome(scope) matches crate::listing::RowOutcomeView::Keep(ticker, listing) ==> {
            let status = item.member("status"@).as_text();
            let quote = item.member("quoteAsset"@).as_text();
            &&& item.member("symbol"@).as_text() == Some(ticker.symbol)
            &&& status is None || status == Some("1"@) || status == Some("2"@)
            &&& quote is None || is_dollars(quote)
            &&& listing matches Some(sizes) ==> item.member("quoteAssetPrecision"@).as_i64() matches Some(
                places,
            ) && sizes.min_ticksize == TickSize::DecimalPlaces(places) && (base_size matches Some(
                size,
            ) && sizes.min_qty == MinQty::Value(size))
        },
        row.outcome(scope) is Fail ==> item.member("symbol"@).as_text() is None,
{
}

/// What is listed of a contract stands in its item of the reply: its symbol and coins are
/// those of the item, and its sizes are read from the members that the venue gives them in.
pub proof fn law_contracts_come_from_the_reply<'a>(
    item: crate::json::JsonView,
    members: ContractMembers<'a>,
    row: Contract,
    min_volume: Option<Bits32>,
    price_unit: Option<Bits32>,
    contract_size: Option<Bits32>,
    scope: Vec<MarketKind>,
)
    requires
        members.are_of(item),
        row.is_read(item, min_volume, price_unit, contract_size),
    ensures
        crate::json::json(*members.min_volume) == item.member("minVol"@),
        crate::json::json(*members.price_unit) == item.member("priceUnit"@),
        crate::json::json(*members.contract_size) == item.member("contractSize"@),
        row.outcome(scope) matches crate::listing::RowOutcomeView::Keep(ticker, listing) ==> {
            let settle = item.member("settleCoin"@).as_text();
            &&& item.member("symbol"@).as_text() == Some(ticker.symbol)
            &&& is_dollars(item.member("quoteCoin"@).as_text())
            &&& settle is Some
            &&& item.member("state"@).as_i64() matches Some(state) ==> state == 0
            &&& ticker.exchange is MexcInverse <==> settle == item.member("baseCoin"@).as_text()
            &&& ticker.exchange is MexcLinear ==> settle == item.member("quoteCoin"@).as_text()
            &&& listing matches Some(sizes) ==> price_unit matches Some(unit) && sizes.min_ticksize
                == TickSize::Value(unit) && sizes.contract_size == contract_size && (
            min_volume matches Some(volume) && sizes.min_qty == MinQty::Contracts(volume))
        },
{
}

/// The list of contracts fails exactly at an open contract that lacks its symbol or its quote
/// coin, or that is quoted in a dollar coin and lacks the coin that it settles in or its base
/// coin, or settles in neither of its coins; and it is said which.
pub proof fn law_failing_contracts(row: Contract, scope: Vec<MarketKind>)
    ensures
        ({
            let closed = row.state matches Some(state) && state != 0;
            let symbol = crate::text::text_view(row.symbol);
            let quote = crate::text::text_view(row.quote_coin);
            let settle = crate::text::text_view(row.settle_coin);
            let base = crate::text::text_view(row.base_coin);
            let wrong: Option<Seq<char>> = if closed {
                None
            } else if symbol is None {
                Some("Missing symbol"@)
            } else if quote is None {
                Some("Missing quoteCoin"@)
            } else if !(quote == Some("USDT"@) || quote == Some("USD"@) || quote == Some("USDC"@)) {
                None
            } else if settle is None {
                Some("Missing settleCoin"@)
            } else if base is None {
                Some("Missing baseCoin"@)
            } else if settle != base && settle != quote {
                Some("Unknown contract type"@)
            } else {
                None
            };
            match row.outcome(scope) {
                crate::listing::RowOutcomeView::Fail(error) => wrong matches Some(message) && error
                    == crate::error::AdapterErrorView::ParseError(message),
                crate::listing::RowOutcomeView::Unsupported(ticker) => wrong is None && !closed && (
                quote == Some("USDT"@) || quote == Some("USD"@) || quote == Some("USDC"@))
                    && scope@.contains(
                    if settle == base {
                        MarketKind::InversePerps
                    } else {
                        MarketKind::LinearPerps
                    },
                ),
                _ => wrong is None,
            }
        }),
{
}

/// The list of figures fails exactly at a row without a symbol, or at one that would be listed
/// and lacks a number; and it is said which. The price comes first, then the change, and then
/// what was traded.
pub proof fn law_failing_figures(
    spot: SpotFigures,
    markets: Vec<MarketKind>,
    perps: PerpsFigures,
    scope: PerpsScope,
)
    ensures
        ({
            let wrong: Option<Seq<char>> = match crate::text::text_view(spot.symbol) {
                None => Some("Symbol not found"@),
                Some(symbol) => if !Exchange::symbol_supported(symbol) || !(
                crate::text::has_suffix(symbol, "USDT"@) || crate::text::has_suffix(symbol, "USD"@)
                    || crate::text::has_suffix(symbol, "USDC"@)) {
                    None
                } else if spot.last_price is None {
                    Some("Last price not found"@)
                } else if spot.price_change_percent is None {
                    Some("Price change percent not found"@)
                } else if spot.volume is None {
                    Some("Volume not found"@)
                } else {
                    None
                },
            };
            match spot.outcome(markets) {
                crate::listing::RowOutcomeView::Fail(error) => wrong matches Some(message) && error
                    == crate::error::AdapterErrorView::ParseError(message),
                _ => wrong is None,
            }
        }),
        ({
            let wrong: Option<Seq<char>> = match (crate::text::text_view(perps.symbol), perps.market) {
                (None, _) => Some("Symbol not found"@),
                (Some(_), None) => None,
                (Some(symbol), Some(market)) => if !scope.markets@.contains(market)
                    || !Exchange::symbol_supported(symbol) || !(
                scope.contract_sizes matches Some(sizes) && sizes@.contains_key(
                    crate::ticker::TickerView { symbol, exchange: exchange_of_market(market) },
                )) {
                    None
                } else if perps.last_price is None {
                    Some("Last price not found"@)
                } else if perps.rise_fall_rate is None {
                    Some("Missing riseFallRate"@)
                } else if perps.volume_24 is None {
                    Some("Missing volume24"@)
                } else {
                    None
                },
            };
            match perps.outcome(scope) {
                crate::listing::RowOutcomeView::Fail(error) => wrong matches Some(message) && error
                    == crate::error::AdapterErrorView::ParseError(message),
                _ => wrong is None,
            }
        }),
{
}

/// The figures of a spot pair, and of a contract, are read from the members that the venue gives
/// them in, and are listed under the symbol of their item.
pub proof fn law_figures_come_from_the_reply<'a>(
    item: crate::json::JsonView,
    spot_members: SpotFigureMembers<'a>,
    spot: SpotFigures,
    last_price: Option<Bits64>,
    change: Option<Bits32>,
    volume: Option<Bits64>,
    quote_volume: Option<Bits64>,
    markets: Vec<MarketKind>,
    perps_members: PerpsFigureMembers<'a>,
    perps: PerpsFigures,
    market: Option<MarketKind>,
    scope: PerpsScope,
)
    requires
        spot_members.are_of(item),
        spot.is_read(item, last_price, change, volume, quote_volume),
        perps_members.are_of(item),
        perps.is_read(item, market, last_price, change, volume),
    ensures
        crate::json::json(*spot_members.last_price) == item.member("lastPrice"@),
        crate::json::json(*spot_members.price_change_percent) == item.member(
            "priceChangePercent"@,
        ),
        crate::json::json(*spot_members.volume) == item.member("volume"@),
        crate::json::json(*spot_members.quote_volume) == item.member("quoteVolume"@),
        spot.outcome(markets) matches crate::listing::RowOutcomeView::Keep(ticker, figures) ==> {
            &&& item.member("symbol"@).as_text() == Some(ticker.symbol)
            &&& last_price == Some(figures.last_price)
            &&& change matches Some(ratio) && figures.price_change == PriceChange::Ratio(ratio)
            &&& quote_volume matches Some(amount) ==> figures.volume == DailyVolume::Quote(amount)
            &&& quote_volume is None ==> (volume matches Some(amount) && figures.volume
                == DailyVolume::Base(amount))
        },
        crate::json::json(*perps_members.symbol) == item.member("symbol"@),
        crate::json::json(*perps_members.last_price) == item.member("lastPrice"@),
        crate::json::json(*perps_members.rise_fall_rate) == item.member("riseFallRate"@),
        crate::json::json(*perps_members.volume_24) == item.member("volume24"@),
        perps.outcome(scope) matches crate::listing::RowOutcomeView::Keep(ticker, figures) ==> {
            &&& item.member("symbol"@).as_text() == Some(ticker.symbol)
            &&& market == Some(ticker.exchange.market_spec())
            &&& last_price == Some(figures.last_price)
            &&& change matches Some(ratio) && figures.price_change == PriceChange::Ratio(ratio)
            &&& match figures.volume {
                DailyVolume::QuoteContracts { count, .. } => volume == Some(count),
                DailyVolume::BaseContracts { count, .. } => volume == Some(count),
                _ => false,
            }
        },
{
}

/// Candles can be read where every column is as long as that of the times and no time is too
/// far off; and where they cannot, a column is shorter or a time is too far off.
pub proof fn law_readable_columns(columns: PerpsColumns)
    ensures
        ({
            let n = columns.time@.len();
            let whole = columns.open@.len() >= n && columns.high@.len() >= n && columns.low@.len()
                >= n && columns.close@.len() >= n && columns.amount@.len() >= n
                && columns.volume@.len() >= n;
            let near = forall|i: int|
                0 <= i < n ==> ((#[trigger] columns.time@[i]) matches Some(seconds) ==> seconds
                    * 1000 <= 18_446_744_073_709_551_615);
            whole && near ==> columns.readable()
        }),
{
    let n = columns.time@.len();
    if columns.open@.len() >= n && columns.high@.len() >= n && columns.low@.len() >= n
        && columns.close@.len() >= n && columns.amount@.len() >= n && columns.volume@.len() >= n && (
    forall|i: int|
        0 <= i < n ==> ((#[trigger] columns.time@[i]) matches Some(seconds) ==> seconds * 1000
            <= 18_446_744_073_709_551_615)) {
        assert forall|i: int|
            0 <= i < columns.time@.len() && columns.candles_above(i) implies !(
        #[trigger] columns.row(i) is Beyond) by {
            let time = columns.time@[i];
        }
    }
}

/// A cell of a row that is no number is told by the name of its column: where the rows above
/// are whole, the error is about the first such cell in the order of the columns.
pub proof fn law_missing_cells_are_named(columns: PerpsColumns, i: int)
    requires
        0 <= i < columns.time@.len(),
        i < columns.open@.len(),
        i < columns.high@.len(),
        i < columns.low@.len(),
        i < columns.close@.len(),
        i < columns.amount@.len(),
        i < columns.volume@.len(),
        columns.time@[i] matches Some(seconds) ==> seconds * 1000 <= 18_446_744_073_709_551_615,
    ensures
        columns.row(i) is Candle <==> columns.time@[i] is Some && columns.open@[i] is Some
            && columns.high@[i] is Some && columns.low@[i] is Some && columns.close@[i] is Some
            && columns.amount@[i] is Some && columns.volume@[i] is Some,
        columns.row(i) matches RowReadView::Missing(message) ==> message == if columns.time@[i]
            is None {
            "Time value not found"@
        } else if columns.open@[i] is None {
            "Open value not found"@
        } else if columns.high@[i] is None {
            "High value not found"@
        } else if columns.low@[i] is None {
            "Low value not found"@
        } else if columns.close@[i] is None {
            "Close value not found"@
        } else if columns.amount@[i] is None {
            "Amount value not found"@
        } else {
            "Vol value not found"@
        },
        !(columns.row(i) is Beyond),
{
}

/// A column that a reply lacks is told by its name, the first of them in the order of the
/// columns; and columns are read exactly if none is lacking.
pub proof fn law_missing_columns_are_named(data: crate::json::JsonView)
    ensures
        missing_column(data) is None <==> data.member("time"@) is Array && data.member("open"@)
            is Array && data.member("high"@) is Array && data.member("low"@) is Array
            && data.member("close"@) is Array && data.member("amount"@) is Array && data.member(
            "vol"@,
        ) is Array,
        missing_column(data) matches Some(message) ==> message == if !(data.member("time"@)
            is Array) {
            "Time array not found"@
        } else if !(data.member("open"@) is Array) {
            "Open array not found"@
        } else if !(data.member("high"@) is Array) {
            "High array not found"@
        } else if !(data.member("low"@) is Array) {
            "Low array not found"@
        } else if !(data.member("close"@) is Array) {
            "Close array not found"@
        } else if !(data.member("amount"@) is Array) {
            "Amount array not found"@
        } else {
            "Vol array not found"@
        },
{
}

} // verus!

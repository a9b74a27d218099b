//! The venues that are connected, and what each is asked for.
use crate::error::AdapterError;
use crate::market::{Exchange, MarketKind, Venue};
use crate::stream::{Event, StreamConfig, StreamKind, StreamTicksize};
use crate::ticker::{Bits64, PushFrequency, TickMultiplier, TickerInfo, TickerMap};
use crate::timeframe::Timeframe;
use vstd::prelude::*;

verus! {

// Topics per websocket are kept conservative across venues.
pub const MAX_TRADE_TICKERS_PER_STREAM: usize = 100;

pub const MAX_KLINE_STREAMS_PER_STREAM: usize = 100;

/// The handles of the venues that are connected. `H` is what requests to a venue go through.
pub struct AdapterHandles<H> {
    binance: Option<H>,
    bybit: Option<H>,
    hyperliquid: Option<H>,
    okex: Option<H>,
    mexc: Option<H>,
}

/// The handles after venues were connected in turn: a venue keeps the last handle that it
/// got, and a failure leaves what it had.
pub open spec fn spawned<H>(
    start: Map<Venue, H>,
    attempts: Seq<(Venue, Result<H, AdapterError>)>,
) -> Map<Venue, H>
    decreases attempts.len(),
{
    if attempts.len() == 0 {
        start
    } else {
        let before = spawned(start, attempts.drop_last());
        match attempts.last() {
            (venue, Ok(handle)) => before.insert(venue, handle),
            (_, Err(_)) => before,
        }
    }
}

impl<H> View for AdapterHandles<H> {
    type V = Map<Venue, H>;

    closed spec fn view(&self) -> Map<Venue, H> {
        Map::new(|venue: Venue| self.slot(venue) is Some, |venue: Venue| self.slot(venue)->0)
    }
}

/// What is known of a request that a venue takes: the handle to send it through.
pub enum StreamPlan<'a, H, I, D, T, K> {
    /// Connect through the handle.
    Connect { handle: &'a H, request: I },
    /// The venue is not connected: this is all that the stream yields.
    Missing(Event<D, T, K>),
}

/// What a depth connection is opened for.
pub struct DepthRequest {
    pub ticker_info: TickerInfo,
    pub depth_aggr: StreamTicksize,
    pub push_freq: PushFrequency,
}

/// How the tickers of a venue are fetched: by which requests, each for some markets, and
/// through which handle. Without a handle there are no requests. Every request goes with
/// the sizes of contracts, in double precision, where the venue works with them.
pub struct TickerPlan<'a, H> {
    pub handle: Option<&'a H>,
    pub requests: Vec<Vec<MarketKind>>,
    pub contract_sizes: Option<TickerMap<Bits64>>,
}

/// The text of the error for a venue that is not connected.
pub open spec fn missing_venue_text(venue: Venue) -> Seq<char> {
    "Adapter unavailable for venue "@ + venue.label_spec()
}

/// The error for a venue that is not connected.
pub open spec fn missing_venue(venue: Venue) -> crate::error::AdapterErrorView {
    crate::error::AdapterErrorView::Unavailable { venue, message: missing_venue_text(venue) }
}

/// The error for a venue that is not connected.
pub fn missing_venue_error(venue: Venue) -> (r: AdapterError)
    ensures
        r@ == missing_venue(venue),
{
    let mut message = "Adapter unavailable for venue ".to_string();
    message.append(venue.label());
    AdapterError::unavailable(venue, message)
}

/// Streams of an exchange whose venue is not connected: told as disconnected.
pub open spec fn is_missing_event<D, T, K>(
    event: Event<D, T, K>,
    exchange: Exchange,
    streams: Seq<crate::stream::StreamKindView>,
) -> bool {
    event matches Event::Disconnected(list, message) && crate::stream::stream_views(list@)
        == streams && message@ == "Adapter unavailable for "@ + exchange.venue_spec().label_spec()
}

/// The only event of streams whose venue is not connected.
pub fn missing_venue_event<D, T, K>(exchange: Exchange, streams: Vec<StreamKind>) -> (r: Event<
    D,
    T,
    K,
>)
    ensures
        is_missing_event(r, exchange, crate::stream::stream_views(streams@)),
{
    let mut message = "Adapter unavailable for ".to_string();
    message.append(exchange.venue().label());
    Event::Disconnected(streams, message)
}

/// Who groups the order book of a depth connection.
pub open spec fn depth_aggr_of(config: StreamConfig<TickerInfo>) -> StreamTicksize {
    config.exchange.stream_ticksize_spec(config.tick_mltp, TickMultiplier(1))
}

/// Who groups the order book of a depth connection.
pub fn depth_aggr(config: &StreamConfig<TickerInfo>) -> (r: StreamTicksize)
    ensures
        r == depth_aggr_of(*config),
{
    config.exchange.stream_ticksize(config.tick_mltp, TickMultiplier(1))
}

/// The stream that a depth connection is for.
pub open spec fn depth_scope_spec(config: StreamConfig<TickerInfo>) -> Seq<
    crate::stream::StreamKindView,
> {
    seq![
        crate::stream::StreamKindView::Depth {
            ticker_info: config.id@,
            depth_aggr: depth_aggr_of(config),
            push_freq: config.push_freq,
        },
    ]
}

/// The stream that a depth connection is for.
pub fn depth_scope(config: &StreamConfig<TickerInfo>) -> (r: Vec<StreamKind>)
    ensures
        crate::stream::stream_views(r@) == depth_scope_spec(*config),
{
    let r = vec![
        StreamKind::Depth {
            ticker_info: config.id.clone(),
            depth_aggr: depth_aggr(config),
            push_freq: config.push_freq,
        },
    ];
    assert(crate::stream::stream_views(r@) =~= depth_scope_spec(*config));
    r
}

/// The streams that a trade connection is for.
pub open spec fn trade_scope_spec(config: StreamConfig<Vec<TickerInfo>>) -> Seq<
    crate::stream::StreamKindView,
> {
    crate::stream::trade_views(config.id@).map_values(
        |t: crate::stream::TradeView| crate::unique_streams::trade_stream(t),
    )
}

/// The streams that a trade connection is for.
pub fn trade_scope(config: &StreamConfig<Vec<TickerInfo>>) -> (r: Vec<StreamKind>)
    ensures
        crate::stream::stream_views(r@) == trade_scope_spec(*config),
{
    let mut out: Vec<StreamKind> = Vec::new();
    let mut i: usize = 0;
    while i < config.id.len()
        invariant
            i <= config.id@.len(),
            out@.len() == i,
            forall|k: int|
                0 <= k < i ==> (#[trigger] out@[k])@ == crate::unique_streams::trade_stream(
                    config.id@[k]@,
                ),
        decreases config.id@.len() - i,
    {
        out.push(StreamKind::Trades { ticker_info: config.id[i].clone() });
        i += 1;
    }
    assert(crate::stream::stream_views(out@) =~= trade_scope_spec(*config));
    out
}

/// The streams that a candle connection is for.
pub open spec fn kline_scope_spec(config: StreamConfig<Vec<(TickerInfo, Timeframe)>>) -> Seq<
    crate::stream::StreamKindView,
> {
    crate::stream::kline_views(config.id@).map_values(
        |k: crate::stream::KlineView| crate::unique_streams::kline_stream(k),
    )
}

/// The streams that a candle connection is for.
pub fn kline_scope(config: &StreamConfig<Vec<(TickerInfo, Timeframe)>>) -> (r: Vec<StreamKind>)
    ensures
        crate::stream::stream_views(r@) == kline_scope_spec(*config),
{
    let mut out: Vec<StreamKind> = Vec::new();
    let mut i: usize = 0;
    while i < config.id.len()
        invariant
            i <= config.id@.len(),
            out@.len() == i,
            forall|k: int|
                0 <= k < i ==> (#[trigger] out@[k])@ == crate::unique_streams::kline_stream(
                    (config.id@[k].0@, config.id@[k].1),
                ),
        decreases config.id@.len() - i,
    {
        let entry = &config.id[i];
        out.push(StreamKind::Kline { ticker_info: entry.0.clone(), timeframe: entry.1 });
        i += 1;
    }
    assert(crate::stream::stream_views(out@) =~= kline_scope_spec(*config));
    out
}

fn copied_tickers(list: &Vec<TickerInfo>) -> (r: Vec<TickerInfo>)
    ensures
        crate::stream::trade_views(r@) == crate::stream::trade_views(list@),
{
    let mut out: Vec<TickerInfo> = Vec::new();
    let mut i: usize = 0;
    while i < list.len()
        invariant
            i <= list@.len(),
            out@ == list@.take(i as int),
        decreases list@.len() - i,
    {
        out.push(list[i].clone());
        i += 1;
    }
    assert(list@.take(list@.len() as int) == list@);
    out
}

fn copied_klines(list: &Vec<(TickerInfo, Timeframe)>) -> (r: Vec<(TickerInfo, Timeframe)>)
    ensures
        crate::stream::kline_views(r@) == crate::stream::kline_views(list@),
{
    let mut out: Vec<(TickerInfo, Timeframe)> = Vec::new();
    let mut i: usize = 0;
    while i < list.len()
        invariant
            i <= list@.len(),
            out@ == list@.take(i as int),
        decreases list@.len() - i,
    {
        let entry = &list[i];
        out.push((entry.0.clone(), entry.1));
        i += 1;
    }
    assert(list@.take(list@.len() as int) == list@);
    out
}

fn copied_markets(markets: &Vec<MarketKind>) -> (r: Vec<MarketKind>)
    ensures
        r@ == markets@,
{
    let mut out: Vec<MarketKind> = Vec::new();
    let mut i: usize = 0;
    while i < markets.len()
        invariant
            i <= markets@.len(),
            out@ == markets@.take(i as int),
        decreases markets@.len() - i,
    {
        out.push(markets[i]);
        i += 1;
    }
    assert(markets@.take(markets@.len() as int) == markets@);
    out
}

/// The requests that fetch the tickers of a venue: one for each market, or one for all of
/// them; none at a venue that is not asked.
pub open spec fn ticker_requests(venue: Venue, markets: Seq<MarketKind>) -> Seq<Seq<MarketKind>> {
    match venue {
        Venue::Binance | Venue::Bybit | Venue::Hyperliquid => markets.map_values(
            |market: MarketKind| seq![market],
        ),
        Venue::Okex => Seq::empty(),
        Venue::Mexc => seq![markets],
    }
}

pub open spec fn request_views(requests: Seq<Vec<MarketKind>>) -> Seq<Seq<MarketKind>> {
    requests.map_values(|request: Vec<MarketKind>| request@)
}

/// The plan sends the requests of the venue through its handle.
pub open spec fn is_ticker_plan<H>(
    plan: TickerPlan<'_, H>,
    handles: Map<Venue, H>,
    venue: Venue,
    markets: Seq<MarketKind>,
) -> bool {
    &&& request_views(plan.requests@) == ticker_requests(venue, markets)
    &&& match plan.handle {
        Some(handle) => venue != Venue::Okex && handles.contains_pair(venue, *handle),
        None => venue == Venue::Okex,
    }
}

/// Venues that work the figures of the day out from the sizes of contracts.
pub open spec fn takes_contract_sizes(venue: Venue) -> bool {
    venue == Venue::Binance || venue == Venue::Mexc
}

/// The sizes of contracts that go to a venue.
pub open spec fn sizes_sent(
    venue: Venue,
    contract_sizes: Option<TickerMap<Bits64>>,
) -> Option<TickerMap<Bits64>> {
    if takes_contract_sizes(venue) {
        contract_sizes
    } else {
        None
    }
}

/// The error says that a venue which would be asked is not connected.
pub open spec fn lacks_handle<H>(
    error: AdapterError,
    handles: Map<Venue, H>,
    venue: Venue,
) -> bool {
    venue != Venue::Okex && !handles.contains_key(venue) && error@ == missing_venue(venue)
}

/// How candle streams are opened: through the handle of their venue, if it is connected.
pub open spec fn is_kline_plan<H, D, T, K>(
    plan: StreamPlan<'_, H, (Vec<(TickerInfo, Timeframe)>, MarketKind), D, T, K>,
    handles: Map<Venue, H>,
    config: StreamConfig<Vec<(TickerInfo, Timeframe)>>,
) -> bool {
    match plan {
        StreamPlan::Connect { handle, request } => {
            &&& handles.contains_pair(config.exchange.venue_spec(), *handle)
            &&& crate::stream::kline_views(request.0@) == crate::stream::kline_views(config.id@)
            &&& request.1 == config.exchange.market_spec()
        },
        StreamPlan::Missing(event) => !handles.contains_key(config.exchange.venue_spec())
            && is_missing_event(event, config.exchange, kline_scope_spec(config)),
    }
}

/// How trade streams are opened: through the handle of their venue, if it is connected.
pub open spec fn is_trade_plan<H, D, T, K>(
    plan: StreamPlan<'_, H, (Vec<TickerInfo>, MarketKind), D, T, K>,
    handles: Map<Venue, H>,
    config: StreamConfig<Vec<TickerInfo>>,
) -> bool {
    match plan {
        StreamPlan::Connect { handle, request } => {
            &&& handles.contains_pair(config.exchange.venue_spec(), *handle)
            &&& crate::stream::trade_views(request.0@) == crate::stream::trade_views(config.id@)
            &&& request.1 == config.exchange.market_spec()
        },
        StreamPlan::Missing(event) => !handles.contains_key(config.exchange.venue_spec())
            && is_missing_event(event, config.exchange, trade_scope_spec(config)),
    }
}

/// How a depth stream is opened: through the handle of its venue, if it is connected.
pub open spec fn is_depth_plan<H, D, T, K>(
    plan: StreamPlan<'_, H, DepthRequest, D, T, K>,
    handles: Map<Venue, H>,
    config: StreamConfig<TickerInfo>,
) -> bool {
    match plan {
        StreamPlan::Connect { handle, request } => {
            &&& handles.contains_pair(config.exchange.venue_spec(), *handle)
            &&& request.ticker_info@ == config.id@
            &&& request.depth_aggr == depth_aggr_of(config)
            &&& request.push_freq == config.push_freq
        },
        StreamPlan::Missing(event) => !handles.contains_key(config.exchange.venue_spec())
            && is_missing_event(event, config.exchange, depth_scope_spec(config)),
    }
}

/// The way that candles of an exchange are fetched.
pub open spec fn is_kline_route<H>(
    route: Result<Option<&H>, AdapterError>,
    handles: Map<Venue, H>,
    exchange: Exchange,
) -> bool {
    let venue = exchange.venue_spec();
    match route {
        Ok(Some(handle)) => venue != Venue::Okex && handles.contains_pair(venue, *handle),
        Ok(None) => venue == Venue::Okex,
        Err(e) => lacks_handle(e, handles, venue),
    }
}

/// The way that open interest of an exchange is fetched.
pub open spec fn is_open_interest_route<H>(
    route: Result<Option<&H>, AdapterError>,
    handles: Map<Venue, H>,
    exchange: Exchange,
) -> bool {
    let venue = exchange.venue_spec();
    if has_open_interest(exchange) {
        match route {
            Ok(Some(handle)) => handles.contains_pair(venue, *handle),
            Ok(None) => false,
            Err(e) => !handles.contains_key(venue) && e@ == missing_venue(venue),
        }
    } else if venue == Venue::Okex && exchange.market_spec() != MarketKind::Spot {
        route matches Ok(None)
    } else {
        route matches Err(e) && e@ == crate::error::AdapterErrorView::InvalidRequest(
            "Open interest data not available for "@ + exchange.label_spec(),
        )
    }
}

/// The way that trades of an exchange are fetched.
pub open spec fn is_trade_route<H>(
    route: Result<&H, AdapterError>,
    handles: Map<Venue, H>,
    exchange: Exchange,
) -> bool {
    if exchange.venue_spec() == Venue::Binance {
        match route {
            Ok(handle) => handles.contains_pair(Venue::Binance, *handle),
            Err(e) => !handles.contains_key(Venue::Binance) && e@ == missing_venue(Venue::Binance),
        }
    } else {
        route matches Err(e) && e@ == crate::error::AdapterErrorView::InvalidRequest(
            "Trade fetch not available for "@ + exchange.label_spec(),
        )
    }
}

impl<H> AdapterHandles<H> {
    spec fn slot(self, venue: Venue) -> Option<H> {
        match venue {
            Venue::Binance => self.binance,
            Venue::Bybit => self.bybit,
            Venue::Hyperliquid => self.hyperliquid,
            Venue::Okex => self.okex,
            Venue::Mexc => self.mexc,
        }
    }

    /// No venue is connected.
    pub fn new() -> (r: AdapterHandles<H>)
        ensures
            r@ == Map::<Venue, H>::empty(),
    {
        let r = AdapterHandles {
            binance: None,
            bybit: None,
            hyperliquid: None,
            okex: None,
            mexc: None,
        };
        assert(r@ =~= Map::<Venue, H>::empty());
        r
    }

    /// Keeps the handle of a venue, in place of one that it had; or hands on why there is
    /// none.
    pub fn spawn_venue(&mut self, venue: Venue, handle: Result<H, AdapterError>) -> (r: Result<
        (),
        AdapterError,
    >)
        ensures
            match handle {
                Ok(handle) => r is Ok && final(self)@ == old(self)@.insert(venue, handle),
                Err(error) => r matches Err(e) && e == error && final(self)@ == old(self)@,
            },
    {
        let ghost before = self@;
        let handle = match handle {
            Ok(handle) => handle,
            Err(error) => {
                return Err(error);
            },
        };
        let ghost kept = handle;
        match venue {
            Venue::Binance => {
                self.binance = Some(handle);
            },
            Venue::Bybit => {
                self.bybit = Some(handle);
            },
            Venue::Hyperliquid => {
                self.hyperliquid = Some(handle);
            },
            Venue::Okex => {
                self.okex = Some(handle);
            },
            Venue::Mexc => {
                self.mexc = Some(handle);
            },
        }
        assert(self@ =~= before.insert(venue, kept));
        Ok(())
    }

    /// Connects venues in turn. A venue that cannot be connected is left out.
    pub fn spawn_venues(attempts: Vec<(Venue, Result<H, AdapterError>)>) -> (r: AdapterHandles<H>)
        ensures
            r@ == spawned(Map::<Venue, H>::empty(), attempts@),
    {
        let mut out = AdapterHandles::new();
        let ghost all = attempts@;
        assert(all.take(0) == Seq::<(Venue, Result<H, AdapterError>)>::empty());
        for attempt in it: attempts
            invariant
                all == it.seq(),
                out@ == spawned(Map::<Venue, H>::empty(), all.take(it.index() as int)),
        {
            let ghost n = it.index();
            let (venue, handle) = attempt;
            proof {
                assert(all.take(n + 1).drop_last() == all.take(n as int));
                assert(all.take(n + 1).last() == (venue, handle));
            }
            let _ = out.spawn_venue(venue, handle);
        }
        assert(all.take(all.len() as int) == all);
        out
    }

    /// The handle of a venue.
    pub fn handle(&self, venue: Venue) -> (r: Option<&H>)
        ensures
            match r {
                Some(handle) => self@.contains_pair(venue, *handle),
                None => !self@.contains_key(venue),
            },
    {
        match venue {
            Venue::Binance => self.binance.as_ref(),
            Venue::Bybit => self.bybit.as_ref(),
            Venue::Hyperliquid => self.hyperliquid.as_ref(),
            Venue::Okex => self.okex.as_ref(),
            Venue::Mexc => self.mexc.as_ref(),
        }
    }

    /// How candle streams are opened.
    pub fn kline_stream<D, T, K>(&self, config: &StreamConfig<Vec<(TickerInfo, Timeframe)>>) -> (r:
        StreamPlan<'_, H, (Vec<(TickerInfo, Timeframe)>, MarketKind), D, T, K>)
        ensures
            is_kline_plan(r, self@, *config),
    {
        match self.handle(config.exchange.venue()) {
            Some(handle) => StreamPlan::Connect {
                handle,
                request: (copied_klines(&config.id), config.exchange.market_type()),
            },
            None => StreamPlan::Missing(missing_venue_event(config.exchange, kline_scope(config))),
        }
    }

    /// How trade streams are opened.
    pub fn trade_stream<D, T, K>(&self, config: &StreamConfig<Vec<TickerInfo>>) -> (r: StreamPlan<
        '_,
        H,
        (Vec<TickerInfo>, MarketKind),
        D,
        T,
        K,
    >)
        ensures
            is_trade_plan(r, self@, *config),
    {
        match self.handle(config.exchange.venue()) {
            Some(handle) => StreamPlan::Connect {
                handle,
                request: (copied_tickers(&config.id), config.exchange.market_type()),
            },
            None => StreamPlan::Missing(missing_venue_event(config.exchange, trade_scope(config))),
        }
    }

    /// How a depth stream is opened.
    pub fn depth_stream<D, T, K>(&self, config: &StreamConfig<TickerInfo>) -> (r: StreamPlan<
        '_,
        H,
        DepthRequest,
        D,
        T,
        K,
    >)
        ensures
            is_depth_plan(r, self@, *config),
    {
        match self.handle(config.exchange.venue()) {
            Some(handle) => StreamPlan::Connect {
                handle,
                request: DepthRequest {
                    ticker_info: config.id.clone(),
                    depth_aggr: depth_aggr(config),
                    push_freq: config.push_freq,
                },
            },
            None => StreamPlan::Missing(missing_venue_event(config.exchange, depth_scope(config))),
        }
    }

    fn ticker_plan(&self, venue: Venue, markets: &Vec<MarketKind>) -> (r: Result<
        TickerPlan<'_, H>,
        AdapterError,
    >)
        ensures
            match r {
                Ok(plan) => is_ticker_plan(plan, self@, venue, markets@) && plan.contract_sizes is None,
                Err(e) => lacks_handle(e, self@, venue),
            },
    {
        let mut requests: Vec<Vec<MarketKind>> = Vec::new();
        if venue == Venue::Okex {
            assert(request_views(requests@) =~= ticker_requests(venue, markets@));
            return Ok(TickerPlan { handle: None, requests, contract_sizes: None });
        }
        let handle = match self.handle(venue) {
            Some(handle) => handle,
            None => {
                return Err(missing_venue_error(venue));
            },
        };
        if venue == Venue::Mexc {
            requests.push(copied_markets(markets));
            assert(request_views(requests@) =~= ticker_requests(venue, markets@));
            return Ok(TickerPlan { handle: Some(handle), requests, contract_sizes: None });
        }
        let mut i: usize = 0;
        while i < markets.len()
            invariant
                i <= markets@.len(),
                requests@.len() == i,
                forall|k: int| 0 <= k < i ==> (#[trigger] requests@[k])@ == seq![markets@[k]],
            decreases markets@.len() - i,
        {
            requests.push(vec![markets[i]]);
            assert(requests@[i as int]@ =~= seq![markets@[i as int]]);
            i += 1;
        }
        assert(request_views(requests@) =~= ticker_requests(venue, markets@));
        Ok(TickerPlan { handle: Some(handle), requests, contract_sizes: None })
    }

    /// How the tickers of a venue are fetched.
    ///
    /// `Binance`, `Bybit`, and `Hyperliquid` are fetched per market, while
    /// `Okex` and `Mexc` handle market branching internally due to combined perps endpoints.
    pub fn fetch_ticker_metadata(&self, venue: Venue, markets: &Vec<MarketKind>) -> (r: Result<
        TickerPlan<'_, H>,
        AdapterError,
    >)
        ensures
            match r {
                Ok(plan) => is_ticker_plan(plan, self@, venue, markets@) && plan.contract_sizes is None,
                Err(e) => lacks_handle(e, self@, venue),
            },
    {
        self.ticker_plan(venue, markets)
    }

    /// How the figures of the day are fetched from a venue. The sizes of contracts go to
    /// `Binance` with each request and to `Mexc` with its one request.
    ///
    /// `Binance`, `Bybit`, and `Hyperliquid` are fetched per market, while
    /// `Okex` and `Mexc` handle market branching internally due to combined perps endpoints.
    pub fn fetch_ticker_stats(
        &self,
        venue: Venue,
        markets: &Vec<MarketKind>,
        contract_sizes: Option<TickerMap<Bits64>>,
    ) -> (r: Result<TickerPlan<'_, H>, AdapterError>)
        ensures
            match r {
                Ok(plan) => {
                    &&& is_ticker_plan(plan, self@, venue, markets@)
                    &&& plan.contract_sizes == sizes_sent(venue, contract_sizes)
                },
                Err(e) => lacks_handle(e, self@, venue),
            },
    {
        match self.ticker_plan(venue, markets) {
            Ok(plan) => match venue {
                Venue::Binance | Venue::Mexc => Ok(
                    TickerPlan { handle: plan.handle, requests: plan.requests, contract_sizes },
                ),
                Venue::Bybit | Venue::Hyperliquid | Venue::Okex => Ok(plan),
            },
            Err(e) => Err(e),
        }
    }

    /// The handle that candles are fetched through; none where there are none to fetch.
    pub fn fetch_klines(&self, ticker_info: &TickerInfo) -> (r: Result<Option<&H>, AdapterError>)
        ensures
            is_kline_route(r, self@, ticker_info@.ticker.exchange),
    {
        let venue = ticker_info.ticker.exchange.venue();
        if venue == Venue::Okex {
            return Ok(None);
        }
        match self.handle(venue) {
            Some(handle) => Ok(Some(handle)),
            None => Err(missing_venue_error(venue)),
        }
    }

    /// The handle that open interest is fetched through; none where there is none to fetch,
    /// and an error for an exchange that does not have it.
    pub fn fetch_open_interest(&self, ticker_info: &TickerInfo) -> (r: Result<
        Option<&H>,
        AdapterError,
    >)
        ensures
            is_open_interest_route(r, self@, ticker_info@.ticker.exchange),
    {
        let exchange = ticker_info.ticker.exchange;
        match exchange {
            Exchange::BinanceLinear
            | Exchange::BinanceInverse
            | Exchange::BybitLinear
            | Exchange::BybitInverse => match self.handle(exchange.venue()) {
                Some(handle) => Ok(Some(handle)),
                None => Err(missing_venue_error(exchange.venue())),
            },
            Exchange::OkexLinear | Exchange::OkexInverse => Ok(None),
            _ => {
                let mut message = "Open interest data not available for ".to_string();
                message.append(exchange.label().as_str());
                Err(AdapterError::InvalidRequest(message))
            },
        }
    }

    /// The handle that trades are fetched through; an error for an exchange that does not
    /// hand them out.
    pub fn fetch_trades(&self, ticker_info: &TickerInfo) -> (r: Result<&H, AdapterError>)
        ensures
            is_trade_route(r, self@, ticker_info@.ticker.exchange),
    {
        let exchange = ticker_info.ticker.exchange;
        match exchange.venue() {
            Venue::Binance => match self.handle(Venue::Binance) {
                Some(handle) => Ok(handle),
                None => Err(missing_venue_error(Venue::Binance)),
            },
            _ => {
                let mut message = "Trade fetch not available for ".to_string();
                message.append(exchange.label().as_str());
                Err(AdapterError::InvalidRequest(message))
            },
        }
    }
}

/// Exchanges whose open interest can be fetched.
pub open spec fn has_open_interest(exchange: Exchange) -> bool {
    (exchange.venue_spec() == Venue::Binance || exchange.venue_spec() == Venue::Bybit)
        && exchange.market_spec() != MarketKind::Spot
}

/// What replies amount to: the first error, or all tickers, where a later reply counts over
/// an earlier one.
pub open spec fn merged<V>(replies: Seq<Result<TickerMap<V>, AdapterError>>) -> Result<
    Map<crate::ticker::TickerView, V>,
    crate::error::AdapterErrorView,
>
    decreases replies.len(),
{
    if replies.len() == 0 {
        Ok(Map::empty())
    } else {
        match merged(replies.drop_last()) {
            Err(error) => Err(error),
            Ok(map) => match replies.last() {
                Ok(reply) => Ok(map.union_prefer_right(reply@)),
                Err(error) => Err(error@),
            },
        }
    }
}

proof fn lemma_merged_error_stays<V>(replies: Seq<Result<TickerMap<V>, AdapterError>>, n: int)
    requires
        0 <= n <= replies.len(),
        merged(replies.take(n)) is Err,
    ensures
        merged(replies) == merged(replies.take(n)),
    decreases replies.len() - n,
{
    if n < replies.len() {
        assert(replies.take(n + 1).drop_last() == replies.take(n));
        lemma_merged_error_stays(replies, n + 1);
    } else {
        assert(replies.take(n) == replies);
    }
}

/// Puts the replies to the requests of a venue together, in the order of the requests.
pub fn merge_replies<V>(replies: Vec<Result<TickerMap<V>, AdapterError>>) -> (r: Result<
    TickerMap<V>,
    AdapterError,
>)
    requires
        forall|i: int|
            0 <= i < replies@.len() ==> ((#[trigger] replies@[i]) matches Ok(reply)
                ==> reply.well_formed()),
    ensures
        match merged(replies@) {
            Ok(map) => r matches Ok(all) && all.well_formed() && all@ == map,
            Err(error) => r matches Err(e) && e@ == error,
        },
{
    let mut out: TickerMap<V> = TickerMap::new();
    let ghost all = replies@;
    assert(all.take(0) == Seq::<Result<TickerMap<V>, AdapterError>>::empty());
    for reply in it: replies
        invariant
            all == it.seq(),
            all == replies@,
            forall|i: int|
                0 <= i < all.len() ==> ((#[trigger] all[i]) matches Ok(reply)
                    ==> reply.well_formed()),
            out.well_formed(),
            merged(all.take(it.index() as int)) == Ok::<_, crate::error::AdapterErrorView>(out@),
    {
        let ghost n = it.index() as int;
        proof {
            assert(all.take(n + 1).drop_last() == all.take(n));
            assert(all.take(n + 1).last() == reply);
            assert(all[n] == reply);
        }
        match reply {
            Ok(map) => {
                out.extend(map);
            },
            Err(error) => {
                proof {
                    lemma_merged_error_stays(all, n + 1);
                }
                return Err(error);
            },
        }
    }
    assert(all.take(all.len() as int) == all);
    Ok(out)
}

/// A reply says that something went wrong.
pub open spec fn has_failed<V>(replies: Seq<Result<TickerMap<V>, AdapterError>>) -> bool {
    exists|i: int| 0 <= i < replies.len() && (#[trigger] replies[i]) is Err
}

/// The request of a plan that is sent after some replies came: the first that has none yet,
/// and none after an error.
pub open spec fn request_after<V>(
    requests: nat,
    replies: Seq<Result<TickerMap<V>, AdapterError>>,
) -> Option<int> {
    if has_failed(replies) || replies.len() >= requests {
        None
    } else {
        Some(replies.len() as int)
    }
}

/// Which request of the plan is sent next, after the replies that came: none where all were
/// sent, or one of them failed.
pub fn next_request<H, V>(
    plan: &TickerPlan<'_, H>,
    replies: &Vec<Result<TickerMap<V>, AdapterError>>,
) -> (r: Option<usize>)
    ensures
        match r {
            Some(i) => i < plan.requests@.len() && request_after(plan.requests@.len(), replies@)
                == Some(i as int),
            None => request_after(plan.requests@.len(), replies@) is None,
        },
{
    let mut i: usize = 0;
    while i < replies.len()
        invariant
            i <= replies@.len(),
            forall|k: int| 0 <= k < i ==> (#[trigger] replies@[k]) is Ok,
        decreases replies@.len() - i,
    {
        if replies[i].is_err() {
            assert(replies@[i as int] is Err);
            return None;
        }
        i += 1;
    }
    if replies.len() < plan.requests.len() {
        Some(replies.len())
    } else {
        None
    }
}

/// The replies came to requests that were sent one after another, each when it was its turn,
/// until there was none left to send.
pub open spec fn is_run<V>(requests: nat, replies: Seq<Result<TickerMap<V>, AdapterError>>) -> bool {
    &&& forall|k: int|
        0 <= k < replies.len() ==> request_after(requests, #[trigger] replies.take(k)) == Some(k)
    &&& request_after(requests, replies) is None
}

/// Requests go on until the first error. A run without an error has a reply to every request,
/// and gives the tickers of all of them. Any other run ends with the error that it gives, and
/// nothing was sent after it.
pub proof fn law_first_error_ends_a_run<V>(
    requests: nat,
    replies: Seq<Result<TickerMap<V>, AdapterError>>,
)
    requires
        is_run(requests, replies),
    ensures
        replies.len() <= requests,
        forall|k: int| 0 <= k < replies.len() - 1 ==> (#[trigger] replies[k]) is Ok,
        match merged(replies) {
            Ok(_) => replies.len() == requests && !has_failed(replies),
            Err(e) => replies.len() > 0 && (replies.last() matches Err(error) && error@ == e),
        },
{
    let n = replies.len() as int;
    assert forall|k: int| 0 <= k < n - 1 implies (#[trigger] replies[k]) is Ok by {
        let sent = replies.take(n - 1);
        assert(request_after(requests, sent) == Some(n - 1));
        assert(sent[k] == replies[k]);
    }
    if n > 0 {
        assert(request_after(requests, replies.take(n - 1)) == Some(n - 1));
        let front = replies.drop_last();
        assert(front == replies.take(n - 1));
        assert(!has_failed(front));
        lemma_merged_without_error(front);
    }
}

proof fn lemma_merged_without_error<V>(replies: Seq<Result<TickerMap<V>, AdapterError>>)
    requires
        !has_failed(replies),
    ensures
        merged(replies) is Ok,
    decreases replies.len(),
{
    if replies.len() > 0 {
        let front = replies.drop_last();
        assert(replies[replies.len() - 1] is Ok);
        assert forall|i: int| 0 <= i < front.len() implies (#[trigger] front[i]) is Ok by {
            assert(replies[i] is Ok);
        }
        lemma_merged_without_error(front);
    }
}

/// The attempt connects the venue.
pub open spec fn connects<H>(attempt: (Venue, Result<H, AdapterError>), venue: Venue) -> bool {
    attempt.0 == venue && attempt.1 is Ok
}

/// A venue is connected exactly if an attempt to connect it succeeded.
pub proof fn law_connected_venues<H>(
    attempts: Seq<(Venue, Result<H, AdapterError>)>,
    venue: Venue,
)
    ensures
        spawned(Map::<Venue, H>::empty(), attempts).contains_key(venue) <==> exists|i: int|
            0 <= i < attempts.len() && connects(#[trigger] attempts[i], venue),
    decreases attempts.len(),
{
    if attempts.len() > 0 {
        let rest = attempts.drop_last();
        law_connected_venues(rest, venue);
        if connects(attempts.last(), venue) {
            assert(connects(attempts[attempts.len() - 1], venue));
        } else {
            if exists|i: int| 0 <= i < attempts.len() && connects(#[trigger] attempts[i], venue) {
                let i = choose|i: int|
                    0 <= i < attempts.len() && connects(#[trigger] attempts[i], venue);
                assert(connects(rest[i], venue));
            }
            if exists|i: int| 0 <= i < rest.len() && connects(#[trigger] rest[i], venue) {
                let i = choose|i: int| 0 <= i < rest.len() && connects(#[trigger] rest[i], venue);
                assert(connects(attempts[i], venue));
            }
        }
    }
}

/// A venue that is connected more than once keeps the handle of the last attempt that
/// succeeded.
pub proof fn law_last_handle_stays<H>(
    attempts: Seq<(Venue, Result<H, AdapterError>)>,
    venue: Venue,
    last: int,
)
    requires
        0 <= last < attempts.len(),
        connects(attempts[last], venue),
        forall|i: int| last < i < attempts.len() ==> !connects(#[trigger] attempts[i], venue),
    ensures
        spawned(Map::<Venue, H>::empty(), attempts)[venue] == attempts[last].1->Ok_0,
    decreases attempts.len(),
{
    let rest = attempts.drop_last();
    if last < rest.len() {
        assert(!connects(attempts[attempts.len() - 1], venue));
        assert forall|i: int| last < i < rest.len() implies !connects(
            #[trigger] rest[i],
            venue,
        ) by {
            assert(rest[i] == attempts[i]);
        }
        law_last_handle_stays(rest, venue, last);
    }
}

/// The requests for tickers cover the markets, each market once and in their order, at every
/// venue that is asked: MEXC in one request, Binance, Bybit and Hyperliquid in one for each
/// market. Only OKX is not asked.
pub proof fn law_requests_cover_the_markets(venue: Venue, markets: Seq<MarketKind>)
    ensures
        !(venue is Okex) ==> ticker_requests(venue, markets).flatten() == markets,
        venue is Okex ==> ticker_requests(venue, markets).len() == 0,
        venue is Mexc ==> ticker_requests(venue, markets).len() == 1,
        venue is Binance || venue is Bybit || venue is Hyperliquid ==> forall|i: int|
            0 <= i < ticker_requests(venue, markets).len() ==> (#[trigger] ticker_requests(
                venue,
                markets,
            )[i]).len() == 1,
    decreases markets.len(),
{
    reveal_with_fuel(Seq::flatten, 2);
    if venue is Mexc {
        let requests = ticker_requests(venue, markets);
        assert(requests.first() == markets);
        assert(requests.drop_first() =~= Seq::empty());
        assert(requests.flatten() =~= markets);
    } else if !(venue is Okex) && markets.len() > 0 {
        let rest = markets.drop_first();
        law_requests_cover_the_markets(venue, rest);
        let requests = ticker_requests(venue, markets);
        assert(requests.drop_first() =~= ticker_requests(venue, rest));
        assert(requests.first() == seq![markets[0]]);
        assert(requests.flatten() == seq![markets[0]] + rest);
        assert(seq![markets[0]] + rest =~= markets);
    } else if !(venue is Okex) {
        assert(ticker_requests(venue, markets) =~= Seq::empty());
        assert(markets =~= Seq::empty());
    }
}

/// Tickers are fetched through the handle of the venue that was asked for, and the sizes of
/// contracts go to Binance and MEXC only.
pub proof fn law_tickers_come_from_their_venue<H>(
    plan: TickerPlan<'_, H>,
    handles: Map<Venue, H>,
    venue: Venue,
    markets: Seq<MarketKind>,
    contract_sizes: Option<TickerMap<Bits64>>,
)
    requires
        is_ticker_plan(plan, handles, venue, markets),
    ensures
        venue is Okex ==> plan.handle is None && plan.requests@.len() == 0,
        !(venue is Okex) ==> handles.contains_key(venue) && (plan.handle matches Some(handle)
            && *handle == handles[venue]),
        sizes_sent(venue, contract_sizes) == match venue {
            Venue::Binance | Venue::Mexc => contract_sizes,
            Venue::Bybit | Venue::Hyperliquid | Venue::Okex => None,
        },
{
    assert(request_views(plan.requests@).len() == plan.requests@.len());
}

/// Only a venue that is not connected, and is not OKX, gives an error when its tickers are
/// asked for, and the error names it.
pub proof fn law_missing_venues_are_named<H>(
    error: AdapterError,
    handles: Map<Venue, H>,
    venue: Venue,
)
    requires
        lacks_handle(error, handles, venue),
    ensures
        !handles.contains_key(venue),
        !(venue is Okex),
        error@ matches crate::error::AdapterErrorView::Unavailable { venue: named, message }
            && named == venue && message == "Adapter unavailable for venue "@
            + venue.label_spec(),
{
}

/// Candles are fetched through the handle of the venue, which is an error where there is none.
/// At OKX there are none to fetch, connected or not.
pub proof fn law_candles_come_from_their_venue<H>(
    route: Result<Option<&H>, AdapterError>,
    handles: Map<Venue, H>,
    exchange: Exchange,
)
    requires
        is_kline_route(route, handles, exchange),
    ensures
        exchange.venue_spec() is Okex <==> (route matches Ok(None)),
        !(exchange.venue_spec() is Okex) && handles.contains_key(exchange.venue_spec()) ==> (
        route matches Ok(Some(handle)) && *handle == handles[exchange.venue_spec()]),
        !(exchange.venue_spec() is Okex) && !handles.contains_key(exchange.venue_spec()) ==> (
        route matches Err(e) && e@ == crate::error::AdapterErrorView::Unavailable {
            venue: exchange.venue_spec(),
            message: "Adapter unavailable for venue "@ + exchange.venue_spec().label_spec(),
        }),
{
}

/// Open interest is fetched for the contracts of Binance and Bybit, through the handle of
/// their venue. For those of OKX there is none to fetch, and for every other exchange, spot
/// markets among them, it is refused.
pub proof fn law_open_interest_comes_from_contracts<H>(
    route: Result<Option<&H>, AdapterError>,
    handles: Map<Venue, H>,
    exchange: Exchange,
)
    requires
        is_open_interest_route(route, handles, exchange),
    ensures
        ({
            let asked = exchange is BinanceLinear || exchange is BinanceInverse || exchange
                is BybitLinear || exchange is BybitInverse;
            let venue = exchange.venue_spec();
            &&& asked && handles.contains_key(venue) ==> (route matches Ok(Some(handle))
                && *handle == handles[venue])
            &&& asked && !handles.contains_key(venue) ==> (route matches Err(e) && e@
                == crate::error::AdapterErrorView::Unavailable {
                venue,
                message: "Adapter unavailable for venue "@ + venue.label_spec(),
            })
            &&& exchange is OkexLinear || exchange is OkexInverse <==> (route matches Ok(None))
            &&& !asked && !(exchange is OkexLinear || exchange is OkexInverse) ==> (route
                matches Err(e) && e@ == crate::error::AdapterErrorView::InvalidRequest(
                "Open interest data not available for "@ + exchange.label_spec(),
            ))
        }),
{
}

/// Trades are fetched from Binance alone, through its handle, and refused anywhere else.
pub proof fn law_trades_come_from_binance<H>(
    route: Result<&H, AdapterError>,
    handles: Map<Venue, H>,
    exchange: Exchange,
)
    requires
        is_trade_route(route, handles, exchange),
    ensures
        ({
            let asked = exchange is BinanceLinear || exchange is BinanceInverse || exchange
                is BinanceSpot;
            &&& asked && handles.contains_key(Venue::Binance) ==> (route matches Ok(handle)
                && *handle == handles[Venue::Binance])
            &&& asked && !handles.contains_key(Venue::Binance) ==> (route matches Err(e) && e@
                == crate::error::AdapterErrorView::Unavailable {
                venue: Venue::Binance,
                message: "Adapter unavailable for venue "@ + Venue::Binance.label_spec(),
            })
            &&& !asked ==> (route matches Err(e) && e@
                == crate::error::AdapterErrorView::InvalidRequest(
                "Trade fetch not available for "@ + exchange.label_spec(),
            ))
        }),
{
}

/// Streams of an exchange that is not connected end at once: what is told is their list and
/// the venue that is missing.
pub proof fn law_missing_streams_are_told<D, T, K>(
    event: Event<D, T, K>,
    exchange: Exchange,
    streams: Seq<crate::stream::StreamKindView>,
)
    requires
        is_missing_event(event, exchange, streams),
    ensures
        event matches Event::Disconnected(list, message) && list@.len() == streams.len() && (
        forall|i: int| 0 <= i < streams.len() ==> (#[trigger] list@[i])@ == streams[i])
            && message@ == "Adapter unavailable for "@ + exchange.venue_spec().label_spec(),
{
    match event {
        Event::Disconnected(list, message) => {
            let views = crate::stream::stream_views(list@);
            assert forall|i: int| 0 <= i < streams.len() implies (#[trigger] list@[i])@
                == streams[i] by {
                assert(views[i] == streams[i]);
            }
        },
        _ => {},
    }
}

/// A depth stream is opened exactly if its venue is connected, through its handle, for its
/// ticker and at its frequency. Only Hyperliquid is told how to group the order book: by the
/// multiplier of the stream, or by one tick.
pub proof fn law_depth_streams_go_to_their_venue<H, D, T, K>(
    plan: StreamPlan<'_, H, DepthRequest, D, T, K>,
    handles: Map<Venue, H>,
    config: StreamConfig<TickerInfo>,
)
    requires
        is_depth_plan(plan, handles, config),
    ensures
        ({
            let venue = config.exchange.venue_spec();
            let grouping = depth_aggr_of(config);
            &&& plan is Connect <==> handles.contains_key(venue)
            &&& plan matches StreamPlan::Connect { handle, request } ==> *handle == handles[venue]
                && request.ticker_info@ == config.id@ && request.push_freq == config.push_freq
                && request.depth_aggr == grouping
            &&& plan matches StreamPlan::Missing(event) ==> is_missing_event(
                event,
                config.exchange,
                seq![
                    crate::stream::StreamKindView::Depth {
                        ticker_info: config.id@,
                        depth_aggr: grouping,
                        push_freq: config.push_freq,
                    },
                ],
            )
            &&& venue is Hyperliquid <==> grouping is ServerSide
            &&& grouping matches StreamTicksize::ServerSide(multiplier) ==> (
            config.tick_mltp matches Some(chosen) ==> multiplier == chosen) && (
            config.tick_mltp is None ==> multiplier.0 == 1)
        }),
{
}

/// Trade streams are opened exactly if their venue is connected, through its handle, for their
/// tickers and the kind of their market; else each of them is told as missing.
pub proof fn law_trade_streams_go_to_their_venue<H, D, T, K>(
    plan: StreamPlan<'_, H, (Vec<TickerInfo>, MarketKind), D, T, K>,
    handles: Map<Venue, H>,
    config: StreamConfig<Vec<TickerInfo>>,
)
    requires
        is_trade_plan(plan, handles, config),
    ensures
        ({
            let venue = config.exchange.venue_spec();
            &&& plan is Connect <==> handles.contains_key(venue)
            &&& plan matches StreamPlan::Connect { handle, request } ==> *handle == handles[venue]
                && request.1 == config.exchange.market_spec() && request.0@.len()
                == config.id@.len() && forall|i: int|
                0 <= i < request.0@.len() ==> (#[trigger] request.0@[i])@ == config.id@[i]@
            &&& plan matches StreamPlan::Missing(event) ==> (event matches Event::Disconnected(
                list,
                _,
            ) && list@.len() == config.id@.len() && forall|i: int|
                0 <= i < list@.len() ==> (#[trigger] list@[i])@
                    == (crate::stream::StreamKindView::Trades { ticker_info: config.id@[i]@ }))
        }),
{
    match plan {
        StreamPlan::Connect { handle: _, request } => {
            let given = crate::stream::trade_views(config.id@);
            let sent = crate::stream::trade_views(request.0@);
            assert(sent.len() == given.len());
            assert forall|i: int| 0 <= i < request.0@.len() implies (#[trigger] request.0@[i])@
                == config.id@[i]@ by {
                assert(sent[i] == given[i]);
            }
        },
        StreamPlan::Missing(event) => {
            law_missing_streams_are_told(event, config.exchange, trade_scope_spec(config));
            let scope = trade_scope_spec(config);
            assert(scope.len() == config.id@.len());
            match event {
                Event::Disconnected(list, _) => {
                    assert forall|i: int| 0 <= i < list@.len() implies (#[trigger] list@[i])@ == (
                    crate::stream::StreamKindView::Trades { ticker_info: config.id@[i]@ }) by {
                        assert(list@[i]@ == scope[i]);
                    }
                },
                _ => {},
            }
        },
    }
}

/// Candle streams are opened exactly if their venue is connected, through its handle, for their
/// tickers and intervals and the kind of their market; else each of them is told as missing.
pub proof fn law_kline_streams_go_to_their_venue<H, D, T, K>(
    plan: StreamPlan<'_, H, (Vec<(TickerInfo, Timeframe)>, MarketKind), D, T, K>,
    handles: Map<Venue, H>,
    config: StreamConfig<Vec<(TickerInfo, Timeframe)>>,
)
    requires
        is_kline_plan(plan, handles, config),
    ensures
        ({
            let venue = config.exchange.venue_spec();
            &&& plan is Connect <==> handles.contains_key(venue)
            &&& plan matches StreamPlan::Connect { handle, request } ==> *handle == handles[venue]
                && request.1 == config.exchange.market_spec() && request.0@.len()
                == config.id@.len() && forall|i: int|
                0 <= i < request.0@.len() ==> (#[trigger] request.0@[i]).0@ == config.id@[i].0@
                    && request.0@[i].1 == config.id@[i].1
            &&& plan matches StreamPlan::Missing(event) ==> (event matches Event::Disconnected(
                list,
                _,
            ) && list@.len() == config.id@.len() && forall|i: int|
                0 <= i < list@.len() ==> (#[trigger] list@[i])@
                    == (crate::stream::StreamKindView::Kline {
                    ticker_info: config.id@[i].0@,
                    timeframe: config.id@[i].1,
                }))
        }),
{
    match plan {
        StreamPlan::Connect { handle: _, request } => {
            let given = crate::stream::kline_views(config.id@);
            let sent = crate::stream::kline_views(request.0@);
            assert(sent.len() == given.len());
            assert forall|i: int| 0 <= i < request.0@.len() implies (#[trigger] request.0@[i]).0@
                == config.id@[i].0@ && request.0@[i].1 == config.id@[i].1 by {
                assert(sent[i] == given[i]);
            }
        },
        StreamPlan::Missing(event) => {
            law_missing_streams_are_told(event, config.exchange, kline_scope_spec(config));
            let scope = kline_scope_spec(config);
            assert(scope.len() == config.id@.len());
            match event {
                Event::Disconnected(list, _) => {
                    assert forall|i: int| 0 <= i < list@.len() implies (#[trigger] list@[i])@ == (
                    crate::stream::StreamKindView::Kline {
                        ticker_info: config.id@[i].0@,
                        timeframe: config.id@[i].1,
                    }) by {
                        assert(list@[i]@ == scope[i]);
                    }
                },
                _ => {},
            }
        },
    }
}

/// What replies amount to: a ticker is among them exactly if a reply has it, and the last reply
/// that has it says what it is.
pub proof fn law_later_replies_count<V>(
    replies: Seq<Result<TickerMap<V>, AdapterError>>,
    ticker: crate::ticker::TickerView,
)
    requires
        !has_failed(replies),
    ensures
        merged(replies) matches Ok(all) && {
            &&& all.contains_key(ticker) ==> exists|i: int|
                0 <= i < replies.len() && (#[trigger] replies[i])->Ok_0@.contains_key(ticker)
                    && all[ticker] == replies[i]->Ok_0@[ticker] && forall|k: int|
                    i < k < replies.len() ==> !(#[trigger] replies[k])->Ok_0@.contains_key(ticker)
            &&& !all.contains_key(ticker) ==> forall|i: int|
                0 <= i < replies.len() ==> !(#[trigger] replies[i])->Ok_0@.contains_key(ticker)
        },
    decreases replies.len(),
{
    lemma_merged_without_error(replies);
    if replies.len() > 0 {
        let front = replies.drop_last();
        let n = replies.len() - 1;
        assert forall|i: int| 0 <= i < front.len() implies (#[trigger] front[i]) is Ok by {
            assert(replies[i] is Ok);
        }
        law_later_replies_count(front, ticker);
        assert(replies[n] is Ok);
        let before = merged(front)->Ok_0;
        let all = merged(replies)->Ok_0;
        if replies[n]->Ok_0@.contains_key(ticker) {
            assert(all[ticker] == replies[n]->Ok_0@[ticker]);
        } else if all.contains_key(ticker) {
            let i = choose|i: int|
                0 <= i < front.len() && (#[trigger] front[i])->Ok_0@.contains_key(ticker)
                    && before[ticker] == front[i]->Ok_0@[ticker] && forall|k: int|
                    i < k < front.len() ==> !(#[trigger] front[k])->Ok_0@.contains_key(ticker);
            assert(replies[i] == front[i]);
            assert forall|k: int| i < k < replies.len() implies !(
            #[trigger] replies[k])->Ok_0@.contains_key(ticker) by {
                if k < n {
                    assert(front[k] == replies[k]);
                }
            }
        } else {
            assert forall|i: int| 0 <= i < replies.len() implies !(
            #[trigger] replies[i])->Ok_0@.contains_key(ticker) by {
                if i < n {
                    assert(front[i] == replies[i]);
                }
            }
        }
    }
}

} // verus!

use marketview::client::{
    depth_scope, kline_scope, merge_replies, missing_venue_error, next_request, trade_scope,
    AdapterHandles, StreamPlan, TickerPlan, MAX_KLINE_STREAMS_PER_STREAM, MAX_TRADE_TICKERS_PER_STREAM,
};
use marketview::error::AdapterError;
use marketview::market::{Exchange, MarketKind, Venue};
use marketview::stream::{Event, StreamConfig, StreamKind, StreamTicksize};
use marketview::ticker::{
    Bits32, Bits64, PushFrequency, TickMultiplier, Ticker, TickerInfo, TickerMap,
};
use marketview::timeframe::Timeframe;

type Handles = AdapterHandles<&'static str>;

fn info(symbol: &str, exchange: Exchange) -> TickerInfo {
    TickerInfo::new(Ticker::new(symbol, exchange), Bits32(1), Bits32(2), None)
}

fn unavailable(venue: Venue, name: &str) -> AdapterError {
    AdapterError::Unavailable { venue, message: format!("Adapter unavailable for venue {name}") }
}

fn config<I>(id: I, exchange: Exchange) -> StreamConfig<I> {
    StreamConfig::new(id, exchange, None, PushFrequency::ServerDefault)
}

fn connected() -> Handles {
    AdapterHandles::spawn_venues(vec![
        (Venue::Binance, Ok("one")),
        (Venue::Bybit, Err(AdapterError::InvalidRequest("no".to_string()))),
        (Venue::Mexc, Ok("two")),
        (Venue::Binance, Ok("three")),
        (Venue::Mexc, Err(AdapterError::InvalidRequest("no".to_string()))),
    ])
}

#[test]
fn venues_keep_their_last_handle() {
    let handles = connected();
    assert_eq!(handles.handle(Venue::Binance), Some(&"three"));
    assert_eq!(handles.handle(Venue::Mexc), Some(&"two"));
    assert_eq!(handles.handle(Venue::Bybit), None);
    assert_eq!(handles.handle(Venue::Okex), None);
    let none: Handles = AdapterHandles::new();
    assert_eq!(none.handle(Venue::Binance), None);
}

#[test]
fn a_failure_to_connect_is_handed_on() {
    let mut handles = connected();
    assert_eq!(
        handles.spawn_venue(Venue::Mexc, Err(AdapterError::InvalidRequest("no".to_string()))),
        Err(AdapterError::InvalidRequest("no".to_string()))
    );
    assert_eq!(handles.handle(Venue::Mexc), Some(&"two"));
    assert_eq!(handles.spawn_venue(Venue::Hyperliquid, Ok("four")), Ok(()));
    assert_eq!(handles.handle(Venue::Hyperliquid), Some(&"four"));
    assert_eq!(missing_venue_error(Venue::Okex), unavailable(Venue::Okex, "OKX"));
}

#[test]
fn scopes_of_connections() {
    let btc = info("BTC", Exchange::HyperliquidLinear);
    let mut depth = config(btc.clone(), Exchange::HyperliquidLinear);
    assert_eq!(
        depth_scope(&depth),
        vec![StreamKind::Depth {
            ticker_info: btc.clone(),
            depth_aggr: StreamTicksize::ServerSide(TickMultiplier(1)),
            push_freq: PushFrequency::ServerDefault,
        }]
    );
    depth.tick_mltp = Some(TickMultiplier(5));
    depth.exchange = Exchange::BybitLinear;
    assert_eq!(
        depth_scope(&depth),
        vec![StreamKind::Depth {
            ticker_info: btc.clone(),
            depth_aggr: StreamTicksize::Client,
            push_freq: PushFrequency::ServerDefault,
        }]
    );
    let eth = info("ETH", Exchange::HyperliquidLinear);
    assert_eq!(
        trade_scope(&config(vec![btc.clone(), eth.clone()], Exchange::HyperliquidLinear)),
        vec![
            StreamKind::Trades { ticker_info: btc.clone() },
            StreamKind::Trades { ticker_info: eth.clone() },
        ]
    );
    assert_eq!(
        kline_scope(&config(vec![(btc.clone(), Timeframe::M5)], Exchange::HyperliquidLinear)),
        vec![StreamKind::Kline { ticker_info: btc, timeframe: Timeframe::M5 }]
    );
}

#[test]
fn streams_of_connected_venues() {
    let handles = connected();
    let btc = info("BTC", Exchange::BinanceLinear);
    let klines = config(vec![(btc.clone(), Timeframe::M1)], Exchange::BinanceLinear);
    match handles.kline_stream::<u8, u8, u8>(&klines) {
        StreamPlan::Connect { handle, request } => {
            assert_eq!(*handle, "three");
            assert_eq!(request, (vec![(btc.clone(), Timeframe::M1)], MarketKind::LinearPerps));
        },
        StreamPlan::Missing(_) => panic!("connected"),
    }
    let trades = config(vec![btc.clone()], Exchange::BinanceSpot);
    match handles.trade_stream::<u8, u8, u8>(&trades) {
        StreamPlan::Connect { handle, request } => {
            assert_eq!(*handle, "three");
            assert_eq!(request, (vec![btc.clone()], MarketKind::Spot));
        },
        StreamPlan::Missing(_) => panic!("connected"),
    }
    match handles.depth_stream::<u8, u8, u8>(&config(btc.clone(), Exchange::MexcLinear)) {
        StreamPlan::Connect { handle, request } => {
            assert_eq!(*handle, "two");
            assert_eq!(request.ticker_info, btc);
            assert_eq!(request.depth_aggr, StreamTicksize::Client);
            assert_eq!(request.push_freq, PushFrequency::ServerDefault);
        },
        StreamPlan::Missing(_) => panic!("connected"),
    }
}

#[test]
fn streams_of_missing_venues_are_disconnected() {
    let handles = connected();
    let btc = info("BTC", Exchange::OkexSpot);
    let trades = config(vec![btc.clone()], Exchange::OkexSpot);
    match handles.trade_stream::<u8, u8, u8>(&trades) {
        StreamPlan::Missing(Event::Disconnected(streams, message)) => {
            assert_eq!(streams, trade_scope(&trades));
            assert_eq!(message, "Adapter unavailable for OKX");
        },
        _ => panic!("missing"),
    }
    let klines = config(vec![(btc.clone(), Timeframe::H1)], Exchange::BybitSpot);
    match handles.kline_stream::<u8, u8, u8>(&klines) {
        StreamPlan::Missing(Event::Disconnected(streams, message)) => {
            assert_eq!(streams, kline_scope(&klines));
            assert_eq!(message, "Adapter unavailable for Bybit");
        },
        _ => panic!("missing"),
    }
    let depth = config(btc, Exchange::HyperliquidSpot);
    match handles.depth_stream::<u8, u8, u8>(&depth) {
        StreamPlan::Missing(Event::Disconnected(streams, message)) => {
            assert_eq!(streams, depth_scope(&depth));
            assert_eq!(message, "Adapter unavailable for Hyperliquid");
        },
        _ => panic!("missing"),
    }
}

#[test]
fn tickers_are_fetched_per_market_or_together() {
    let handles = connected();
    let markets = vec![MarketKind::Spot, MarketKind::InversePerps];
    let plan = handles.fetch_ticker_metadata(Venue::Binance, &markets).ok().unwrap();
    assert_eq!(plan.handle, Some(&"three"));
    assert_eq!(plan.requests, vec![vec![MarketKind::Spot], vec![MarketKind::InversePerps]]);
    let plan = handles.fetch_ticker_stats(Venue::Mexc, &markets, None).ok().unwrap();
    assert_eq!(plan.handle, Some(&"two"));
    assert_eq!(plan.requests, vec![markets.clone()]);
    let plan = handles.fetch_ticker_metadata(Venue::Okex, &markets).ok().unwrap();
    assert_eq!(plan.handle, None);
    assert!(plan.requests.is_empty());
    assert_eq!(
        handles.fetch_ticker_stats(Venue::Bybit, &markets, None).err(),
        Some(unavailable(Venue::Bybit, "Bybit"))
    );
}

#[test]
fn candles_are_fetched_from_their_venue() {
    let handles = connected();
    let fetch = |exchange| handles.fetch_klines(&info("X", exchange)).map(|h| h.copied());
    assert_eq!(fetch(Exchange::BinanceSpot), Ok(Some("three")));
    assert_eq!(fetch(Exchange::OkexLinear), Ok(None));
    assert_eq!(fetch(Exchange::BybitSpot), Err(unavailable(Venue::Bybit, "Bybit")));
}

#[test]
fn open_interest_is_fetched_where_there_is_any() {
    let handles = connected();
    let fetch = |exchange| handles.fetch_open_interest(&info("X", exchange)).map(|h| h.copied());
    assert_eq!(fetch(Exchange::BinanceInverse), Ok(Some("three")));
    assert_eq!(fetch(Exchange::OkexInverse), Ok(None));
    assert_eq!(fetch(Exchange::BybitLinear), Err(unavailable(Venue::Bybit, "Bybit")));
    assert_eq!(
        fetch(Exchange::BinanceSpot),
        Err(AdapterError::InvalidRequest(
            "Open interest data not available for Binance Spot".to_string()
        ))
    );
    assert_eq!(
        fetch(Exchange::OkexSpot),
        Err(AdapterError::InvalidRequest(
            "Open interest data not available for OKX Spot".to_string()
        ))
    );
    assert_eq!(
        fetch(Exchange::MexcLinear),
        Err(AdapterError::InvalidRequest(
            "Open interest data not available for MEXC Linear".to_string()
        ))
    );
}

#[test]
fn trades_are_fetched_from_one_venue() {
    let handles = connected();
    assert_eq!(handles.fetch_trades(&info("X", Exchange::BinanceSpot)), Ok(&"three"));
    assert_eq!(
        handles.fetch_trades(&info("X", Exchange::MexcSpot)),
        Err(AdapterError::InvalidRequest("Trade fetch not available for MEXC Spot".to_string()))
    );
    let none: Handles = AdapterHandles::new();
    assert_eq!(
        none.fetch_trades(&info("X", Exchange::BinanceSpot)),
        Err(unavailable(Venue::Binance, "Binance"))
    );
}

#[test]
fn replies_are_put_together() {
    let ticker = |symbol: &str| Ticker::new(symbol, Exchange::BinanceSpot);
    let map = |entries: &[(&str, u8)]| {
        let mut map = TickerMap::new();
        for (symbol, value) in entries {
            map.insert(ticker(symbol), *value);
        }
        map
    };
    let replies = vec![Ok(map(&[("A", 1), ("B", 2)])), Ok(map(&[("B", 3)]))];
    let all = merge_replies(replies).ok().unwrap();
    assert_eq!(all.get(&ticker("A")), Some(&1));
    assert_eq!(all.get(&ticker("B")), Some(&3));
    let failure = |text: &str| AdapterError::ParseError(text.to_string());
    let failed = merge_replies(vec![
        Ok(map(&[("A", 1)])),
        Err(failure("first")),
        Err(failure("second")),
    ]);
    assert_eq!(failed.err(), Some(failure("first")));
    let nothing: Vec<Result<TickerMap<u8>, AdapterError>> = vec![];
    assert!(merge_replies(nothing).ok().unwrap().into_entries().is_empty());
}

#[test]
fn topics_per_connection() {
    assert_eq!(MAX_TRADE_TICKERS_PER_STREAM, 100);
    assert_eq!(MAX_KLINE_STREAMS_PER_STREAM, 100);
}

#[test]
fn contract_sizes_go_to_the_venues_that_use_them() {
    let ticker = Ticker::new("BTC_USDT", Exchange::MexcLinear);
    let sizes = || {
        let mut sizes = TickerMap::new();
        sizes.insert(ticker.clone(), Bits64(7));
        Some(sizes)
    };
    let handles = AdapterHandles::spawn_venues(vec![
        (Venue::Binance, Ok(1)),
        (Venue::Bybit, Ok(2)),
        (Venue::Hyperliquid, Ok(3)),
        (Venue::Mexc, Ok(4)),
    ]);
    let markets = vec![MarketKind::LinearPerps];
    let carried = |venue| {
        let plan = handles.fetch_ticker_stats(venue, &markets, sizes()).ok().unwrap();
        plan.contract_sizes.map(|sizes| sizes.get(&ticker).copied())
    };
    assert_eq!(carried(Venue::Binance), Some(Some(Bits64(7))));
    assert_eq!(carried(Venue::Mexc), Some(Some(Bits64(7))));
    assert_eq!(carried(Venue::Bybit), None);
    assert_eq!(carried(Venue::Hyperliquid), None);
    assert_eq!(carried(Venue::Okex), None);
    let plan = handles.fetch_ticker_metadata(Venue::Mexc, &markets).ok().unwrap();
    assert!(plan.contract_sizes.is_none());
}

#[test]
fn requests_end_at_the_first_error() {
    let plan = TickerPlan {
        handle: Some(&1),
        requests: vec![vec![MarketKind::Spot], vec![MarketKind::LinearPerps]],
        contract_sizes: None,
    };
    let reply = || -> Result<TickerMap<u8>, AdapterError> { Ok(TickerMap::new()) };
    let failure = || -> Result<TickerMap<u8>, AdapterError> {
        Err(AdapterError::ParseError("no".to_string()))
    };
    assert_eq!(next_request(&plan, &Vec::<Result<TickerMap<u8>, AdapterError>>::new()), Some(0));
    assert_eq!(next_request(&plan, &vec![reply()]), Some(1));
    assert_eq!(next_request(&plan, &vec![failure()]), None);
    assert_eq!(next_request(&plan, &vec![reply(), reply()]), None);
    assert_eq!(next_request(&plan, &vec![reply(), failure()]), None);
}

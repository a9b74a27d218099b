use marketview::error::AdapterError;
use marketview::json::{document_list, list_item, list_member, text_member};
use marketview::limiter::TimeSpan;
use marketview::listing::{
    endpoints, gather_rows, has_market, unsupported_tickers, DailyFigures, DailyVolume, Endpoint,
    Listing, MinQty, PriceChange, TickSize,
};
use marketview::market::{Exchange, MarketKind};
use marketview::okex::{
    collect_klines, collect_open_interest, exchange_from_market_type, fetch_ticker_metadata,
    fetch_ticker_stats, instrument_list, instruments_url, kline_limit, kline_list, klines_url,
    market_from_symbol, open_interest_list, open_interest_url, raw_qty_unit_from_market_type,
    read_document, tickers_url, timeframe_to_okx_bar, KlineRow, OkexConfig, OpenInterestRow,
    PerpsFigures, PerpsInstrument, RawQtyUnit, SpotFigures, SpotInstrument,
};
use marketview::ticker::{Bits32, Bits64, Ticker, TickerInfo, TickerMap, UnixMs};
use marketview::timeframe::Timeframe;

fn bits(x: f64) -> Bits64 {
    Bits64(x.to_bits())
}

fn single(x: f32) -> Option<Bits32> {
    Some(Bits32(x.to_bits()))
}

fn info(symbol: &str, exchange: Exchange) -> TickerInfo {
    TickerInfo::new(Ticker::new(symbol, exchange), Bits32(0), Bits32(0), None)
}

fn parse_error(message: &str) -> AdapterError {
    AdapterError::ParseError(message.to_string())
}

#[test]
fn markets_of_the_venue() {
    assert_eq!(exchange_from_market_type(MarketKind::Spot), Exchange::OkexSpot);
    assert_eq!(exchange_from_market_type(MarketKind::InversePerps), Exchange::OkexInverse);
    assert_eq!(raw_qty_unit_from_market_type(MarketKind::Spot), RawQtyUnit::Base);
    assert_eq!(raw_qty_unit_from_market_type(MarketKind::LinearPerps), RawQtyUnit::Contracts);
    assert_eq!(timeframe_to_okx_bar(Timeframe::H12), Some("12Hutc"));
    assert_eq!(timeframe_to_okx_bar(Timeframe::M3), Some("3m"));
    assert_eq!(timeframe_to_okx_bar(Timeframe::MS500), None);
}

#[test]
fn limits_of_the_venue() {
    let config = OkexConfig::default();
    assert_eq!(config.limit, 20);
    assert_eq!(config.refill_rate, TimeSpan::from_secs(2));
    assert_eq!(f32::from_bits(config.limiter_buffer_pct.0), 0.05);
    let limiter = config.limiter_config();
    assert_eq!(limiter.limit, 20);
    assert_eq!(limiter.exit_status, 429);
    assert_eq!(limiter.refill_rate, TimeSpan::from_secs(2));
    assert_eq!(limiter.limiter_buffer_pct, config.limiter_buffer_pct);
}

#[test]
fn okx_addresses() {
    assert_eq!(
        instruments_url(Endpoint::Spot),
        "http://127.0.0.1/public/instruments?instType=SPOT"
    );
    assert_eq!(
        instruments_url(Endpoint::Perps),
        "http://127.0.0.1/public/instruments?instType=SWAP"
    );
    assert_eq!(tickers_url(Endpoint::Perps), "http://127.0.0.1/market/tickers?instType=SWAP");
}

#[test]
fn okx_candle_addresses() {
    let ticker = info("BTC-USDT", Exchange::OkexSpot);
    assert_eq!(
        klines_url(&ticker, Timeframe::M1, None),
        Ok("http://127.0.0.1/market/history-candles?instId=BTC-USDT&bar=1m&limit=300".to_string())
    );
    assert_eq!(
        klines_url(&ticker, Timeframe::H1, Some((UnixMs(0), UnixMs(36_000_000)))),
        Ok("http://127.0.0.1/market/history-candles?instId=BTC-USDT&bar=1H&limit=10&before=0&after=36000000"
            .to_string())
    );
    assert_eq!(
        klines_url(&ticker, Timeframe::MS100, None),
        Err(AdapterError::InvalidRequest("Unsupported timeframe: 100ms".to_string()))
    );
}

#[test]
fn as_many_candles_as_the_range_holds() {
    let limit = |end| kline_limit(Timeframe::M1, Some((UnixMs(0), UnixMs(end))));
    assert_eq!(limit(0), 1);
    assert_eq!(limit(59_999), 1);
    assert_eq!(limit(120_000), 2);
    assert_eq!(limit(18_000_000), 300);
    assert_eq!(limit(u64::MAX), 300);
    assert_eq!(kline_limit(Timeframe::M1, None), 300);
}

#[test]
fn okx_open_interest_addresses() {
    let ticker = info("BTC-USDT-SWAP", Exchange::OkexLinear);
    assert_eq!(
        open_interest_url(&ticker, None, Timeframe::D1),
        Ok("http://127.0.0.1/rubik/stat/contracts/open-interest-history?instId=BTC-USDT-SWAP&period=1Dutc"
            .to_string())
    );
    assert_eq!(
        open_interest_url(&ticker, Some((UnixMs(5), UnixMs(1234567890123))), Timeframe::M5),
        Ok("http://127.0.0.1/rubik/stat/contracts/open-interest-history?instId=BTC-USDT-SWAP&period=5m&begin=5&end=1234567890123"
            .to_string())
    );
    assert_eq!(
        open_interest_url(&ticker, None, Timeframe::MS200),
        Err(AdapterError::InvalidRequest("Unsupported timeframe: 200ms".to_string()))
    );
}

#[test]
fn nothing_is_listed_at_present() {
    let markets = MarketKind::all();
    assert!(fetch_ticker_metadata(&markets).into_entries().is_empty());
    assert!(fetch_ticker_stats(&markets).into_entries().is_empty());
}

#[test]
fn markets_are_fetched_from_their_endpoints() {
    let spot = MarketKind::Spot;
    let linear = MarketKind::LinearPerps;
    let inverse = MarketKind::InversePerps;
    assert_eq!(endpoints(&vec![]), vec![]);
    assert_eq!(endpoints(&vec![spot]), vec![Endpoint::Spot]);
    assert_eq!(endpoints(&vec![inverse]), vec![Endpoint::Perps]);
    assert_eq!(endpoints(&vec![linear, inverse, spot]), vec![Endpoint::Spot, Endpoint::Perps]);
    assert!(has_market(&vec![linear, spot], spot));
    assert!(!has_market(&vec![linear, spot], inverse));
}

#[test]
fn documents_are_read() {
    let document = read_document(r#"{"data": [{"instId": "A"}, 5]}"#).unwrap();
    let list = instrument_list(&document).unwrap();
    assert_eq!(list.len(), 2);
    assert_eq!(text_member(&list[0], "instId"), Some("A".to_string()));
    assert_eq!(text_member(&list[0], "state"), None);
    assert_eq!(text_member(&list[1], "instId"), None);
    assert_eq!(kline_list(&document).unwrap().len(), 2);
    let broken = read_document("{").unwrap_err();
    let expected = serde_json::from_str::<serde_json::Value>("{").unwrap_err().to_string();
    assert_eq!(broken, AdapterError::ParseError(expected));
}

#[test]
fn replies_without_a_list() {
    let document = read_document(r#"{"data": "none"}"#).unwrap();
    assert_eq!(
        instrument_list(&document).unwrap_err(),
        parse_error("Result list is not an array")
    );
    assert_eq!(kline_list(&document).unwrap_err(), parse_error("Kline result is not an array"));
    assert_eq!(
        open_interest_list(&document).unwrap_err(),
        parse_error("Fetch result is not an array")
    );
    assert_eq!(list_member(&document, "x", "no x").unwrap_err(), parse_error("no x"));
    assert_eq!(document_list(&document, "no list").unwrap_err(), parse_error("no list"));
}

fn listed(text: &str) -> TickerMap<Option<Listing>> {
    let document = read_document(text).unwrap();
    let rows: Vec<SpotInstrument> = instrument_list(&document)
        .unwrap()
        .iter()
        .map(|item| {
            let size = |key: &str| {
                text_member(item, key).and_then(|t| t.parse::<f32>().ok()).and_then(single)
            };
            SpotInstrument::from_value(item, size("tickSz"), size("lotSz"))
        })
        .collect();
    let mut map = TickerMap::new();
    assert_eq!(gather_rows(&rows, &MarketKind::all(), &mut map), Ok(()));
    map
}

#[test]
fn okx_spot_pairs() {
    let map = listed(
        r#"{"data": [
            {"instId": "BTC-USDT", "state": "live", "quoteCcy": "USDT", "tickSz": "0.1", "lotSz": "0.001"},
            {"instId": "ETH-USDC", "state": "live", "quoteCcy": "USDC", "tickSz": "0.01"},
            {"instId": "ETH-EUR", "state": "live", "quoteCcy": "EUR", "tickSz": "1", "lotSz": "1"},
            {"instId": "OLD-USDT", "state": "suspend", "quoteCcy": "USDT", "tickSz": "1", "lotSz": "1"},
            {"instId": "A/B", "state": "live", "quoteCcy": "USDT", "tickSz": "1", "lotSz": "1"},
            {"state": "live", "quoteCcy": "USDT", "tickSz": "1", "lotSz": "1"}
        ]}"#,
    );
    assert_eq!(
        map.get(&Ticker::new("BTC-USDT", Exchange::OkexSpot)),
        Some(&Some(Listing {
            min_ticksize: TickSize::Value(Bits32(0.1f32.to_bits())),
            min_qty: MinQty::Value(Bits32(0.001f32.to_bits())),
            contract_size: None,
        }))
    );
    // A ticker whose sizes cannot be read is listed without them.
    assert_eq!(map.get(&Ticker::new("ETH-USDC", Exchange::OkexSpot)), Some(&None));
    assert_eq!(map.into_entries().len(), 2);
}

#[test]
fn okx_contracts() {
    let document = read_document(
        r#"[
            {"instId": "BTC-USDT-SWAP", "state": "live", "ctType": "linear", "settleCcy": "USDT"},
            {"instId": "BTC-USDC-SWAP", "state": "live", "ctType": "linear", "settleCcy": "USDC"},
            {"instId": "BTC-USD-SWAP", "state": "live", "ctType": "inverse", "settleCcy": "BTC"},
            {"instId": "BTC-X", "state": "live", "ctType": "", "settleCcy": "BTC"},
            {"instId": "BTC-Y", "ctType": "inverse", "settleCcy": "BTC"}
        ]"#,
    )
    .unwrap();
    let rows: Vec<PerpsInstrument> = document_list(&document, "")
        .unwrap()
        .iter()
        .map(|item| PerpsInstrument::from_value(item, single(1.0), single(2.0), single(3.0)))
        .collect();
    let listing = Some(Listing {
        min_ticksize: TickSize::Value(Bits32(1.0f32.to_bits())),
        min_qty: MinQty::Value(Bits32(2.0f32.to_bits())),
        contract_size: single(3.0),
    });
    let linear = Ticker::new("BTC-USDT-SWAP", Exchange::OkexLinear);
    let inverse = Ticker::new("BTC-USD-SWAP", Exchange::OkexInverse);
    let mut map = TickerMap::new();
    assert_eq!(gather_rows(&rows, &MarketKind::all(), &mut map), Ok(()));
    assert_eq!(map.get(&linear), Some(&listing));
    assert_eq!(map.get(&inverse), Some(&listing));
    assert_eq!(map.into_entries().len(), 2);
    let mut only_inverse = TickerMap::new();
    assert_eq!(gather_rows(&rows, &vec![MarketKind::InversePerps], &mut only_inverse), Ok(()));
    assert_eq!(only_inverse.get(&linear), None);
    assert_eq!(only_inverse.get(&inverse), Some(&listing));
}

#[test]
fn okx_markets_by_symbol() {
    assert_eq!(market_from_symbol("BTC-USDT-SWAP"), Some(MarketKind::LinearPerps));
    assert_eq!(market_from_symbol("BTC-USD-SWAP"), Some(MarketKind::InversePerps));
    assert_eq!(market_from_symbol("BTC-USDC-SWAP"), None);
    assert_eq!(market_from_symbol("SWAP"), None);
}

#[test]
fn okx_figures_of_the_day() {
    let document = read_document(
        r#"[{"instId": "BTC-USDT"}, {"instId": "BTC-USDT-SWAP"}, {"instId": "A B"}, {}]"#,
    )
    .unwrap();
    let items = document_list(&document, "").unwrap();
    let markets = MarketKind::all();
    let spot: Vec<SpotFigures> = items
        .iter()
        .map(|item| {
            SpotFigures::from_value(item, Some(bits(2.0)), Some(bits(1.0)), Some(bits(9.0)))
        })
        .collect();
    let mut map = TickerMap::new();
    assert_eq!(gather_rows(&spot, &markets, &mut map), Ok(()));
    assert_eq!(
        map.get(&Ticker::new("BTC-USDT", Exchange::OkexSpot)),
        Some(&DailyFigures {
            last_price: bits(2.0),
            price_change: PriceChange::SinceOpen(bits(1.0)),
            volume: DailyVolume::Quote(bits(9.0)),
        })
    );
    assert_eq!(map.into_entries().len(), 2);
    let perps: Vec<PerpsFigures> = items
        .iter()
        .map(|item| {
            PerpsFigures::from_value(item, Some(bits(2.0)), Some(bits(1.0)), Some(bits(9.0)))
        })
        .collect();
    let mut map = TickerMap::new();
    assert_eq!(gather_rows(&perps, &markets, &mut map), Ok(()));
    let swap = Ticker::new("BTC-USDT-SWAP", Exchange::OkexLinear);
    assert_eq!(
        map.get(&swap),
        Some(&DailyFigures {
            last_price: bits(2.0),
            price_change: PriceChange::SinceOpen(bits(1.0)),
            volume: DailyVolume::Base(bits(9.0)),
        })
    );
    assert_eq!(map.into_entries().len(), 1);
    let mut none = TickerMap::new();
    assert_eq!(gather_rows(&perps, &vec![MarketKind::Spot], &mut none), Ok(()));
    assert_eq!(none.get(&swap), None);
    // A row that lacks a number is passed over.
    let lacking = vec![SpotFigures::from_value(&items[0], None, Some(bits(1.0)), Some(bits(9.0)))];
    let mut none = TickerMap::new();
    assert_eq!(gather_rows(&lacking, &markets, &mut none), Ok(()));
    assert!(none.into_entries().is_empty());
}

fn row(time: u64, close: f64) -> KlineRow {
    KlineRow {
        time: Some(time),
        open: Some(bits(1.0)),
        high: Some(bits(2.0)),
        low: Some(bits(0.5)),
        close: Some(bits(close)),
        volume: Some(bits(7.0)),
    }
}

#[test]
fn okx_candles_come_by_time() {
    let rows = vec![
        row(30, 1.0),
        row(10, 2.0),
        KlineRow { high: None, ..row(5, 3.0) },
        row(30, 4.0),
        KlineRow { time: None, ..row(5, 3.0) },
        KlineRow { volume: None, ..row(20, 5.0) },
    ];
    let candles = collect_klines(&rows);
    let read: Vec<(u64, f64, f64)> = candles
        .iter()
        .map(|c| (c.time, f64::from_bits(c.close.0), f64::from_bits(c.volume.0)))
        .collect();
    // Candles of one time keep the order of their rows; a missing volume is zero.
    assert_eq!(read, vec![(10, 2.0, 7.0), (20, 5.0, 0.0), (30, 1.0, 7.0), (30, 4.0, 7.0)]);
    assert!(collect_klines(&vec![]).is_empty());
}

#[test]
fn okx_open_interest_rows() {
    let rows = vec![
        OpenInterestRow { time: Some(2), value: Some(bits(1.5)) },
        OpenInterestRow { time: None, value: Some(bits(2.5)) },
        OpenInterestRow { time: Some(1), value: None },
        OpenInterestRow { time: Some(1), value: Some(bits(3.5)) },
    ];
    let read: Vec<(u64, f64)> = collect_open_interest(&rows)
        .iter()
        .map(|oi| (oi.time.as_u64(), f64::from_bits(oi.value.0)))
        .collect();
    assert_eq!(read, vec![(2, 1.5), (1, 3.5)]);
}

#[test]
fn okx_symbols_that_are_told_of() {
    let document = read_document(
        r#"[
            {"instId": "A/B", "state": "live", "quoteCcy": "USDT", "ctType": "inverse"},
            {"instId": "C/D", "state": "live", "quoteCcy": "EUR", "ctType": ""},
            {"instId": "E/F", "quoteCcy": "USDT", "ctType": "inverse"},
            {"instId": "GOOD", "state": "live", "quoteCcy": "USDT", "ctType": "inverse"}
        ]"#,
    )
    .unwrap();
    let list = document_list(&document, "").unwrap();
    let spot: Vec<SpotInstrument> =
        list.iter().map(|item| SpotInstrument::from_value(item, None, None)).collect();
    assert_eq!(
        unsupported_tickers(&spot, &MarketKind::all()),
        vec![Ticker::new("A/B", Exchange::OkexSpot)]
    );
    let perps: Vec<PerpsInstrument> =
        list.iter().map(|item| PerpsInstrument::from_value(item, None, None, None)).collect();
    assert_eq!(
        unsupported_tickers(&perps, &MarketKind::all()),
        vec![Ticker::new("A/B", Exchange::OkexInverse)]
    );
    assert!(unsupported_tickers(&perps, &vec![MarketKind::LinearPerps]).is_empty());
}

#[test]
fn okx_members_and_cells() {
    let item = read_document(
        r#"{"tickSz": 1, "lotSz": 2, "ctVal": 3, "last": 4, "open24h": 5, "volCcy24h": 6}"#,
    )
    .unwrap();
    let spot = SpotInstrument::members(&item);
    assert_eq!((spot.tick_size.as_u64(), spot.lot_size.as_u64()), (Some(1), Some(2)));
    let perps = PerpsInstrument::members(&item);
    assert_eq!((perps.tick_size.as_u64(), perps.lot_size.as_u64()), (Some(1), Some(2)));
    assert_eq!(perps.contract_size.as_u64(), Some(3));
    for members in [SpotFigures::members(&item), PerpsFigures::members(&item)] {
        assert_eq!(members.last.as_u64(), Some(4));
        assert_eq!(members.open_24h.as_u64(), Some(5));
        assert_eq!(members.volume_24h.as_u64(), Some(6));
    }
    let row = read_document("[10, 11, 12, 13, 14]").unwrap();
    let cells = KlineRow::cells(&row);
    assert_eq!(cells.time.unwrap().as_u64(), Some(10));
    assert_eq!(cells.open.unwrap().as_u64(), Some(11));
    assert_eq!(cells.high.unwrap().as_u64(), Some(12));
    assert_eq!(cells.low.unwrap().as_u64(), Some(13));
    assert_eq!(cells.close.unwrap().as_u64(), Some(14));
    assert!(cells.volume.is_none());
    let cells = OpenInterestRow::cells(&row);
    assert_eq!(cells.time.unwrap().as_u64(), Some(10));
    assert_eq!(cells.value.unwrap().as_u64(), Some(12));
    assert!(list_item(&item, 0).is_none());
}

use marketview::error::AdapterError;
use marketview::listing::{
    gather_rows, unsupported_tickers, DailyFigures, DailyVolume, Endpoint, Listing, MinQty,
    PriceChange, TickSize,
};
use marketview::market::{Exchange, MarketKind};
use marketview::mexc::{
    depth_snapshot_url, exchange_from_market_type, klines_url, metadata_list, metadata_url,
    read_document, read_exchange_info, spot_klines, stats_list, stats_url, Contract, DepthData,
    KlineSpot, PerpsColumns, PerpsFigures, PerpsScope, SpotFigures, SpotSymbol,
};
use marketview::ticker::{Bits32, Bits64, Ticker, TickerInfo, TickerMap, UnixMs};
use marketview::timeframe::Timeframe;
use serde_json::Value;

fn bits(x: f64) -> Bits64 {
    Bits64(x.to_bits())
}

fn single(x: f32) -> Option<Bits32> {
    Some(Bits32(x.to_bits()))
}

fn parse_error(message: &str) -> AdapterError {
    AdapterError::ParseError(message.to_string())
}

fn info(symbol: &str, exchange: Exchange) -> TickerInfo {
    TickerInfo::new(Ticker::new(symbol, exchange), Bits32(0), Bits32(0), None)
}

fn items(text: &str) -> Vec<Value> {
    let document = read_document(text).unwrap();
    stats_list(&document, Endpoint::Spot).unwrap().clone()
}

#[test]
fn mexc_markets() {
    assert_eq!(exchange_from_market_type(MarketKind::Spot), Exchange::MexcSpot);
    assert_eq!(exchange_from_market_type(MarketKind::LinearPerps), Exchange::MexcLinear);
    assert_eq!(exchange_from_market_type(MarketKind::InversePerps), Exchange::MexcInverse);
}

#[test]
fn mexc_addresses() {
    assert_eq!(metadata_url("http://m", Endpoint::Spot), "http://m/v3/exchangeInfo");
    assert_eq!(metadata_url("http://m", Endpoint::Perps), "http://m/v1/contract/detail");
    assert_eq!(stats_url("http://m", Endpoint::Spot), "http://m/v3/ticker/24hr");
    assert_eq!(stats_url("http://m", Endpoint::Perps), "http://m/v1/contract/ticker");
}

#[test]
fn mexc_order_books() {
    let perps = Ticker::new("BTC_USDT", Exchange::MexcLinear);
    assert_eq!(
        depth_snapshot_url("http://m", &perps),
        Ok("http://m/v1/contract/depth/BTC_USDT?limit=1000".to_string())
    );
    assert_eq!(
        depth_snapshot_url("http://m", &Ticker::new("BTCUSDT", Exchange::MexcSpot)),
        Err(AdapterError::InvalidRequest(
            "MEXC spot depth snapshot is not supported in this stream".to_string()
        ))
    );
    let data = DepthData { asks: vec![1, 2], bids: vec![3], version: 9, timestamp: 77 };
    let payload = data.into_payload();
    assert_eq!(payload.last_update_id, 9);
    assert_eq!(payload.time, UnixMs(77));
    assert_eq!(payload.bids, vec![3]);
    assert_eq!(payload.asks, vec![1, 2]);
}

#[test]
fn mexc_documents() {
    let spot = read_exchange_info(r#"{"symbols": [1, 2, 3]}"#).unwrap();
    assert_eq!(metadata_list(&spot, Endpoint::Spot).unwrap().len(), 3);
    assert_eq!(
        metadata_list(&spot, Endpoint::Perps).unwrap_err(),
        parse_error("Result list is not an array")
    );
    let perps = read_document(r#"{"data": [1]}"#).unwrap();
    assert_eq!(
        metadata_list(&perps, Endpoint::Spot).unwrap_err(),
        parse_error("Missing symbols array")
    );
    assert_eq!(stats_list(&perps, Endpoint::Perps).unwrap().len(), 1);
    assert_eq!(
        stats_list(&perps, Endpoint::Spot).unwrap_err(),
        parse_error("Data is not an array")
    );
    assert_eq!(
        stats_list(&spot, Endpoint::Perps).unwrap_err(),
        parse_error("Data is not an array")
    );
    let expected = sonic_rs::from_str::<Value>("[1").unwrap_err().to_string();
    assert_eq!(read_document("[1").unwrap_err(), parse_error(&expected));
    assert_eq!(
        read_exchange_info("[1").unwrap_err(),
        parse_error(&format!("Failed to parse MEXC exchange info: {expected}"))
    );
}

#[test]
fn mexc_spot_pairs() {
    let rows: Vec<SpotSymbol> = items(
        r#"[
            {"status": "1", "symbol": "BTCUSDT", "quoteAsset": "USDT", "quoteAssetPrecision": 2},
            {"symbol": "ETHUSDC", "quoteAsset": "USDC"},
            {"status": "2", "symbol": "NOQUOTE", "quoteAssetPrecision": -1},
            {"status": "3", "symbol": "OLDUSDT", "quoteAsset": "USDT", "quoteAssetPrecision": 2},
            {"status": "3"},
            {"status": "1", "symbol": "BTCEUR", "quoteAsset": "EUR", "quoteAssetPrecision": 2},
            {"status": "1", "symbol": "A.B", "quoteAsset": "USDT", "quoteAssetPrecision": 2}
        ]"#,
    )
    .iter()
    .map(|item| SpotSymbol::from_value(item, single(0.5)))
    .collect();
    let mut map = TickerMap::new();
    assert_eq!(gather_rows(&rows, &MarketKind::all(), &mut map), Ok(()));
    let listing = |places| {
        Some(Listing {
            min_ticksize: TickSize::DecimalPlaces(places),
            min_qty: MinQty::Value(Bits32(0.5f32.to_bits())),
            contract_size: None,
        })
    };
    assert_eq!(map.get(&Ticker::new("BTCUSDT", Exchange::MexcSpot)), Some(&listing(2)));
    assert_eq!(map.get(&Ticker::new("NOQUOTE", Exchange::MexcSpot)), Some(&listing(-1)));
    assert_eq!(map.get(&Ticker::new("ETHUSDC", Exchange::MexcSpot)), Some(&None));
    assert_eq!(map.into_entries().len(), 3);
    let nameless = vec![SpotSymbol::from_value(&items(r#"[{"status": "1"}]"#)[0], None)];
    let mut map = TickerMap::new();
    assert_eq!(
        gather_rows(&nameless, &MarketKind::all(), &mut map),
        Err(parse_error("Missing symbol"))
    );
}

fn contract_outcome(text: &str, markets: &Vec<MarketKind>) -> Result<usize, AdapterError> {
    let rows: Vec<Contract> = items(text)
        .iter()
        .map(|item| Contract::from_value(item, single(1.0), single(2.0), single(3.0)))
        .collect();
    let mut map = TickerMap::new();
    gather_rows(&rows, markets, &mut map)?;
    Ok(map.into_entries().len())
}

#[test]
fn mexc_contracts() {
    let rows: Vec<Contract> = items(
        r#"[
            {"state": 0, "symbol": "BTC_USDT", "quoteCoin": "USDT", "settleCoin": "USDT", "baseCoin": "BTC"},
            {"symbol": "BTC_USD", "quoteCoin": "USD", "settleCoin": "BTC", "baseCoin": "BTC"},
            {"state": 2}
        ]"#,
    )
    .iter()
    .map(|item| Contract::from_value(item, single(1.0), single(2.0), single(3.0)))
    .collect();
    let mut map = TickerMap::new();
    assert_eq!(gather_rows(&rows, &MarketKind::all(), &mut map), Ok(()));
    let listing = Some(Listing {
        min_ticksize: TickSize::Value(Bits32(2.0f32.to_bits())),
        min_qty: MinQty::Contracts(Bits32(1.0f32.to_bits())),
        contract_size: single(3.0),
    });
    assert_eq!(map.get(&Ticker::new("BTC_USDT", Exchange::MexcLinear)), Some(&listing));
    assert_eq!(map.get(&Ticker::new("BTC_USD", Exchange::MexcInverse)), Some(&listing));
    let sizeless = vec![Contract { price_unit: None, ..Contract::from_value(
        &items(r#"[{"symbol": "BTC_USDT", "quoteCoin": "USDT", "settleCoin": "USDT", "baseCoin": "BTC"}]"#)[0],
        single(1.0),
        single(2.0),
        single(3.0),
    ) }];
    let mut map = TickerMap::new();
    assert_eq!(gather_rows(&sizeless, &MarketKind::all(), &mut map), Ok(()));
    assert_eq!(map.get(&Ticker::new("BTC_USDT", Exchange::MexcLinear)), Some(&None));
}

#[test]
fn mexc_contracts_that_cannot_be_told() {
    let all = MarketKind::all();
    assert_eq!(contract_outcome(r#"[{}]"#, &all), Err(parse_error("Missing symbol")));
    assert_eq!(
        contract_outcome(r#"[{"symbol": "A"}]"#, &all),
        Err(parse_error("Missing quoteCoin"))
    );
    assert_eq!(contract_outcome(r#"[{"symbol": "A", "quoteCoin": "EUR"}]"#, &all), Ok(0));
    assert_eq!(
        contract_outcome(r#"[{"symbol": "A", "quoteCoin": "USD"}]"#, &all),
        Err(parse_error("Missing settleCoin"))
    );
    assert_eq!(
        contract_outcome(r#"[{"symbol": "A", "quoteCoin": "USD", "settleCoin": "X"}]"#, &all),
        Err(parse_error("Missing baseCoin"))
    );
    assert_eq!(
        contract_outcome(
            r#"[{"symbol": "A", "quoteCoin": "USD", "settleCoin": "X", "baseCoin": "Y"}]"#,
            &all
        ),
        Err(parse_error("Unknown contract type"))
    );
    let linear = r#"[{"symbol": "A", "quoteCoin": "USD", "settleCoin": "USD", "baseCoin": "Y"}]"#;
    assert_eq!(contract_outcome(linear, &all), Ok(1));
    assert_eq!(contract_outcome(linear, &vec![MarketKind::InversePerps]), Ok(0));
}

fn spot_row(symbol: &str) -> SpotFigures {
    SpotFigures {
        symbol: Some(symbol.to_string()),
        last_price: Some(bits(2.0)),
        price_change_percent: single(0.5),
        volume: Some(bits(3.0)),
        quote_volume: Some(bits(6.5)),
    }
}

fn spot_outcome(row: SpotFigures) -> Result<Option<DailyFigures>, AdapterError> {
    let ticker = Ticker::new("BTCUSDT", Exchange::MexcSpot);
    let mut map = TickerMap::new();
    gather_rows(&vec![row], &vec![MarketKind::Spot], &mut map)?;
    Ok(map.get(&ticker).copied())
}

#[test]
fn mexc_spot_figures() {
    let figures = |volume| DailyFigures {
        last_price: bits(2.0),
        price_change: PriceChange::Ratio(Bits32(0.5f32.to_bits())),
        volume,
    };
    assert_eq!(
        spot_outcome(spot_row("BTCUSDT")),
        Ok(Some(figures(DailyVolume::Quote(bits(6.5)))))
    );
    assert_eq!(
        spot_outcome(SpotFigures { quote_volume: None, ..spot_row("BTCUSDT") }),
        Ok(Some(figures(DailyVolume::Base(bits(3.0)))))
    );
    assert_eq!(
        spot_outcome(SpotFigures { last_price: None, ..spot_row("BTCUSDT") }),
        Err(parse_error("Last price not found"))
    );
    assert_eq!(
        spot_outcome(SpotFigures { price_change_percent: None, ..spot_row("BTCUSDT") }),
        Err(parse_error("Price change percent not found"))
    );
    assert_eq!(
        spot_outcome(SpotFigures { volume: None, ..spot_row("BTCUSDT") }),
        Err(parse_error("Volume not found"))
    );
    assert_eq!(spot_outcome(SpotFigures { last_price: None, ..spot_row("BTCEUR") }), Ok(None));
    let read = SpotFigures::from_value(&items(r#"[{"symbol": 5}]"#)[0], None, None, None, None);
    assert_eq!(spot_outcome(read), Err(parse_error("Symbol not found")));
}

fn perps_row() -> PerpsFigures {
    PerpsFigures {
        symbol: Some("BTC_USDT".to_string()),
        market: Some(MarketKind::LinearPerps),
        last_price: Some(bits(2.0)),
        rise_fall_rate: single(0.25),
        volume_24: Some(bits(3.0)),
    }
}

fn perps_outcome(row: PerpsFigures, known: bool) -> Result<Vec<DailyFigures>, AdapterError> {
    let mut sizes = TickerMap::new();
    sizes.insert(Ticker::new("BTC_USDT", Exchange::MexcLinear), bits(10.0));
    sizes.insert(Ticker::new("BTC_USDT", Exchange::MexcInverse), bits(20.0));
    let scope = PerpsScope {
        markets: vec![MarketKind::LinearPerps, MarketKind::InversePerps],
        contract_sizes: if known { Some(sizes) } else { None },
    };
    let mut map = TickerMap::new();
    gather_rows(&vec![row], &scope, &mut map)?;
    Ok(map.into_entries().into_iter().map(|(_, figures)| figures).collect())
}

#[test]
fn mexc_perps_figures() {
    let figures = |volume| DailyFigures {
        last_price: bits(2.0),
        price_change: PriceChange::Ratio(Bits32(0.25f32.to_bits())),
        volume,
    };
    assert_eq!(
        perps_outcome(perps_row(), true),
        Ok(vec![figures(DailyVolume::BaseContracts { count: bits(3.0), size: bits(10.0) })])
    );
    assert_eq!(
        perps_outcome(
            PerpsFigures { market: Some(MarketKind::InversePerps), ..perps_row() },
            true
        ),
        Ok(vec![figures(DailyVolume::QuoteContracts { count: bits(3.0), size: bits(20.0) })])
    );
    assert_eq!(perps_outcome(perps_row(), false), Ok(vec![]));
    assert_eq!(perps_outcome(PerpsFigures { market: None, ..perps_row() }, true), Ok(vec![]));
    assert_eq!(
        perps_outcome(PerpsFigures { market: Some(MarketKind::Spot), ..perps_row() }, true),
        Ok(vec![])
    );
    assert_eq!(
        perps_outcome(PerpsFigures { last_price: None, ..perps_row() }, true),
        Err(parse_error("Last price not found"))
    );
    assert_eq!(
        perps_outcome(PerpsFigures { rise_fall_rate: None, ..perps_row() }, true),
        Err(parse_error("Missing riseFallRate"))
    );
    assert_eq!(
        perps_outcome(PerpsFigures { volume_24: None, ..perps_row() }, true),
        Err(parse_error("Missing volume24"))
    );
    let nameless = PerpsFigures::from_value(&items("[{}]")[0], None, None, None, None);
    assert_eq!(perps_outcome(nameless, true), Err(parse_error("Symbol not found")));
}

#[test]
fn the_first_failing_row_ends_the_list() {
    let rows = vec![
        spot_row("AUSDT"),
        SpotFigures { volume: None, ..spot_row("BUSDT") },
        SpotFigures { last_price: None, ..spot_row("CUSDT") },
    ];
    let mut map = TickerMap::new();
    assert_eq!(
        gather_rows(&rows, &vec![MarketKind::Spot], &mut map),
        Err(parse_error("Volume not found"))
    );
}

#[test]
fn mexc_candle_addresses() {
    let range = Some((UnixMs(1_500), UnixMs(9_999)));
    let spot = info("btcusdt", Exchange::MexcSpot);
    let perps = info("btc_usdt", Exchange::MexcLinear);
    assert_eq!(
        klines_url("http://m", &spot, Timeframe::M1, Some("1m"), None),
        Ok("http://m/v3/klines?symbol=BTCUSDT&interval=1m".to_string())
    );
    assert_eq!(
        klines_url("http://m", &spot, Timeframe::M1, Some("1m"), range),
        Ok("http://m/v3/klines?symbol=BTCUSDT&interval=1m&startTime=1500&endTime=9999".to_string())
    );
    assert_eq!(
        klines_url("http://m", &perps, Timeframe::M1, Some("Min1"), range),
        Ok("http://m/v1/contract/kline/BTC_USDT?interval=Min1&start=1&end=9".to_string())
    );
    assert_eq!(
        klines_url("http://m", &perps, Timeframe::M3, None, range),
        Err(AdapterError::InvalidRequest(
            "Unsupported MEXC kline timeframe 3m for Linear".to_string()
        ))
    );
}

#[test]
fn mexc_spot_candles() {
    let row = KlineSpot {
        open_ts: 5,
        open: bits(1.0),
        high: bits(2.0),
        low: bits(3.0),
        close: bits(4.0),
        vol: bits(5.0),
        close_ts: 6,
        asset_vol: bits(7.0),
    };
    let candles = spot_klines(&vec![row, KlineSpot { open_ts: 4, ..row }]);
    assert_eq!(candles.len(), 2);
    assert_eq!(candles[0].time, 5);
    assert_eq!(candles[0].close, bits(4.0));
    assert_eq!(candles[0].volume, bits(5.0));
    assert_eq!(candles[1].time, 4);
}

fn columns(text: &str) -> Result<PerpsColumns, AdapterError> {
    PerpsColumns::from_value(&read_document(text).unwrap())
}

#[test]
fn mexc_contract_candles() {
    let read = columns(
        r#"{"time": [1, 2], "open": [1, 1.5], "high": [2, -3], "low": [0, 1],
            "close": [1, 2], "amount": [5, 6], "vol": [7, 8]}"#,
    )
    .unwrap();
    assert!(read.is_readable());
    let candles = read.perps_klines().unwrap();
    assert_eq!(candles.len(), 2);
    assert_eq!(candles[0].time, 1_000);
    assert_eq!(candles[1].time, 2_000);
    assert_eq!(candles[1].open, bits(1.5));
    assert_eq!(candles[1].high, bits(-3.0));
    assert_eq!(candles[0].volume, bits(7.0));
}

#[test]
fn mexc_columns_that_are_missing() {
    let names = ["time", "open", "high", "low", "close", "amount", "vol"];
    let titles = ["Time", "Open", "High", "Low", "Close", "Amount", "Vol"];
    for missing in 0..names.len() {
        let members: Vec<String> = (0..names.len())
            .filter(|i| *i != missing)
            .map(|i| format!("\"{}\": [1]", names[i]))
            .collect();
        let without = columns(&format!("{{{}}}", members.join(", ")));
        assert_eq!(
            without.err(),
            Some(parse_error(&format!("{} array not found", titles[missing])))
        );
        let members: Vec<String> = (0..names.len())
            .map(|i| format!("\"{}\": [{}]", names[i], if i == missing { "null" } else { "1" }))
            .collect();
        let unread = columns(&format!("{{{}}}", members.join(", "))).unwrap();
        assert!(unread.is_readable());
        assert_eq!(
            unread.perps_klines().err(),
            Some(parse_error(&format!("{} value not found", titles[missing])))
        );
    }
}

#[test]
fn mexc_columns_that_end_too_early() {
    let short = columns(
        r#"{"time": [1, 2], "open": [1], "high": [1, 1], "low": [1, 1], "close": [1, 1],
            "amount": [1, 1], "vol": [1, 1]}"#,
    )
    .unwrap();
    assert!(!short.is_readable());
    // A row that fails first hides the end of a column below it.
    let hidden = columns(
        r#"{"time": [null, 2], "open": [1], "high": [], "low": [], "close": [], "amount": [],
            "vol": []}"#,
    )
    .unwrap();
    assert!(hidden.is_readable());
    assert_eq!(hidden.perps_klines().err(), Some(parse_error("Time value not found")));
    let late = columns(
        r#"{"time": [18446744073709551615], "open": [1], "high": [1], "low": [1], "close": [1],
            "amount": [1], "vol": [1]}"#,
    )
    .unwrap();
    assert!(!late.is_readable());
}

#[test]
fn mexc_symbols_that_are_told_of() {
    let spot: Vec<SpotSymbol> = items(
        r#"[
            {"status": "3", "symbol": "O.LD", "quoteAsset": "USDT"},
            {"status": "1", "symbol": "A.B", "quoteAsset": "EUR"},
            {"status": "1", "symbol": "BTCUSDT", "quoteAsset": "USDT"},
            {"status": "1"},
            {"status": "1", "symbol": "C.D", "quoteAsset": "USDT"}
        ]"#,
    )
    .iter()
    .map(|item| SpotSymbol::from_value(item, None))
    .collect();
    assert_eq!(
        unsupported_tickers(&spot, &MarketKind::all()),
        vec![Ticker::new("A.B", Exchange::MexcSpot)]
    );
    let contracts: Vec<Contract> = items(
        r#"[
            {"symbol": "A.B", "quoteCoin": "USDT", "settleCoin": "USDT", "baseCoin": "A"},
            {"symbol": "C.D", "quoteCoin": "USD", "settleCoin": "C", "baseCoin": "C"},
            {"symbol": "E.F", "quoteCoin": "EUR", "settleCoin": "E", "baseCoin": "E"}
        ]"#,
    )
    .iter()
    .map(|item| Contract::from_value(item, None, None, None))
    .collect();
    assert_eq!(
        unsupported_tickers(&contracts, &vec![MarketKind::InversePerps]),
        vec![Ticker::new("C.D", Exchange::MexcInverse)]
    );
}

#[test]
fn mexc_members_of_items() {
    let item = &items(
        r#"[{"baseSizePrecision": 1, "minVol": 2, "priceUnit": 3, "contractSize": 4,
            "lastPrice": 5, "priceChangePercent": 6, "volume": 7, "quoteVolume": 8,
            "riseFallRate": 9, "volume24": 10, "symbol": "S"}]"#,
    )[0];
    assert_eq!(SpotSymbol::size_member(item).as_u64(), Some(1));
    let contract = Contract::members(item);
    assert_eq!(contract.min_volume.as_u64(), Some(2));
    assert_eq!(contract.price_unit.as_u64(), Some(3));
    assert_eq!(contract.contract_size.as_u64(), Some(4));
    let spot = SpotFigures::members(item);
    assert_eq!(spot.last_price.as_u64(), Some(5));
    assert_eq!(spot.price_change_percent.as_u64(), Some(6));
    assert_eq!(spot.volume.as_u64(), Some(7));
    assert_eq!(spot.quote_volume.as_u64(), Some(8));
    let perps = PerpsFigures::members(item);
    assert_eq!(perps.symbol.as_str(), Some("S"));
    assert_eq!(perps.last_price.as_u64(), Some(5));
    assert_eq!(perps.rise_fall_rate.as_u64(), Some(9));
    assert_eq!(perps.volume_24.as_u64(), Some(10));
}

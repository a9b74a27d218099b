use marketview::market::Exchange;
use marketview::stream::{
    default_depth_aggr, StreamConfig, StreamKind, StreamTicksize,
};
use marketview::ticker::{Bits32, PushFrequency, TickMultiplier, Ticker, TickerInfo, TickerMap};
use marketview::timeframe::Timeframe;
use marketview::unique_streams::UniqueStreams;

fn info(symbol: &str, exchange: Exchange) -> TickerInfo {
    TickerInfo::new(Ticker::new(symbol, exchange), Bits32(1), Bits32(2), None)
}

fn trades(symbol: &str, exchange: Exchange) -> StreamKind {
    StreamKind::Trades { ticker_info: info(symbol, exchange) }
}

fn klines(symbol: &str, exchange: Exchange, timeframe: Timeframe) -> StreamKind {
    StreamKind::Kline { ticker_info: info(symbol, exchange), timeframe }
}

fn depth(symbol: &str, exchange: Exchange) -> StreamKind {
    StreamKind::Depth {
        ticker_info: info(symbol, exchange),
        depth_aggr: StreamTicksize::Client,
        push_freq: PushFrequency::ServerDefault,
    }
}

#[test]
fn a_stream_is_of_one_kind() {
    let stream = klines("BTCUSDT", Exchange::BinanceSpot, Timeframe::M5);
    assert_eq!(
        stream.as_kline_stream(),
        Some((info("BTCUSDT", Exchange::BinanceSpot), Timeframe::M5))
    );
    assert_eq!(stream.as_trade_stream(), None);
    assert_eq!(stream.as_depth_stream(), None);
    assert_eq!(stream.ticker_info(), info("BTCUSDT", Exchange::BinanceSpot));
    assert_eq!(
        depth("X", Exchange::BybitSpot).as_depth_stream(),
        Some((
            info("X", Exchange::BybitSpot),
            StreamTicksize::Client,
            PushFrequency::ServerDefault
        ))
    );
    assert_eq!(
        trades("X", Exchange::BybitSpot).as_trade_stream(),
        Some(info("X", Exchange::BybitSpot))
    );
}

#[test]
fn a_stream_is_held_once() {
    let mut streams = UniqueStreams::default();
    streams.add(trades("A", Exchange::BinanceSpot));
    streams.add(trades("A", Exchange::BinanceSpot));
    streams.add(trades("B", Exchange::BinanceSpot));
    streams.add(depth("A", Exchange::BinanceSpot));
    assert_eq!(streams.trade_streams(None).len(), 2);
    assert_eq!(streams.depth_streams(None), vec![(
        info("A", Exchange::BinanceSpot),
        StreamTicksize::Client,
        PushFrequency::ServerDefault
    )]);
    assert_eq!(streams.kline_streams(None), vec![]);
}

#[test]
fn order_of_adding_does_not_matter() {
    let list = vec![
        klines("A", Exchange::MexcSpot, Timeframe::M1),
        klines("A", Exchange::BinanceLinear, Timeframe::M1),
        klines("A", Exchange::BinanceLinear, Timeframe::M5),
    ];
    let mut reversed = list.clone();
    reversed.reverse();
    let one = UniqueStreams::from(&list);
    let other = UniqueStreams::from(&reversed);
    let sorted = |streams: &UniqueStreams| {
        let mut intervals: Vec<(usize, u64)> = streams
            .kline_streams(None)
            .iter()
            .map(|(info, tf)| (info.exchange().index(), tf.to_milliseconds()))
            .collect();
        intervals.sort();
        intervals
    };
    assert_eq!(sorted(&one), vec![(0, 60_000), (0, 300_000), (13, 60_000)]);
    assert_eq!(sorted(&one), sorted(&other));
    // Exchanges come in the order of their positions.
    assert_eq!(one.kline_streams(None)[2].0.exchange(), Exchange::MexcSpot);
}

#[test]
fn exchanges_that_are_not_on_offer_are_listed_by_name_only() {
    let streams = UniqueStreams::from(&vec![
        trades("A", Exchange::OkexSpot),
        trades("A", Exchange::BybitSpot),
    ]);
    assert_eq!(streams.trade_streams(None), vec![info("A", Exchange::BybitSpot)]);
    assert_eq!(
        streams.trade_streams(Some(Exchange::OkexSpot)),
        vec![info("A", Exchange::OkexSpot)]
    );
    assert_eq!(streams.trade_streams(Some(Exchange::MexcSpot)), vec![]);
}

#[test]
fn sorted_streams_follow_what_is_added() {
    let mut streams = UniqueStreams::new();
    assert!(streams.combined_used().is_empty());
    streams.extend(&vec![
        klines("A", Exchange::MexcSpot, Timeframe::M1),
        trades("A", Exchange::BinanceSpot),
        depth("A", Exchange::BinanceSpot),
        trades("A", Exchange::OkexSpot),
    ]);
    let used = streams.combined_used();
    let exchanges: Vec<Exchange> = used.iter().map(|(exchange, _)| *exchange).collect();
    assert_eq!(exchanges, vec![Exchange::BinanceSpot, Exchange::OkexSpot, Exchange::MexcSpot]);
    assert_eq!(used[0].1.trade, vec![info("A", Exchange::BinanceSpot)]);
    assert_eq!(used[0].1.depth.len(), 1);
    assert_eq!(used[0].1.kline.len(), 0);
    assert_eq!(used[2].1.kline, vec![(info("A", Exchange::MexcSpot), Timeframe::M1)]);
    let all = streams.combined();
    assert_eq!(all.len(), 14);
    assert!(all[Exchange::BybitSpot.index()].is_none());
    assert!(all[Exchange::OkexSpot.index()].is_some());
}

#[test]
fn grouping_of_the_order_book() {
    let five = Some(TickMultiplier(5));
    let one = TickMultiplier(1);
    assert_eq!(Exchange::BybitSpot.stream_ticksize(five, one), StreamTicksize::Client);
    assert_eq!(
        Exchange::HyperliquidLinear.stream_ticksize(five, one),
        StreamTicksize::ServerSide(TickMultiplier(5))
    );
    assert_eq!(
        Exchange::HyperliquidLinear.stream_ticksize(None, one),
        StreamTicksize::ServerSide(one)
    );
    assert_eq!(StreamTicksize::default(), StreamTicksize::Client);
    assert_eq!(default_depth_aggr(), StreamTicksize::Client);
}

#[test]
fn multipliers_that_can_be_chosen() {
    let all = [TickMultiplier(1), TickMultiplier(2), TickMultiplier(5), TickMultiplier(10)];
    let venue: [u16; 3] = [10, 1, 100];
    assert_eq!(Exchange::BybitSpot.allowed_tick_multipliers(&all, None), all.to_vec());
    assert_eq!(
        Exchange::HyperliquidSpot.allowed_tick_multipliers(&all, Some(&venue)),
        vec![TickMultiplier(1), TickMultiplier(10)]
    );
    assert_eq!(Exchange::HyperliquidSpot.allowed_tick_multipliers(&all, None), vec![]);
}

#[test]
fn settings_of_a_connection() {
    let config = StreamConfig::new(
        7u8,
        Exchange::BybitSpot,
        Some(TickMultiplier(3)),
        PushFrequency::Custom(Timeframe::MS100),
    );
    assert_eq!(config.id, 7);
    assert_eq!(config.exchange, Exchange::BybitSpot);
    assert_eq!(config.tick_mltp, Some(TickMultiplier(3)));
    assert_eq!(config.push_freq, PushFrequency::Custom(Timeframe::MS100));
}

#[test]
fn maps_from_tickers() {
    let ticker = |symbol: &str| Ticker::new(symbol, Exchange::BybitSpot);
    let mut map: TickerMap<u8> = TickerMap::new();
    map.insert(ticker("A"), 1);
    map.insert(ticker("B"), 2);
    map.insert(ticker("A"), 3);
    assert_eq!(map.get(&ticker("A")), Some(&3));
    assert_eq!(map.get(&Ticker::new("A", Exchange::BybitLinear)), None);
    let mut more: TickerMap<u8> = TickerMap::new();
    more.insert(ticker("B"), 4);
    more.insert(ticker("C"), 5);
    map.extend(more);
    assert_eq!(map.get(&ticker("B")), Some(&4));
    assert_eq!(map.get(&ticker("C")), Some(&5));
    assert_eq!(map.into_entries().len(), 3);
}

#[test]
fn only_exchanges_with_streams_have_lists() {
    assert!(UniqueStreams::default().combined_used().is_empty());
    assert!(UniqueStreams::from(&vec![]).combined_used().is_empty());
    let mut streams = UniqueStreams::from(&vec![trades("A", Exchange::BybitSpot)]);
    streams.extend(&vec![trades("B", Exchange::BinanceSpot), trades("A", Exchange::BybitSpot)]);
    let mut used: Vec<Exchange> = streams.combined_used().iter().map(|(e, _)| *e).collect();
    used.sort_by_key(|e| e.index());
    let mut expected = vec![Exchange::BybitSpot, Exchange::BinanceSpot];
    expected.sort_by_key(|e| e.index());
    assert_eq!(used, expected);
}

use marketview::market::{Exchange, MarketKind, Venue};
use marketview::timeframe::Timeframe;

#[test]
fn market_kinds_read_back() {
    for kind in MarketKind::all() {
        assert_eq!(MarketKind::from_str(kind.label()), Ok(kind));
    }
    assert_eq!(MarketKind::from_str("SPOT"), Ok(MarketKind::Spot));
    assert_eq!(MarketKind::from_str("margin"), Err("Invalid market kind: margin".to_string()));
    assert_eq!(MarketKind::InversePerps.label(), "Inverse");
}

#[test]
fn venues_read_back() {
    for venue in [Venue::Bybit, Venue::Binance, Venue::Hyperliquid, Venue::Okex, Venue::Mexc] {
        assert_eq!(Venue::from_str(venue.label()), Ok(venue));
    }
    assert_eq!(Venue::from_str("okex"), Ok(Venue::Okex));
    assert_eq!(Venue::from_str("OKX"), Ok(Venue::Okex));
    assert_eq!(Venue::from_str("kraken"), Err("Invalid venue: kraken".to_string()));
    assert_eq!(
        Venue::all(),
        vec![Venue::Bybit, Venue::Binance, Venue::Hyperliquid, Venue::Mexc]
    );
}

#[test]
fn exchanges_read_back() {
    for exchange in Exchange::all() {
        assert_eq!(Exchange::from_str(exchange.label().as_str()), Ok(exchange));
        assert_eq!(
            Exchange::from_venue_and_market(exchange.venue(), exchange.market_type()),
            Some(exchange)
        );
    }
    assert_eq!(Exchange::all().len(), 11);
    assert_eq!(Exchange::MexcInverse.label(), "MEXC Inverse");
    assert_eq!(Exchange::from_str("  bybit\tLINEAR "), Ok(Exchange::BybitLinear));
}

#[test]
fn exchanges_that_are_not_on_offer() {
    assert_eq!(Exchange::from_venue_and_market(Venue::Okex, MarketKind::Spot), None);
    assert_eq!(
        Exchange::from_venue_and_market(Venue::Hyperliquid, MarketKind::InversePerps),
        None
    );
    for text in ["OKX Spot", "", "Bybit", "Bybit Linear extra", "Kraken Spot", "Bybit margin"] {
        assert_eq!(Exchange::from_str(text), Err(format!("Invalid exchange: {text}")));
    }
}

#[test]
fn positions_of_exchanges() {
    for index in 0..14 {
        assert_eq!(Exchange::at_index(index).index(), index);
    }
    assert_eq!(Exchange::BinanceLinear.index(), 0);
    assert_eq!(Exchange::MexcSpot.index(), 13);
}

#[test]
fn features_of_exchanges() {
    assert!(!Exchange::HyperliquidSpot.is_depth_client_aggr());
    assert!(Exchange::OkexSpot.is_depth_client_aggr());
    assert!(Exchange::BybitSpot.is_custom_push_freq());
    assert!(!Exchange::BinanceSpot.is_custom_push_freq());
    assert!(Exchange::OkexInverse.is_perps());
    assert!(!Exchange::HyperliquidSpot.is_perps());
}

#[test]
fn heatmap_intervals() {
    assert!(!Exchange::BybitSpot.supports_heatmap_timeframe(Timeframe::MS100));
    assert!(Exchange::BybitSpot.supports_heatmap_timeframe(Timeframe::MS200));
    assert!(!Exchange::MexcLinear.supports_heatmap_timeframe(Timeframe::MS500));
    assert!(!Exchange::BybitLinear.supports_heatmap_timeframe(Timeframe::MS200));
    assert!(Exchange::BybitLinear.supports_heatmap_timeframe(Timeframe::MS100));
    assert!(!Exchange::HyperliquidLinear.supports_heatmap_timeframe(Timeframe::MS300));
    assert!(Exchange::HyperliquidLinear.supports_heatmap_timeframe(Timeframe::MS500));
    assert!(Exchange::BinanceSpot.supports_heatmap_timeframe(Timeframe::MS100));
}

#[test]
fn candle_intervals() {
    assert!(Exchange::BinanceSpot.supports_kline_timeframe(Timeframe::M3));
    assert!(!Exchange::BinanceSpot.supports_kline_timeframe(Timeframe::MS100));
    assert!(!Exchange::MexcSpot.supports_kline_timeframe(Timeframe::M3));
    assert!(!Exchange::MexcSpot.supports_kline_timeframe(Timeframe::H2));
    assert!(!Exchange::MexcSpot.supports_kline_timeframe(Timeframe::H12));
    assert!(Exchange::MexcSpot.supports_kline_timeframe(Timeframe::H4));
    assert_eq!(Timeframe::H4.to_milliseconds(), 14_400_000);
    assert_eq!(Timeframe::MS300.label(), "300ms");
}

#[test]
fn symbols_that_can_be_shown() {
    let exchange = Exchange::BinanceSpot;
    assert!(exchange.is_symbol_supported("BTC-USDT_1"));
    assert!(exchange.is_symbol_supported(""));
    assert!(!exchange.is_symbol_supported("BTC/USDT"));
    assert!(!exchange.is_symbol_supported("BTC USDT"));
    // Letters and digits of any script count; other signs do not.
    assert!(exchange.is_symbol_supported("\u{5e01}\u{5b89}"));
    assert!(!exchange.is_symbol_supported("\u{1f600}"));
}

#[test]
fn quantities_in_the_quote_currency() {
    assert!(MarketKind::InversePerps.qty_is_quote_value(false));
    assert!(MarketKind::Spot.qty_is_quote_value(true));
    assert!(!MarketKind::LinearPerps.qty_is_quote_value(false));
}

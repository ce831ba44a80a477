use trading_core::analysis::TechnicalAnalysisImpl;
use trading_core::feeds::{MarketDataSubscription, SubscriptionChannel, WebSocketHandler};
use trading_core::market::MarketDataManager;
use trading_core::models::{MarketData, OrderSide};

#[test]
fn test_market_data_manager() {
    let mut manager = MarketDataManager::new(10);
    let test_data = MarketData { symbol: "BTCUSDT".to_string(), close_price: 50000, ..Default::default() };
    manager.update_market_data(test_data);
    let history = manager.get_price_history();
    assert_eq!(history.len(), 1);
    assert_eq!(history[0], 50000);
}

#[test]
fn market_data_history_is_bounded() {
    let mut manager = MarketDataManager::new(3);
    for close in 1..=5 {
        manager.update_market_data(MarketData { symbol: "BTCUSDT".to_string(), close_price: close, ..Default::default() });
    }
    assert_eq!(manager.get_price_history(), vec![3, 4, 5]);
    assert_eq!(manager.get_current_data().close_price, 5);
    manager.initialize_history(vec![9, 8, 7, 6]);
    assert_eq!(manager.get_price_history(), vec![9, 8, 7]);
}

#[test]
fn subscription_builder_appends_channels() {
    let sub = MarketDataSubscription::new("BTCUSDT").with_klines("1m").with_ticker().with_channel(SubscriptionChannel::Depth);
    assert_eq!(sub.symbol, "BTCUSDT");
    assert_eq!(sub.channels.len(), 3);
    assert!(matches!(&sub.channels[0], SubscriptionChannel::Kline(i) if i == "1m"));
    assert!(matches!(sub.channels[1], SubscriptionChannel::Ticker));
}

#[test]
fn handler_keeps_its_symbol() {
    assert_eq!(WebSocketHandler::new("ETHUSDT".to_string()).symbol(), "ETHUSDT");
}

#[test]
fn order_side_names() {
    assert_eq!(OrderSide::Buy.as_str(), "BUY");
    assert_eq!(OrderSide::Sell.as_str(), "SELL");
    assert_eq!(OrderSide::Buy.opposite(), OrderSide::Sell);
}

#[test]
fn analysis_service_uses_the_engine() {
    let ta = TechnicalAnalysisImpl::new();
    let prices: Vec<i64> = (0..20).map(|i| 1_000_000 * (100 + i)).collect();
    assert_eq!(ta.calculate_rsi(&prices, 14), Ok(10_000));
    assert_eq!(ta.calculate_ema(&[10, 11, 12, 13, 14], 3), Ok(vec![11, 12, 13]));
    let (m, s) = ta.calculate_macd(&prices, 3, 5, 3).unwrap();
    assert_eq!(m.len(), 16);
    assert_eq!(s.len(), 14);
}

use trading_core::market::{MarketDataProcessor, MAX_CANDLES};
use trading_core::models::{Candlestick, PriceHistory};

#[test]
fn processor_keeps_histories_per_symbol_and_interval() {
    let mut p = MarketDataProcessor::new();
    for i in 0..3 {
        p.add_candlestick("BTCUSDT", "1m", Candlestick { close: 100 + i, ..Default::default() });
    }
    p.add_candlestick("BTCUSDT", "5m", Candlestick { close: 7, ..Default::default() });
    let h = p.get_price_history("BTCUSDT", "1m").unwrap();
    assert_eq!(h.close_prices(), vec![100, 101, 102]);
    assert_eq!(p.get_price_history("BTCUSDT", "5m").unwrap().candles.len(), 1);
    assert!(p.get_price_history("ETHUSDT", "1m").is_none());
}

#[test]
fn processor_history_is_capped() {
    let mut p = MarketDataProcessor::new();
    for i in 0..(MAX_CANDLES as i64 + 5) {
        p.add_candlestick("BTCUSDT", "1m", Candlestick { close: i, ..Default::default() });
    }
    let h = p.get_price_history("BTCUSDT", "1m").unwrap();
    assert_eq!(h.candles.len(), MAX_CANDLES);
    assert_eq!(h.candles[0].close, 5);
}

#[test]
fn kline_updates_feed_history_and_latest_data() {
    let mut p = MarketDataProcessor::new();
    let kline = MarketData {
        symbol: "BTCUSDT".to_string(),
        timestamp: 120_000,
        close_price: 55,
        interval: Some("1m".to_string()),
        ..Default::default()
    };
    p.on_kline_update(kline);
    let candle = &p.get_price_history("BTCUSDT", "1m").unwrap().candles[0];
    assert_eq!(candle.open_time, 60_000);
    assert_eq!(candle.close, 55);
    assert_eq!(p.get_latest_data("BTCUSDT").unwrap().close_price, 55);
    p.add_price_history(PriceHistory::new("BTCUSDT", "1m"));
    assert!(p.get_price_history("BTCUSDT", "1m").unwrap().candles.is_empty());
}

#[test]
fn side_names_read_back() {
    assert_eq!(OrderSide::from("sell".to_string()), OrderSide::Sell);
    assert_eq!(OrderSide::from("SELL".to_string()), OrderSide::Sell);
    assert_eq!(OrderSide::from("Buy".to_string()), OrderSide::Buy);
    assert_eq!(OrderSide::from("hold".to_string()), OrderSide::Buy);
    for side in [OrderSide::Buy, OrderSide::Sell] {
        assert_eq!(OrderSide::from(side.as_str().to_string()), side);
    }
}

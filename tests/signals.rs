use trading_core::models::{TradeAction, TradingSignal};
use trading_core::signals::{SignalGate, DEFAULT_COOLDOWN_MS};

fn at(action: TradeAction, timestamp: i64) -> TradingSignal {
    TradingSignal {
        symbol: "BTCUSDT".to_string(),
        action,
        price: 1,
        confidence: 8_000,
        timestamp,
        indicators: Vec::new(),
    }
}

#[test]
fn cooldown_drops_hold_but_forwards_reversals() {
    let mut gate = SignalGate::new(DEFAULT_COOLDOWN_MS);
    assert!(gate.on_signal(&at(TradeAction::Buy, 0)));
    assert!(!gate.on_signal(&at(TradeAction::Hold, 1_000)));
    assert!(gate.on_signal(&at(TradeAction::Sell, 1_000)));
    assert!(!gate.on_signal(&at(TradeAction::Hold, 300_999)));
    assert!(gate.on_signal(&at(TradeAction::Hold, 301_000)));
}

#[test]
fn idle_instrument_forwards_hold() {
    let mut gate = SignalGate::new(DEFAULT_COOLDOWN_MS);
    assert!(gate.on_signal(&at(TradeAction::Hold, 0)));
    let mut other = at(TradeAction::Buy, 0);
    other.symbol = "ETHUSDT".to_string();
    assert!(gate.on_signal(&other));
    assert!(gate.on_signal(&at(TradeAction::Hold, 10)));
}

use trading_core::errors::TradingError;
use trading_core::models::MarketData;
use trading_core::signals::SignalProcessor;
use trading_core::strategies::{RSIStrategy, SMACrossoverStrategy, TradingStrategy};

#[test]
fn registry_adds_replaces_and_removes() {
    let mut p = SignalProcessor::new();
    p.add_strategy("sma", TradingStrategy::SmaCrossover(SMACrossoverStrategy::new("BTCUSDT", 5, 20)));
    p.add_strategy("rsi", TradingStrategy::Rsi(RSIStrategy::new("BTCUSDT", 14, 7000, 3000)));
    p.add_strategy("sma", TradingStrategy::SmaCrossover(SMACrossoverStrategy::new("BTCUSDT", 3, 10)));
    assert_eq!(p.get_strategies(), vec!["sma".to_string(), "rsi".to_string()]);
    assert_eq!(p.strategy_count(), 2);
    assert!(matches!(p.strategy_at(0), TradingStrategy::SmaCrossover(s) if s.fast_period == 3));
    assert!(matches!(p.remove_strategy("rsi"), Some(TradingStrategy::Rsi(_))));
    assert!(p.remove_strategy("rsi").is_none());
    assert_eq!(p.get_strategies(), vec!["sma".to_string()]);
}

#[test]
fn processor_starts_once() {
    let mut p = SignalProcessor::new();
    assert!(!p.is_running());
    assert_eq!(p.start(), Ok(()));
    assert_eq!(p.start(), Err(TradingError::Signal));
    p.stop();
    assert!(!p.is_running());
}

#[test]
fn manual_signal_needs_market_data() {
    let p = SignalProcessor::new();
    assert_eq!(p.generate_signal("BTCUSDT", TradeAction::Buy, 5_000, None, 7), Err(TradingError::Signal));
    let data = MarketData { symbol: "BTCUSDT".to_string(), last_price: 42, ..Default::default() };
    let s = p.generate_signal("BTCUSDT", TradeAction::Buy, 5_000, Some(&data), 7).unwrap();
    assert_eq!(s.price, 42);
    assert_eq!(s.timestamp, 7);
}

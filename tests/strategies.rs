use trading_core::errors::{AnalysisError, TradingError};
use trading_core::models::{Candlestick, PriceHistory, TradeAction};
use trading_core::strategies::{
    MACDStrategy, ParameterRange, ParameterValue, RSIStrategy, SMACrossoverStrategy, TradingStrategy,
};

const S: i64 = 1_000_000;

fn history(closes: &[i64]) -> PriceHistory {
    let mut h = PriceHistory::new("BTCUSDT", "1m");
    for (i, c) in closes.iter().enumerate() {
        h.add_candle(Candlestick {
            symbol: "BTCUSDT".to_string(),
            interval: "1m".to_string(),
            close_time: 60_000 * (i as i64 + 1),
            open: c * S,
            high: c * S,
            low: c * S,
            close: c * S,
            ..Default::default()
        });
    }
    h
}

#[test]
fn sma_crossover_signals_once_at_the_cross() {
    let closes = [20, 19, 18, 17, 16, 15, 14, 13, 14, 16, 18, 20, 22, 24];
    let strategy = SMACrossoverStrategy::new("BTCUSDT", 2, 4);
    let mut signals = Vec::new();
    for m in 6..=closes.len() {
        if let Some(sig) = strategy.analyze(&history(&closes[..m])).unwrap() {
            signals.push((m, sig));
        }
    }
    assert_eq!(signals.len(), 1);
    let (m, sig) = &signals[0];
    assert_eq!(*m, 10);
    assert_eq!(sig.action, TradeAction::Buy);
    assert_eq!(sig.price, 16 * S);
    assert_eq!(sig.timestamp, 600_000);
    // 0.8 plus the gap of 0.75 between the averages, in basis points of the close 16.
    assert_eq!(sig.confidence, 8_468);
    assert_eq!(sig.symbol, "BTCUSDT");
}

#[test]
fn sma_crossover_sells_on_downward_cross() {
    let closes = [10, 11, 12, 13, 14, 15, 16, 17, 16, 14, 12];
    let strategy = SMACrossoverStrategy::new("BTCUSDT", 2, 4);
    let sig = strategy.analyze(&history(&closes[..10])).unwrap().unwrap();
    assert_eq!(sig.action, TradeAction::Sell);
    assert_eq!(sig.confidence, 8_535);
}

#[test]
fn strategies_carry_their_names() {
    let sma = SMACrossoverStrategy::new("BTCUSDT", 2, 4);
    assert_eq!(sma.name(), "SMA Crossover");
    assert_eq!(sma.description(), "Generates buy/sell signals based on fast and slow SMA crossovers");
    assert_eq!(RSIStrategy::new("BTCUSDT", 14, 7000, 3000).name(), "RSI Strategy");
    assert_eq!(MACDStrategy::new("BTCUSDT", 3, 5, 3).name(), "MACD Strategy");
}

#[test]
fn sma_crossover_needs_slow_period_plus_two() {
    let strategy = SMACrossoverStrategy::new("BTCUSDT", 2, 4);
    assert_eq!(
        strategy.analyze(&history(&[1, 2, 3, 4, 5])),
        Err(TradingError::Strategy(AnalysisError::InsufficientData { needed: 6, available: 5 }))
    );
}

#[test]
fn rsi_strategy_buys_when_oversold() {
    let strategy = RSIStrategy::new("BTCUSDT", 4, 7000, 3000);
    let sig = strategy.analyze(&history(&[110, 108, 109, 105, 106, 101, 102, 99, 100, 95])).unwrap().unwrap();
    assert_eq!(sig.action, TradeAction::Buy);
    // RSI 14.51: (30.00 - 14.51) / 30.00
    assert_eq!(sig.confidence, 5163);
}

#[test]
fn rsi_strategy_sells_when_overbought() {
    let strategy = RSIStrategy::new("BTCUSDT", 14, 7000, 3000);
    let closes: Vec<i64> = (100..120).collect();
    let sig = strategy.analyze(&history(&closes)).unwrap().unwrap();
    assert_eq!(sig.action, TradeAction::Sell);
    assert_eq!(sig.confidence, 10_000);
}

#[test]
fn rsi_strategy_is_quiet_between_thresholds() {
    let strategy = RSIStrategy::new("BTCUSDT", 4, 7000, 3000);
    assert!(strategy.analyze(&history(&[100, 102, 101, 105, 103, 108, 107, 110, 106, 104])).unwrap().is_none());
}

#[test]
fn macd_strategy_needs_enough_candles() {
    let strategy = MACDStrategy::new("BTCUSDT", 3, 5, 3);
    assert_eq!(
        strategy.analyze(&history(&[1, 2, 3])),
        Err(TradingError::Strategy(AnalysisError::InsufficientData { needed: 10, available: 3 }))
    );
}

#[test]
fn macd_strategy_detects_signal_line_cross() {
    let strategy = MACDStrategy::new("BTCUSDT", 3, 5, 3);
    // MACD minus signal ends at 89211 then -103214: a downward cross.
    let sig = strategy.analyze(&history(&[10, 12, 11, 13, 15, 14, 16, 18, 17, 19, 21, 20])).unwrap().unwrap();
    assert_eq!(sig.action, TradeAction::Sell);
    assert_eq!(sig.confidence, 8_051);
}

#[test]
fn sma_parameter_updates_keep_fast_below_slow() {
    let mut strategy = SMACrossoverStrategy::new("BTCUSDT", 5, 20);
    assert_eq!(strategy.update_parameter("fast_period", ParameterValue::Integer(25)), Err(TradingError::InvalidParameter));
    assert_eq!(strategy.fast_period, 5);
    assert_eq!(strategy.update_parameter("fast_period", ParameterValue::Integer(10)), Ok(()));
    assert_eq!(strategy.fast_period, 10);
    assert_eq!(strategy.update_parameter("slow_period", ParameterValue::Integer(10)), Err(TradingError::InvalidParameter));
    assert_eq!(strategy.update_parameter("window", ParameterValue::Integer(10)), Err(TradingError::UnknownParameter));
    let params = strategy.parameters();
    assert_eq!(params.len(), 2);
    assert_eq!(params[0].name, "fast_period");
    assert!(matches!(params[0].value, ParameterValue::Integer(10)));
    assert_eq!(params[1].range, Some(ParameterRange::Integer(5, 200)));
}

#[test]
fn rsi_threshold_updates_keep_their_order() {
    let mut strategy = RSIStrategy::new("BTCUSDT", 14, 7000, 3000);
    assert_eq!(strategy.update_parameter("overbought_threshold", ParameterValue::Decimal(2500)), Err(TradingError::InvalidParameter));
    assert_eq!(strategy.update_parameter("overbought_threshold", ParameterValue::Decimal(8000)), Ok(()));
    assert_eq!(strategy.overbought_threshold, 8000);
    assert_eq!(strategy.update_parameter("oversold_threshold", ParameterValue::Decimal(-1)), Err(TradingError::InvalidParameter));
    assert_eq!(strategy.update_parameter("period", ParameterValue::Integer(1)), Err(TradingError::InvalidParameter));
}

#[test]
fn strategies_share_one_interface() {
    let mut strategies = vec![
        TradingStrategy::SmaCrossover(SMACrossoverStrategy::new("BTCUSDT", 2, 4)),
        TradingStrategy::Rsi(RSIStrategy::new("BTCUSDT", 14, 7000, 3000)),
        TradingStrategy::Macd(MACDStrategy::new("BTCUSDT", 3, 5, 3)),
    ];
    assert_eq!(strategies[0].name(), "SMA Crossover");
    assert_eq!(strategies[1].parameters().len(), 3);
    assert_eq!(strategies[2].update_parameter("signal_period", ParameterValue::Integer(4)), Ok(()));
    let h = history(&[20, 19, 18, 17, 16, 15, 14, 13, 14, 16]);
    assert_eq!(strategies[0].analyze(&h).unwrap().unwrap().action, TradeAction::Buy);
    strategies.clear();
}

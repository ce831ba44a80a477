use trading_core::errors::{ExchangeError, RiskRejection, TradingError};
use trading_core::execution::{RiskParameters, SignalDecision, TradeExecutor};
use trading_core::models::{Order, OrderResponse, OrderSide, OrderStatus, TradeAction, TradingSignal};

/// 50,000 quote units at eight decimals.
const BTC_PRICE: i64 = 5_000_000_000_000;

fn signal(symbol: &str, action: TradeAction, price: i64) -> TradingSignal {
    TradingSignal {
        symbol: symbol.to_string(),
        action,
        price,
        confidence: 10_000,
        timestamp: 1_000,
        indicators: Vec::new(),
    }
}

fn filled(order: &Order, price: i64, id: &str) -> OrderResponse {
    OrderResponse {
        order_id: id.to_string(),
        client_order_id: None,
        status: OrderStatus::Filled,
        filled_quantity: order.quantity,
        average_price: Some(price),
        timestamp: 2_000,
    }
}

fn open(engine: &mut TradeExecutor, symbol: &str, action: TradeAction, price: i64) -> Order {
    let order = engine.prepare_order(&signal(symbol, action, price), Some(1_000_000_000_000), 1_500).unwrap().unwrap();
    engine.complete_order(&order, Ok(filled(&order, price, "open"))).unwrap();
    order
}

#[test]
fn order_size_is_budget_over_price_in_lots() {
    let engine = TradeExecutor::new();
    // 100 quote units at full confidence buy 0.002 BTC = 200 lots.
    assert_eq!(engine.calculate_order_size(&signal("BTCUSDT", TradeAction::Buy, BTC_PRICE), Some(1_000_000_000_000)), 200);
    // Half confidence halves the budget.
    let mut half = signal("BTCUSDT", TradeAction::Buy, BTC_PRICE);
    half.confidence = 5_000;
    assert_eq!(engine.calculate_order_size(&half, Some(1_000_000_000_000)), 100);
    // A 25-unit balance caps it; an unknown balance allows half the largest order.
    assert_eq!(engine.calculate_order_size(&signal("BTCUSDT", TradeAction::Buy, BTC_PRICE), Some(2_500_000_000)), 50);
    assert_eq!(engine.calculate_order_size(&signal("BTCUSDT", TradeAction::Buy, BTC_PRICE), None), 100);
    assert_eq!(engine.calculate_order_size(&signal("BTCUSDT", TradeAction::Buy, 0), None), 0);
}

#[test]
fn opening_fill_sets_levels_and_ledger() {
    let mut engine = TradeExecutor::new();
    open(&mut engine, "BTCUSDT", TradeAction::Buy, BTC_PRICE);
    let positions = engine.get_positions();
    assert_eq!(positions.len(), 1);
    let p = &positions[0];
    assert_eq!(p.side, OrderSide::Buy);
    assert_eq!(p.quantity, 200);
    assert_eq!(p.entry_price, BTC_PRICE);
    assert_eq!(p.stop_loss, Some(4_750_000_000_000));
    assert_eq!(p.take_profit, Some(5_500_000_000_000));
    let trades = engine.get_trades();
    assert_eq!(trades.len(), 1);
    assert_eq!(trades[0].entry_order_id, "open");
    assert_eq!(trades[0].pnl, None);
    assert_eq!(engine.get_trade_count(), 1);
}

#[test]
fn long_round_trip_realizes_price_move_times_quantity() {
    let mut engine = TradeExecutor::new();
    open(&mut engine, "BTCUSDT", TradeAction::Buy, BTC_PRICE);
    let exit = 5_100_000_000_000;
    let close = engine.prepare_order(&signal("BTCUSDT", TradeAction::Sell, exit), None, 3_000).unwrap().unwrap();
    assert_eq!(close.side, OrderSide::Sell);
    assert_eq!(close.quantity, 200);
    engine.complete_order(&close, Ok(filled(&close, exit, "close"))).unwrap();
    let expected = (exit as i128 - BTC_PRICE as i128) * 200;
    assert_eq!(engine.get_daily_pnl(), expected);
    assert_eq!(engine.get_trades()[0].pnl, Some(expected));
    assert_eq!(engine.get_trades()[0].exit_order_id, Some("close".to_string()));
    assert!(engine.get_positions().is_empty());
}

#[test]
fn short_round_trip_inverts_the_sign() {
    let mut engine = TradeExecutor::new();
    open(&mut engine, "BTCUSDT", TradeAction::Sell, BTC_PRICE);
    let exit = 4_900_000_000_000;
    let close = engine.prepare_order(&signal("BTCUSDT", TradeAction::Buy, exit), None, 3_000).unwrap().unwrap();
    assert_eq!(close.side, OrderSide::Buy);
    engine.complete_order(&close, Ok(filled(&close, exit, "close"))).unwrap();
    assert_eq!(engine.get_daily_pnl(), -((exit as i128 - BTC_PRICE as i128) * 200));
}

#[test]
fn one_open_position_rejects_a_second_symbol() {
    let mut params = RiskParameters::default();
    params.max_open_positions = 1;
    let mut engine = TradeExecutor::with_risk_parameters(params);
    open(&mut engine, "BTCUSDT", TradeAction::Buy, BTC_PRICE);
    assert_eq!(
        engine.prepare_order(&signal("ETHUSDT", TradeAction::Buy, 300_000_000_000), Some(1_000_000_000_000), 3_000),
        Err(TradingError::RiskRejected(RiskRejection::MaxOpenPositions))
    );
    assert_eq!(engine.get_positions().len(), 1);
}

#[test]
fn trade_limit_blocks_opening_until_reset() {
    let mut params = RiskParameters::default();
    params.max_trades_per_day = 1;
    let mut engine = TradeExecutor::with_risk_parameters(params);
    open(&mut engine, "BTCUSDT", TradeAction::Buy, BTC_PRICE);
    let eth = signal("ETHUSDT", TradeAction::Buy, 300_000_000_000);
    assert_eq!(engine.should_execute_signal(&eth), SignalDecision::Reject(RiskRejection::MaxTradesPerDay));
    assert_eq!(
        engine.prepare_order(&eth, Some(1_000_000_000_000), 3_000),
        Err(TradingError::RiskRejected(RiskRejection::MaxTradesPerDay))
    );
    engine.reset_daily();
    assert!(engine.prepare_order(&eth, Some(1_000_000_000_000), 4_000).unwrap().is_some());
}

#[test]
fn daily_loss_limit_blocks_opening() {
    let mut params = RiskParameters::default();
    params.max_daily_loss = 1;
    let mut engine = TradeExecutor::with_risk_parameters(params);
    open(&mut engine, "BTCUSDT", TradeAction::Buy, BTC_PRICE);
    // A loss of 1,000 ticks on 200 lots exceeds one tick of daily loss.
    let close = engine.prepare_order(&signal("BTCUSDT", TradeAction::Sell, BTC_PRICE - 1_000), None, 3_000).unwrap().unwrap();
    engine.complete_order(&close, Ok(filled(&close, BTC_PRICE - 1_000, "close"))).unwrap();
    assert_eq!(
        engine.prepare_order(&signal("ETHUSDT", TradeAction::Buy, 300_000_000_000), None, 4_000),
        Err(TradingError::RiskRejected(RiskRejection::MaxDailyLoss))
    );
}

#[test]
fn repeated_signals_never_open_twice() {
    let mut engine = TradeExecutor::new();
    let buy = signal("BTCUSDT", TradeAction::Buy, BTC_PRICE);
    let order = engine.prepare_order(&buy, None, 1_000).unwrap().unwrap();
    assert_eq!(
        engine.prepare_order(&buy, None, 1_001),
        Err(TradingError::RiskRejected(RiskRejection::OrderInFlight))
    );
    engine.complete_order(&order, Ok(filled(&order, BTC_PRICE, "a"))).unwrap();
    assert!(engine.prepare_order(&buy, None, 1_002).unwrap().is_none());
    assert_eq!(engine.get_positions().len(), 1);
}

#[test]
fn hold_signals_are_ignored() {
    let mut engine = TradeExecutor::new();
    assert!(engine.prepare_order(&signal("BTCUSDT", TradeAction::Hold, BTC_PRICE), None, 1).unwrap().is_none());
}

#[test]
fn failed_submission_leaves_state_unchanged() {
    let mut engine = TradeExecutor::new();
    let order = engine.prepare_order(&signal("BTCUSDT", TradeAction::Buy, BTC_PRICE), None, 1_000).unwrap().unwrap();
    assert_eq!(
        engine.complete_order(&order, Err(ExchangeError::Connection)),
        Err(TradingError::OrderExecution(ExchangeError::Connection))
    );
    assert!(engine.get_positions().is_empty());
    assert!(engine.get_trades().is_empty());
    // The symbol is free again for the next signal.
    assert!(engine.prepare_order(&signal("BTCUSDT", TradeAction::Buy, BTC_PRICE), None, 2_000).unwrap().is_some());
}

#[test]
fn unfilled_answer_books_nothing() {
    let mut engine = TradeExecutor::new();
    let order = engine.prepare_order(&signal("BTCUSDT", TradeAction::Buy, BTC_PRICE), None, 1_000).unwrap().unwrap();
    let mut response = filled(&order, BTC_PRICE, "x");
    response.status = OrderStatus::New;
    assert_eq!(engine.complete_order(&order, Ok(response)), Ok(()));
    assert!(engine.get_positions().is_empty());
}

#[test]
fn stop_loss_triggers_a_closing_order() {
    let mut engine = TradeExecutor::new();
    open(&mut engine, "BTCUSDT", TradeAction::Buy, BTC_PRICE);
    engine.update_market_price("BTCUSDT", 4_900_000_000_000, 5_000);
    assert!(engine.positions_to_close(5_000).is_empty());
    let p = &engine.get_positions()[0];
    assert_eq!(p.unrealized_pnl, -100_000_000_000i128 * 200);
    engine.update_market_price("BTCUSDT", 4_700_000_000_000, 6_000);
    let orders = engine.positions_to_close(6_000);
    assert_eq!(orders.len(), 1);
    assert_eq!(orders[0].side, OrderSide::Sell);
    assert_eq!(orders[0].quantity, 200);
    // Already closing: no second order.
    assert!(engine.positions_to_close(7_000).is_empty());
    let mut response = filled(&orders[0], 0, "stop");
    response.average_price = None;
    engine.complete_order(&orders[0], Ok(response)).unwrap();
    assert_eq!(engine.get_daily_pnl(), -300_000_000_000i128 * 200);
}

#[test]
fn take_profit_closes_a_short() {
    let mut engine = TradeExecutor::new();
    open(&mut engine, "BTCUSDT", TradeAction::Sell, BTC_PRICE);
    engine.update_market_price("BTCUSDT", 4_400_000_000_000, 5_000);
    let orders = engine.positions_to_close(5_000);
    assert_eq!(orders.len(), 1);
    assert_eq!(orders[0].side, OrderSide::Buy);
}

#[test]
fn risk_parameters_can_be_replaced() {
    let mut engine = TradeExecutor::new();
    let mut params = RiskParameters::default();
    params.max_open_positions = 2;
    engine.update_risk_parameters(params);
    assert_eq!(engine.get_risk_parameters(), params);
}

#[test]
fn malformed_risk_parameters_are_a_configuration_error() {
    assert_eq!(RiskParameters::default().validate(), Ok(()));
    let mut params = RiskParameters::default();
    params.stop_loss_percent = 20_000;
    assert_eq!(params.validate(), Err(TradingError::Configuration));
    params = RiskParameters::default();
    params.max_open_positions = 0;
    assert_eq!(params.validate(), Err(TradingError::Configuration));
}

#[test]
fn each_due_position_gets_one_closing_order() {
    let mut engine = TradeExecutor::new();
    open(&mut engine, "BTCUSDT", TradeAction::Buy, BTC_PRICE);
    open(&mut engine, "ETHUSDT", TradeAction::Buy, 300_000_000_000);
    engine.update_market_price("BTCUSDT", 4_700_000_000_000, 5_000);
    engine.update_market_price("ETHUSDT", 200_000_000_000, 5_000);
    let orders = engine.positions_to_close(5_000);
    assert_eq!(orders.len(), 2);
    assert_ne!(orders[0].symbol, orders[1].symbol);
    assert!(engine.positions_to_close(6_000).is_empty());
}

#[test]
fn orders_in_flight_count_against_the_trade_limit() {
    let mut params = RiskParameters::default();
    params.max_trades_per_day = 2;
    let mut engine = TradeExecutor::with_risk_parameters(params);
    open(&mut engine, "BTCUSDT", TradeAction::Buy, BTC_PRICE);
    let eth = signal("ETHUSDT", TradeAction::Buy, 300_000_000_000);
    let sol = signal("SOLUSDT", TradeAction::Buy, 15_000_000_000);
    assert!(engine.prepare_order(&eth, Some(1_000_000_000_000), 3_000).unwrap().is_some());
    assert_eq!(
        engine.prepare_order(&sol, Some(1_000_000_000_000), 3_001),
        Err(TradingError::RiskRejected(RiskRejection::MaxTradesPerDay))
    );
}

use vstd::prelude::*;

verus! {

/// Errors of the exchange collaborator, as the library sees them.
#[derive(Debug, Clone, PartialEq, Eq, Structural)]
pub enum ExchangeError {
    Connection,
    Authentication,
    RateLimit,
    InsufficientFunds,
    Order,
    InvalidSymbol,
    Account,
    Api,
    Request,
}

/// Errors of the market-data collaborator.
#[derive(Debug, Clone, PartialEq, Eq, Structural)]
pub enum MarketDataError {
    WebSocket,
    InvalidFormat,
    Subscription,
    Parse,
    NoData,
}

/// Errors of the indicator engine and the pattern detector.
#[derive(Debug, Clone, Copy, PartialEq, Eq, Structural)]
pub enum AnalysisError {
    /// The parameters admit no result (a zero period, a fast period above the slow one).
    IndicatorCalculation,
    /// Fewer data points than the lookback needs.
    InsufficientData { needed: usize, available: usize },
    /// Pattern detection was asked for with unusable settings.
    PatternDetection,
}

/// Why a signal was refused by the risk checks.
#[derive(Debug, Clone, Copy, PartialEq, Eq, Structural)]
pub enum RiskRejection {
    MaxOpenPositions,
    MaxTradesPerDay,
    MaxDailyLoss,
    /// An order for the same symbol is still in flight.
    OrderInFlight,
}

/// Errors of the strategy layer and of the execution engine.
#[derive(Debug, Clone, PartialEq, Eq, Structural)]
pub enum TradingError {
    /// A strategy could not evaluate its history.
    Strategy(AnalysisError),
    /// A parameter update violates an ordering or range rule; the old value is kept.
    InvalidParameter,
    /// The strategy has no parameter of that name and type.
    UnknownParameter,
    /// The signal violates a risk limit; no order is prepared.
    RiskRejected(RiskRejection),
    /// Submitting an order failed; the engine's state is unchanged.
    OrderExecution(ExchangeError),
    /// A fill could not be booked (no price known for an opening fill).
    PositionManagement,
    /// The signal layer refused the request (already running, no market data).
    Signal,
    /// Malformed risk parameters.
    Configuration,
}

/// Errors of the domain layer.
#[derive(Debug, Clone, PartialEq, Eq, Structural)]
pub enum DomainError {
    ExchangeError,
    InvalidOrder,
    MarketDataError,
    StrategyError,
}

impl AnalysisError {
    /// The insufficient-data error for a lookback of `needed` points.
    pub fn insufficient(needed: usize, available: usize) -> (r: AnalysisError)
        ensures
            r == (AnalysisError::InsufficientData { needed, available }),
    {
        AnalysisError::InsufficientData { needed, available }
    }
}

} // verus!

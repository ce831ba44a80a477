//! Strategy evaluators: SMA crossover, RSI thresholds and MACD crossover. Each
//! turns a price history into an optional directional signal.
use vstd::prelude::*;
use crate::errors::{AnalysisError, TradingError};
use crate::indicators::{
    calculate_macd, calculate_rsi, calculate_sma, ema_at, macd_at, macd_fits, one_more, rsi_spec, window_mean,
    RSI_SCALE,
};
use crate::models::{closes_of, PriceHistory, TradeAction, TradingSignal, CONFIDENCE_SCALE};

verus! {

/// Confidence of a crossover signal with no gap between the lines, in basis points (0.8).
pub const CROSSOVER_CONFIDENCE: u32 = 8_000;

/// Confidence of a crossover whose lines end at `a` and `b` on a last close
/// of `price`: the base confidence plus the gap between the lines in basis
/// points of the price, at most 1. Without a positive price, the base.
pub open spec fn crossover_confidence(a: int, b: int, price: int) -> int {
    if price <= 0 {
        CROSSOVER_CONFIDENCE as int
    } else {
        let gap = if a >= b { a - b } else { b - a };
        let c = CROSSOVER_CONFIDENCE + (gap * CONFIDENCE_SCALE) / price;
        if c > CONFIDENCE_SCALE { CONFIDENCE_SCALE as int } else { c }
    }
}

fn crossover_confidence_exec(a: i64, b: i64, price: i64) -> (r: u32)
    ensures
        r == crossover_confidence(a as int, b as int, price as int),
{
    if price <= 0 {
        return CROSSOVER_CONFIDENCE;
    }
    let gap: u128 = if a >= b { (a as i128 - b as i128) as u128 } else { (b as i128 - a as i128) as u128 };
    assert(gap * CONFIDENCE_SCALE <= 0x1_0000_0000_0000_0000 * 10_000);
    let step: u128 = (gap * CONFIDENCE_SCALE as u128) / price as u128;
    proof {
        assert(price * 0 <= gap * CONFIDENCE_SCALE <= price * (gap * CONFIDENCE_SCALE)) by (nonlinear_arith)
            requires
                price >= 1,
                gap * CONFIDENCE_SCALE >= 0,
        ;
        crate::indicators::lemma_div_between((gap * CONFIDENCE_SCALE) as int, 0, (gap * CONFIDENCE_SCALE) as int, price as int);
    }
    let c: u128 = CROSSOVER_CONFIDENCE as u128 + step;
    if c > CONFIDENCE_SCALE as u128 {
        CONFIDENCE_SCALE
    } else {
        c as u32
    }
}

/// A parameter value. `Decimal` is a fixed-point value in hundredths.
#[derive(Debug, Clone)]
pub enum ParameterValue {
    Integer(i64),
    Decimal(i64),
    Boolean(bool),
    String(String),
}

/// The range a parameter may take, bounds included.
#[derive(Debug, Clone, Copy, PartialEq, Eq, Structural)]
pub enum ParameterRange {
    Integer(i64, i64),
    Decimal(i64, i64),
}

/// A strategy parameter with its current value.
#[derive(Debug, Clone)]
pub struct StrategyParameter {
    pub name: String,
    pub description: String,
    pub value: ParameterValue,
    pub range: Option<ParameterRange>,
}

/// `a + b + c`, or `usize::MAX` where that does not fit.
pub open spec fn sat_sum(a: int, b: int, c: int) -> usize {
    if a + b + c <= usize::MAX {
        (a + b + c) as usize
    } else {
        usize::MAX
    }
}

fn sat_sum_exec(a: usize, b: usize, c: usize) -> (r: usize)
    ensures
        r == sat_sum(a as int, b as int, c as int),
{
    if a <= usize::MAX - b && a + b <= usize::MAX - c {
        a + b + c
    } else {
        usize::MAX
    }
}

/// Whether two strings hold the same text.
fn same_text(a: &str, b: &str) -> (r: bool)
    ensures
        r == (a@ == b@),
{
    a.to_owned() == b.to_owned()
}

/// The signal of a crossover between the last two points: Buy when the first
/// line moves from at-or-below to above the second, Sell on the reverse.
pub open spec fn crossover(was_above: bool, is_above: bool) -> Option<TradeAction> {
    if !was_above && is_above {
        Some(TradeAction::Buy)
    } else if was_above && !is_above {
        Some(TradeAction::Sell)
    } else {
        None
    }
}

fn crossover_exec(was_above: bool, is_above: bool) -> (r: Option<TradeAction>)
    ensures
        r == crossover(was_above, is_above),
{
    if !was_above && is_above {
        Some(TradeAction::Buy)
    } else if was_above && !is_above {
        Some(TradeAction::Sell)
    } else {
        None
    }
}

/// Whether the fast SMA is above the slow SMA at price `j` (both windows end there).
pub open spec fn fast_above(s: Seq<i64>, fast: int, slow: int, j: int) -> bool {
    window_mean(s, j + 1 - fast, fast) > window_mean(s, j + 1 - slow, slow)
}

/// Attaches a confidence to a decision.
pub open spec fn with_confidence(o: Option<TradeAction>, confidence: int) -> Option<(TradeAction, int)> {
    match o {
        None => None,
        Some(a) => Some((a, confidence)),
    }
}

/// What the SMA crossover strategy decides on a close series.
pub open spec fn sma_crossover_outcome(s: Seq<i64>, fast: usize, slow: usize) -> Result<
    Option<(TradeAction, int)>,
    TradingError,
> {
    let n = s.len();
    if n < slow + 2 {
        Err(TradingError::Strategy(AnalysisError::InsufficientData { needed: sat_sum(slow as int, 2, 0), available: n as usize }))
    } else if fast == 0 {
        Err(TradingError::Strategy(AnalysisError::IndicatorCalculation))
    } else if n < fast {
        Err(TradingError::Strategy(AnalysisError::InsufficientData { needed: fast, available: n as usize }))
    } else if slow == 0 {
        Err(TradingError::Strategy(AnalysisError::IndicatorCalculation))
    } else if n == fast {
        Ok(None)
    } else {
        Ok(
            with_confidence(
                crossover(fast_above(s, fast as int, slow as int, n - 2), fast_above(s, fast as int, slow as int, n - 1)),
                crossover_confidence(window_mean(s, n - fast, fast as int), window_mean(s, n - slow, slow as int), s[n - 1] as int),
            ),
        )
    }
}

/// The signal that a strategy hands out for `action` on `data`: the latest
/// close and close time, no attached indicator readings.
pub open spec fn signal_matches(
    sig: TradingSignal,
    symbol: String,
    action: TradeAction,
    confidence: int,
    data: PriceHistory,
) -> bool {
    &&& sig.symbol == symbol
    &&& sig.action == action
    &&& sig.price == data.candles@.last().close
    &&& sig.timestamp == data.candles@.last().close_time
    &&& sig.confidence == confidence
    &&& sig.indicators@.len() == 0
}

/// How a strategy's result follows its decision.
pub open spec fn result_follows(
    r: Result<Option<TradingSignal>, TradingError>,
    outcome: Result<Option<(TradeAction, int)>, TradingError>,
    symbol: String,
    data: PriceHistory,
) -> bool {
    match outcome {
        Err(e) => r == Err::<Option<TradingSignal>, TradingError>(e),
        Ok(None) => r matches Ok(None),
        Ok(Some((a, c))) => r matches Ok(Some(sig)) && signal_matches(sig, symbol, a, c, data),
    }
}

fn make_signal(symbol: &String, action: TradeAction, confidence: u32, data: &PriceHistory) -> (r: TradingSignal)
    requires
        data.candles@.len() > 0,
    ensures
        signal_matches(r, *symbol, action, confidence as int, *data),
{
    let last = &data.candles[data.candles.len() - 1];
    TradingSignal {
        symbol: symbol.clone(),
        action,
        price: last.close,
        confidence,
        timestamp: last.close_time,
        indicators: Vec::new(),
    }
}

/// Simple moving average crossover.
#[derive(Debug)]
pub struct SMACrossoverStrategy {
    pub name: String,
    pub description: String,
    pub fast_period: usize,
    pub slow_period: usize,
    pub symbol: String,
}

impl SMACrossoverStrategy {
    pub fn new(symbol: &str, fast_period: usize, slow_period: usize) -> (r: SMACrossoverStrategy)
        ensures
            r.name@ == "SMA Crossover"@,
            r.description@ == "Generates buy/sell signals based on fast and slow SMA crossovers"@,
            r.symbol@ == symbol@,
            r.fast_period == fast_period,
            r.slow_period == slow_period,
    {
        SMACrossoverStrategy {
            name: "SMA Crossover".to_string(),
            description: "Generates buy/sell signals based on fast and slow SMA crossovers".to_string(),
            fast_period,
            slow_period,
            symbol: symbol.to_string(),
        }
    }

    pub fn name(&self) -> (r: &str)
        ensures
            r@ == self.name@,
    {
        self.name.as_str()
    }

    pub fn description(&self) -> (r: &str)
        ensures
            r@ == self.description@,
    {
        self.description.as_str()
    }

    /// Buy when the fast SMA crosses above the slow SMA between the last two
    /// prices, Sell on the reverse cross, nothing otherwise.
    pub fn analyze(&self, data: &PriceHistory) -> (r: Result<Option<TradingSignal>, TradingError>)
        ensures
            result_follows(
                r,
                sma_crossover_outcome(closes_of(data.candles@), self.fast_period, self.slow_period),
                self.symbol,
                *data,
            ),
    {
        let n = data.candles.len();
        if n < self.slow_period || n - self.slow_period < 2 {
            return Err(TradingError::Strategy(AnalysisError::insufficient(sat_sum_exec(self.slow_period, 2, 0), n)));
        }
        let prices = data.close_prices();
        let fast_sma = match calculate_sma(prices.as_slice(), self.fast_period) {
            Ok(v) => v,
            Err(e) => return Err(TradingError::Strategy(e)),
        };
        let slow_sma = match calculate_sma(prices.as_slice(), self.slow_period) {
            Ok(v) => v,
            Err(e) => return Err(TradingError::Strategy(e)),
        };
        if fast_sma.len() < 2 || slow_sma.len() < 2 {
            return Ok(None);
        }
        let fl = fast_sma.len();
        let sl = slow_sma.len();
        let was_above = fast_sma[fl - 2] > slow_sma[sl - 2];
        let is_above = fast_sma[fl - 1] > slow_sma[sl - 1];
        proof {
            let s = closes_of(data.candles@);
            assert(s == prices@);
            assert(was_above == fast_above(s, self.fast_period as int, self.slow_period as int, n - 2));
            assert(is_above == fast_above(s, self.fast_period as int, self.slow_period as int, n - 1));
        }
        let confidence = crossover_confidence_exec(fast_sma[fl - 1], slow_sma[sl - 1], prices[prices.len() - 1]);
        match crossover_exec(was_above, is_above) {
            Some(action) => Ok(Some(make_signal(&self.symbol, action, confidence, data))),
            None => Ok(None),
        }
    }
}

/// Confidence of an oversold Buy: how far the RSI lies below the threshold,
/// relative to the threshold, in basis points.
pub open spec fn buy_confidence(rsi: int, oversold: int) -> int {
    if oversold == 0 {
        0
    } else {
        ((oversold - rsi) * CONFIDENCE_SCALE) / oversold
    }
}

/// Confidence of an overbought Sell: how far the RSI lies above the
/// threshold, relative to the room above it, in basis points.
pub open spec fn sell_confidence(rsi: int, overbought: int) -> int {
    if overbought >= RSI_SCALE {
        0
    } else {
        ((rsi - overbought) * CONFIDENCE_SCALE) / (RSI_SCALE - overbought)
    }
}

/// What the RSI strategy decides on a close series (thresholds in hundredths).
pub open spec fn rsi_outcome(s: Seq<i64>, period: usize, overbought: u64, oversold: u64) -> Result<
    Option<(TradeAction, int)>,
    TradingError,
> {
    let n = s.len();
    if n <= period {
        Err(TradingError::Strategy(AnalysisError::InsufficientData { needed: one_more(period), available: n as usize }))
    } else if period == 0 {
        Err(TradingError::Strategy(AnalysisError::IndicatorCalculation))
    } else {
        let v = rsi_spec(s, period as int);
        if v <= oversold {
            Ok(Some((TradeAction::Buy, buy_confidence(v, oversold as int))))
        } else if v >= overbought {
            Ok(Some((TradeAction::Sell, sell_confidence(v, overbought as int))))
        } else {
            Ok(None)
        }
    }
}

/// RSI overbought / oversold thresholds. Thresholds are RSI values in
/// hundredths (`7000` is 70.00).
#[derive(Debug)]
pub struct RSIStrategy {
    pub name: String,
    pub description: String,
    pub period: usize,
    pub overbought_threshold: u64,
    pub oversold_threshold: u64,
    pub symbol: String,
}

impl RSIStrategy {
    pub fn new(symbol: &str, period: usize, overbought_threshold: u64, oversold_threshold: u64) -> (r: RSIStrategy)
        ensures
            r.name@ == "RSI Strategy"@,
            r.description@ == "Generates signals based on RSI overbought/oversold conditions"@,
            r.symbol@ == symbol@,
            r.period == period,
            r.overbought_threshold == overbought_threshold,
            r.oversold_threshold == oversold_threshold,
    {
        RSIStrategy {
            name: "RSI Strategy".to_string(),
            description: "Generates signals based on RSI overbought/oversold conditions".to_string(),
            period,
            overbought_threshold,
            oversold_threshold,
            symbol: symbol.to_string(),
        }
    }

    pub fn name(&self) -> (r: &str)
        ensures
            r@ == self.name@,
    {
        self.name.as_str()
    }

    pub fn description(&self) -> (r: &str)
        ensures
            r@ == self.description@,
    {
        self.description.as_str()
    }

    /// Buy when the RSI is at or below the oversold threshold, Sell when it is
    /// at or above the overbought one, nothing in between.
    pub fn analyze(&self, data: &PriceHistory) -> (r: Result<Option<TradingSignal>, TradingError>)
        ensures
            result_follows(
                r,
                rsi_outcome(closes_of(data.candles@), self.period, self.overbought_threshold, self.oversold_threshold),
                self.symbol,
                *data,
            ),
    {
        let n = data.candles.len();
        if n <= self.period {
            return Err(TradingError::Strategy(AnalysisError::insufficient(crate::indicators::one_more_exec(self.period), n)));
        }
        let prices = data.close_prices();
        let rsi = match calculate_rsi(prices.as_slice(), self.period) {
            Ok(v) => v,
            Err(e) => return Err(TradingError::Strategy(e)),
        };
        proof {
            assert(closes_of(data.candles@) == prices@);
        }
        let os = self.oversold_threshold;
        let ob = self.overbought_threshold;
        if rsi <= os {
            let confidence: u32 = if os == 0 {
                0
            } else {
                proof {
                    let x = (os - rsi) * CONFIDENCE_SCALE;
                    assert(os * 0 <= x <= os * CONFIDENCE_SCALE) by (nonlinear_arith)
                        requires
                            x == (os - rsi) * CONFIDENCE_SCALE,
                            0 <= os - rsi <= os,
                    ;
                    crate::indicators::lemma_div_between(x, 0, CONFIDENCE_SCALE as int, os as int);
                }
                (((os - rsi) as u128 * CONFIDENCE_SCALE as u128) / os as u128) as u32
            };
            Ok(Some(make_signal(&self.symbol, TradeAction::Buy, confidence, data)))
        } else if rsi >= ob {
            let confidence: u32 = if ob >= RSI_SCALE {
                0
            } else {
                let room = RSI_SCALE - ob;
                proof {
                    let x = (rsi - ob) * CONFIDENCE_SCALE;
                    assert(room * 0 <= x <= room * CONFIDENCE_SCALE) by (nonlinear_arith)
                        requires
                            x == (rsi - ob) * CONFIDENCE_SCALE,
                            0 <= rsi - ob <= room,
                    ;
                    crate::indicators::lemma_div_between(x, 0, CONFIDENCE_SCALE as int, room as int);
                }
                (((rsi - ob) as u128 * CONFIDENCE_SCALE as u128) / room as u128) as u32
            };
            Ok(Some(make_signal(&self.symbol, TradeAction::Sell, confidence, data)))
        } else {
            Ok(None)
        }
    }
}

/// The MACD line of a series as a sequence.
pub open spec fn macd_line_of(s: Seq<i64>, fast: int, slow: int) -> Seq<i64> {
    Seq::new((s.len() - slow + 1) as nat, |i: int| macd_at(s, fast, slow, i) as i64)
}

/// What the MACD strategy decides on a non-negative close series.
pub open spec fn macd_outcome(s: Seq<i64>, fast: usize, slow: usize, signal: usize) -> Result<
    Option<(TradeAction, int)>,
    TradingError,
> {
    let n = s.len();
    let longest = if fast > slow { fast } else { slow };
    if n < longest + signal + 2 {
        Err(TradingError::Strategy(AnalysisError::InsufficientData { needed: sat_sum(longest as int, signal as int, 2), available: n as usize }))
    } else if fast == 0 || slow == 0 || signal == 0 || fast > slow || !macd_fits(s, fast as int, slow as int) {
        Err(TradingError::Strategy(AnalysisError::IndicatorCalculation))
    } else {
        let m = macd_line_of(s, fast as int, slow as int);
        let lm = m.len() as int;
        let ls = lm - signal + 1;
        Ok(
            with_confidence(
                crossover(
                    m[lm - 2] > ema_at(m, signal as int, ls - 2),
                    m[lm - 1] > ema_at(m, signal as int, ls - 1),
                ),
                crossover_confidence(m[lm - 1] as int, ema_at(m, signal as int, ls - 1), s[n - 1] as int),
            ),
        )
    }
}


/// MACD line / signal line crossover.
#[derive(Debug)]
pub struct MACDStrategy {
    pub name: String,
    pub description: String,
    pub fast_period: usize,
    pub slow_period: usize,
    pub signal_period: usize,
    pub symbol: String,
}

impl MACDStrategy {
    pub fn new(symbol: &str, fast_period: usize, slow_period: usize, signal_period: usize) -> (r: MACDStrategy)
        ensures
            r.name@ == "MACD Strategy"@,
            r.description@ == "Generates signals based on MACD line and signal line crossovers"@,
            r.symbol@ == symbol@,
            r.fast_period == fast_period,
            r.slow_period == slow_period,
            r.signal_period == signal_period,
    {
        MACDStrategy {
            name: "MACD Strategy".to_string(),
            description: "Generates signals based on MACD line and signal line crossovers".to_string(),
            fast_period,
            slow_period,
            signal_period,
            symbol: symbol.to_string(),
        }
    }

    pub fn name(&self) -> (r: &str)
        ensures
            r@ == self.name@,
    {
        self.name.as_str()
    }

    pub fn description(&self) -> (r: &str)
        ensures
            r@ == self.description@,
    {
        self.description.as_str()
    }

    /// Buy when the MACD line crosses above its signal line between the last
    /// two points, Sell on the reverse cross, nothing otherwise.
    pub fn analyze(&self, data: &PriceHistory) -> (r: Result<Option<TradingSignal>, TradingError>)
        ensures
            result_follows(
                r,
                macd_outcome(closes_of(data.candles@), self.fast_period, self.slow_period, self.signal_period),
                self.symbol,
                *data,
            ),
    {
        let n = data.candles.len();
        let longest = if self.fast_period > self.slow_period { self.fast_period } else { self.slow_period };
        let needed = sat_sum_exec(longest, self.signal_period, 2);
        if n < longest || n - longest < self.signal_period || n - longest - self.signal_period < 2 {
            return Err(TradingError::Strategy(AnalysisError::insufficient(needed, n)));
        }
        let prices = data.close_prices();
        proof {
            assert(closes_of(data.candles@) == prices@);
        }
        let (macd_line, signal_line, _histogram) = match calculate_macd(
            prices.as_slice(),
            self.fast_period,
            self.slow_period,
            self.signal_period,
        ) {
            Ok(v) => v,
            Err(e) => return Err(TradingError::Strategy(e)),
        };
        let lm = macd_line.len();
        let ls = signal_line.len();
        let was_above = macd_line[lm - 2] > signal_line[ls - 2];
        let is_above = macd_line[lm - 1] > signal_line[ls - 1];
        proof {
            let s = closes_of(data.candles@);
            assert(macd_line@ =~= macd_line_of(s, self.fast_period as int, self.slow_period as int));
        }
        let confidence = crossover_confidence_exec(macd_line[lm - 1], signal_line[ls - 1], prices[prices.len() - 1]);
        match crossover_exec(was_above, is_above) {
            Some(action) => Ok(Some(make_signal(&self.symbol, action, confidence, data))),
            None => Ok(None),
        }
    }
}

/// A period as a parameter value (saturating at `i64::MAX`).
pub open spec fn period_value(p: usize) -> i64 {
    if p <= i64::MAX {
        p as i64
    } else {
        i64::MAX
    }
}

fn period_value_exec(p: usize) -> (r: i64)
    ensures
        r == period_value(p),
{
    if p as u128 <= i64::MAX as u128 {
        p as i64
    } else {
        i64::MAX
    }
}

fn parameter(name: &str, description: &str, value: ParameterValue, range: ParameterRange) -> (r: StrategyParameter)
    ensures
        r.name@ == name@,
        r.description@ == description@,
        r.value == value,
        r.range == Some(range),
{
    StrategyParameter { name: name.to_string(), description: description.to_string(), value, range: Some(range) }
}

/// A requested period as a `usize`, when it is positive enough and fits.
pub open spec fn period_fits(p: i64) -> bool {
    0 <= p <= usize::MAX
}

fn period_fits_exec(p: i64) -> (r: bool)
    ensures
        r == period_fits(p),
{
    p >= 0 && p as u128 <= usize::MAX as u128
}

/// The strategy after an update of `name` to `value`, or why it is refused:
/// a fast period must stay in `2..slow`, a slow period above the fast one.
pub open spec fn sma_update(st: SMACrossoverStrategy, name: Seq<char>, value: ParameterValue) -> Result<
    SMACrossoverStrategy,
    TradingError,
> {
    match value {
        ParameterValue::Integer(p) => if name == "fast_period"@ {
            if p < 2 || p >= st.slow_period {
                Err(TradingError::InvalidParameter)
            } else {
                Ok(SMACrossoverStrategy { fast_period: p as usize, ..st })
            }
        } else if name == "slow_period"@ {
            if p <= st.fast_period || !period_fits(p) {
                Err(TradingError::InvalidParameter)
            } else {
                Ok(SMACrossoverStrategy { slow_period: p as usize, ..st })
            }
        } else {
            Err(TradingError::UnknownParameter)
        },
        _ => Err(TradingError::UnknownParameter),
    }
}

impl SMACrossoverStrategy {
    pub open spec fn parameters_spec(&self, r: Seq<StrategyParameter>) -> bool {
        &&& r.len() == 2
        &&& r[0].name@ == "fast_period"@
        &&& r[0].value == ParameterValue::Integer(period_value(self.fast_period))
        &&& r[0].range == Some(ParameterRange::Integer(2, 50))
        &&& r[1].name@ == "slow_period"@
        &&& r[1].value == ParameterValue::Integer(period_value(self.slow_period))
        &&& r[1].range == Some(ParameterRange::Integer(5, 200))
    }

    /// The tunable parameters with their values and ranges.
    pub fn parameters(&self) -> (r: Vec<StrategyParameter>)
        ensures
            self.parameters_spec(r@),
    {
        let mut r: Vec<StrategyParameter> = Vec::new();
        r.push(parameter("fast_period", "Fast SMA period", ParameterValue::Integer(period_value_exec(self.fast_period)), ParameterRange::Integer(2, 50)));
        r.push(parameter("slow_period", "Slow SMA period", ParameterValue::Integer(period_value_exec(self.slow_period)), ParameterRange::Integer(5, 200)));
        r
    }

    /// Updates one period; a refused update keeps the strategy as it was.
    pub fn update_parameter(&mut self, name: &str, value: ParameterValue) -> (r: Result<(), TradingError>)
        ensures
            match sma_update(*old(self), name@, value) {
                Ok(st) => r is Ok && *final(self) == st,
                Err(e) => r == Err::<(), TradingError>(e) && *final(self) == *old(self),
            },
    {
        match value {
            ParameterValue::Integer(p) => {
                if same_text(name, "fast_period") {
                    if p < 2 || p as i128 >= self.slow_period as i128 {
                        return Err(TradingError::InvalidParameter);
                    }
                    self.fast_period = p as usize;
                    Ok(())
                } else if same_text(name, "slow_period") {
                    if p as i128 <= self.fast_period as i128 || !period_fits_exec(p) {
                        return Err(TradingError::InvalidParameter);
                    }
                    self.slow_period = p as usize;
                    Ok(())
                } else {
                    Err(TradingError::UnknownParameter)
                }
            },
            _ => Err(TradingError::UnknownParameter),
        }
    }
}

/// The RSI strategy after an update: the period at least 2, the overbought
/// threshold above the oversold one and at most 100, the oversold threshold
/// below the overbought one (thresholds are `Decimal` hundredths).
pub open spec fn rsi_update(st: RSIStrategy, name: Seq<char>, value: ParameterValue) -> Result<RSIStrategy, TradingError> {
    match value {
        ParameterValue::Integer(p) => if name == "period"@ {
            if p < 2 || !period_fits(p) {
                Err(TradingError::InvalidParameter)
            } else {
                Ok(RSIStrategy { period: p as usize, ..st })
            }
        } else {
            Err(TradingError::UnknownParameter)
        },
        ParameterValue::Decimal(t) => if name == "overbought_threshold"@ {
            if t <= st.oversold_threshold || t > RSI_SCALE {
                Err(TradingError::InvalidParameter)
            } else {
                Ok(RSIStrategy { overbought_threshold: t as u64, ..st })
            }
        } else if name == "oversold_threshold"@ {
            if t >= st.overbought_threshold || t < 0 {
                Err(TradingError::InvalidParameter)
            } else {
                Ok(RSIStrategy { oversold_threshold: t as u64, ..st })
            }
        } else {
            Err(TradingError::UnknownParameter)
        },
        _ => Err(TradingError::UnknownParameter),
    }
}

/// A threshold as a parameter value (saturating at `i64::MAX`).
pub open spec fn threshold_value(t: u64) -> i64 {
    if t <= i64::MAX {
        t as i64
    } else {
        i64::MAX
    }
}

fn threshold_value_exec(t: u64) -> (r: i64)
    ensures
        r == threshold_value(t),
{
    if t <= i64::MAX as u64 {
        t as i64
    } else {
        i64::MAX
    }
}

impl RSIStrategy {
    pub open spec fn parameters_spec(&self, r: Seq<StrategyParameter>) -> bool {
        &&& r.len() == 3
        &&& r[0].name@ == "period"@
        &&& r[0].value == ParameterValue::Integer(period_value(self.period))
        &&& r[0].range == Some(ParameterRange::Integer(2, 30))
        &&& r[1].name@ == "overbought_threshold"@
        &&& r[1].value == ParameterValue::Decimal(threshold_value(self.overbought_threshold))
        &&& r[1].range == Some(ParameterRange::Decimal(6000, 9000))
        &&& r[2].name@ == "oversold_threshold"@
        &&& r[2].value == ParameterValue::Decimal(threshold_value(self.oversold_threshold))
        &&& r[2].range == Some(ParameterRange::Decimal(1000, 4000))
    }

    /// The tunable parameters with their values and ranges.
    pub fn parameters(&self) -> (r: Vec<StrategyParameter>)
        ensures
            self.parameters_spec(r@),
    {
        let mut r: Vec<StrategyParameter> = Vec::new();
        r.push(parameter("period", "RSI period", ParameterValue::Integer(period_value_exec(self.period)), ParameterRange::Integer(2, 30)));
        r.push(parameter("overbought_threshold", "RSI overbought threshold", ParameterValue::Decimal(threshold_value_exec(self.overbought_threshold)), ParameterRange::Decimal(6000, 9000)));
        r.push(parameter("oversold_threshold", "RSI oversold threshold", ParameterValue::Decimal(threshold_value_exec(self.oversold_threshold)), ParameterRange::Decimal(1000, 4000)));
        r
    }

    /// Updates the period or a threshold; a refused update keeps the strategy as it was.
    pub fn update_parameter(&mut self, name: &str, value: ParameterValue) -> (r: Result<(), TradingError>)
        ensures
            match rsi_update(*old(self), name@, value) {
                Ok(st) => r is Ok && *final(self) == st,
                Err(e) => r == Err::<(), TradingError>(e) && *final(self) == *old(self),
            },
    {
        match value {
            ParameterValue::Integer(p) => {
                if same_text(name, "period") {
                    if p < 2 || !period_fits_exec(p) {
                        return Err(TradingError::InvalidParameter);
                    }
                    self.period = p as usize;
                    Ok(())
                } else {
                    Err(TradingError::UnknownParameter)
                }
            },
            ParameterValue::Decimal(t) => {
                if same_text(name, "overbought_threshold") {
                    if t as i128 <= self.oversold_threshold as i128 || t as i128 > RSI_SCALE as i128 {
                        return Err(TradingError::InvalidParameter);
                    }
                    self.overbought_threshold = t as u64;
                    Ok(())
                } else if same_text(name, "oversold_threshold") {
                    if t as i128 >= self.overbought_threshold as i128 || t < 0 {
                        return Err(TradingError::InvalidParameter);
                    }
                    self.oversold_threshold = t as u64;
                    Ok(())
                } else {
                    Err(TradingError::UnknownParameter)
                }
            },
            _ => Err(TradingError::UnknownParameter),
        }
    }
}

/// The MACD strategy after an update: the fast period in `2..slow`, the slow
/// period above the fast one, the signal period at least 2.
pub open spec fn macd_update(st: MACDStrategy, name: Seq<char>, value: ParameterValue) -> Result<MACDStrategy, TradingError> {
    match value {
        ParameterValue::Integer(p) => if name == "fast_period"@ {
            if p < 2 || p >= st.slow_period {
                Err(TradingError::InvalidParameter)
            } else {
                Ok(MACDStrategy { fast_period: p as usize, ..st })
            }
        } else if name == "slow_period"@ {
            if p <= st.fast_period || !period_fits(p) {
                Err(TradingError::InvalidParameter)
            } else {
                Ok(MACDStrategy { slow_period: p as usize, ..st })
            }
        } else if name == "signal_period"@ {
            if p < 2 || !period_fits(p) {
                Err(TradingError::InvalidParameter)
            } else {
                Ok(MACDStrategy { signal_period: p as usize, ..st })
            }
        } else {
            Err(TradingError::UnknownParameter)
        },
        _ => Err(TradingError::UnknownParameter),
    }
}

impl MACDStrategy {
    pub open spec fn parameters_spec(&self, r: Seq<StrategyParameter>) -> bool {
        &&& r.len() == 3
        &&& r[0].name@ == "fast_period"@
        &&& r[0].value == ParameterValue::Integer(period_value(self.fast_period))
        &&& r[0].range == Some(ParameterRange::Integer(5, 20))
        &&& r[1].name@ == "slow_period"@
        &&& r[1].value == ParameterValue::Integer(period_value(self.slow_period))
        &&& r[1].range == Some(ParameterRange::Integer(10, 40))
        &&& r[2].name@ == "signal_period"@
        &&& r[2].value == ParameterValue::Integer(period_value(self.signal_period))
        &&& r[2].range == Some(ParameterRange::Integer(5, 15))
    }

    /// The tunable parameters with their values and ranges.
    pub fn parameters(&self) -> (r: Vec<StrategyParameter>)
        ensures
            self.parameters_spec(r@),
    {
        let mut r: Vec<StrategyParameter> = Vec::new();
        r.push(parameter("fast_period", "Fast EMA period", ParameterValue::Integer(period_value_exec(self.fast_period)), ParameterRange::Integer(5, 20)));
        r.push(parameter("slow_period", "Slow EMA period", ParameterValue::Integer(period_value_exec(self.slow_period)), ParameterRange::Integer(10, 40)));
        r.push(parameter("signal_period", "Signal line period", ParameterValue::Integer(period_value_exec(self.signal_period)), ParameterRange::Integer(5, 15)));
        r
    }

    /// Updates one period; a refused update keeps the strategy as it was.
    pub fn update_parameter(&mut self, name: &str, value: ParameterValue) -> (r: Result<(), TradingError>)
        ensures
            match macd_update(*old(self), name@, value) {
                Ok(st) => r is Ok && *final(self) == st,
                Err(e) => r == Err::<(), TradingError>(e) && *final(self) == *old(self),
            },
    {
        match value {
            ParameterValue::Integer(p) => {
                if same_text(name, "fast_period") {
                    if p < 2 || p as i128 >= self.slow_period as i128 {
                        return Err(TradingError::InvalidParameter);
                    }
                    self.fast_period = p as usize;
                    Ok(())
                } else if same_text(name, "slow_period") {
                    if p as i128 <= self.fast_period as i128 || !period_fits_exec(p) {
                        return Err(TradingError::InvalidParameter);
                    }
                    self.slow_period = p as usize;
                    Ok(())
                } else if same_text(name, "signal_period") {
                    if p < 2 || !period_fits_exec(p) {
                        return Err(TradingError::InvalidParameter);
                    }
                    self.signal_period = p as usize;
                    Ok(())
                } else {
                    Err(TradingError::UnknownParameter)
                }
            },
            _ => Err(TradingError::UnknownParameter),
        }
    }
}

/// The strategies the signal layer can run, behind one set of operations
/// {name, description, analyze, parameters, update_parameter}.
#[derive(Debug)]
pub enum TradingStrategy {
    SmaCrossover(SMACrossoverStrategy),
    Rsi(RSIStrategy),
    Macd(MACDStrategy),
}

impl TradingStrategy {
    pub open spec fn symbol_spec(&self) -> String {
        match self {
            TradingStrategy::SmaCrossover(st) => st.symbol,
            TradingStrategy::Rsi(st) => st.symbol,
            TradingStrategy::Macd(st) => st.symbol,
        }
    }

    /// What the strategy decides on a close series.
    pub open spec fn outcome(&self, s: Seq<i64>) -> Result<Option<(TradeAction, int)>, TradingError> {
        match self {
            TradingStrategy::SmaCrossover(st) => sma_crossover_outcome(s, st.fast_period, st.slow_period),
            TradingStrategy::Rsi(st) => rsi_outcome(s, st.period, st.overbought_threshold, st.oversold_threshold),
            TradingStrategy::Macd(st) => macd_outcome(s, st.fast_period, st.slow_period, st.signal_period),
        }
    }

    pub fn name(&self) -> (r: &str)
        ensures
            r@ == match self {
                TradingStrategy::SmaCrossover(st) => st.name@,
                TradingStrategy::Rsi(st) => st.name@,
                TradingStrategy::Macd(st) => st.name@,
            },
    {
        match self {
            TradingStrategy::SmaCrossover(st) => st.name(),
            TradingStrategy::Rsi(st) => st.name(),
            TradingStrategy::Macd(st) => st.name(),
        }
    }

    pub fn description(&self) -> (r: &str)
        ensures
            r@ == match self {
                TradingStrategy::SmaCrossover(st) => st.description@,
                TradingStrategy::Rsi(st) => st.description@,
                TradingStrategy::Macd(st) => st.description@,
            },
    {
        match self {
            TradingStrategy::SmaCrossover(st) => st.description(),
            TradingStrategy::Rsi(st) => st.description(),
            TradingStrategy::Macd(st) => st.description(),
        }
    }

    pub fn analyze(&self, data: &PriceHistory) -> (r: Result<Option<TradingSignal>, TradingError>)
        ensures
            result_follows(r, self.outcome(closes_of(data.candles@)), self.symbol_spec(), *data),
    {
        match self {
            TradingStrategy::SmaCrossover(st) => st.analyze(data),
            TradingStrategy::Rsi(st) => st.analyze(data),
            TradingStrategy::Macd(st) => st.analyze(data),
        }
    }

    pub fn parameters(&self) -> (r: Vec<StrategyParameter>)
        ensures
            match self {
                TradingStrategy::SmaCrossover(st) => st.parameters_spec(r@),
                TradingStrategy::Rsi(st) => st.parameters_spec(r@),
                TradingStrategy::Macd(st) => st.parameters_spec(r@),
            },
    {
        match self {
            TradingStrategy::SmaCrossover(st) => st.parameters(),
            TradingStrategy::Rsi(st) => st.parameters(),
            TradingStrategy::Macd(st) => st.parameters(),
        }
    }

    /// Updates one parameter of the strategy under that strategy's rules.
    pub fn update_parameter(&mut self, name: &str, value: ParameterValue) -> (r: Result<(), TradingError>)
        ensures
            match *old(self) {
                TradingStrategy::SmaCrossover(st) => match sma_update(st, name@, value) {
                    Ok(n) => r is Ok && *final(self) == TradingStrategy::SmaCrossover(n),
                    Err(e) => r == Err::<(), TradingError>(e) && *final(self) == *old(self),
                },
                TradingStrategy::Rsi(st) => match rsi_update(st, name@, value) {
                    Ok(n) => r is Ok && *final(self) == TradingStrategy::Rsi(n),
                    Err(e) => r == Err::<(), TradingError>(e) && *final(self) == *old(self),
                },
                TradingStrategy::Macd(st) => match macd_update(st, name@, value) {
                    Ok(n) => r is Ok && *final(self) == TradingStrategy::Macd(n),
                    Err(e) => r == Err::<(), TradingError>(e) && *final(self) == *old(self),
                },
            },
    {
        match self {
            TradingStrategy::SmaCrossover(st) => st.update_parameter(name, value),
            TradingStrategy::Rsi(st) => st.update_parameter(name, value),
            TradingStrategy::Macd(st) => st.update_parameter(name, value),
        }
    }
}

pub proof fn lemma_sum_range_prefix(s: Seq<i64>, m: int, lo: int, hi: int)
    requires
        0 <= lo,
        hi <= m <= s.len(),
    ensures
        crate::indicators::sum_range(s.take(m), lo, hi) == crate::indicators::sum_range(s, lo, hi),
    decreases hi - lo,
{
    if lo < hi {
        lemma_sum_range_prefix(s, m, lo, hi - 1);
    }
}

/// A prefix of the series has the same crossover state at every price it holds.
pub proof fn lemma_fast_above_prefix(s: Seq<i64>, m: int, fast: int, slow: int, j: int)
    requires
        0 < fast <= slow,
        slow - 1 <= j < m <= s.len(),
    ensures
        fast_above(s.take(m), fast, slow, j) == fast_above(s, fast, slow, j),
{
    lemma_sum_range_prefix(s, m, j + 1 - fast, j + 1);
    lemma_sum_range_prefix(s, m, j + 1 - slow, j + 1);
}

/// When the fast SMA lies at or below the slow SMA up to price `t - 1` and
/// above it from price `t` on, evaluating the strategy on each growing
/// prefix of the series gives one Buy, on the prefix that ends at `t`, and
/// no signal on any other prefix.
pub proof fn lemma_single_upward_cross(s: Seq<i64>, fast: usize, slow: usize, t: int)
    requires
        0 < fast <= slow,
        slow <= t < s.len(),
        forall|j: int| slow - 1 <= j < s.len() ==> (#[trigger] fast_above(s, fast as int, slow as int, j) <==> j >= t),
    ensures
        forall|m: int|
            slow + 2 <= m <= s.len() ==> if m - 1 == t {
                #[trigger] sma_crossover_outcome(s.take(m), fast, slow) matches Ok(Some((TradeAction::Buy, _)))
            } else {
                sma_crossover_outcome(s.take(m), fast, slow) == Ok::<Option<(TradeAction, int)>, TradingError>(None)
            },
{
    assert forall|m: int| slow + 2 <= m <= s.len() implies if m - 1 == t {
        #[trigger] sma_crossover_outcome(s.take(m), fast, slow) matches Ok(Some((TradeAction::Buy, _)))
    } else {
        sma_crossover_outcome(s.take(m), fast, slow) == Ok::<Option<(TradeAction, int)>, TradingError>(None)
    } by {
        lemma_fast_above_prefix(s, m, fast as int, slow as int, m - 2);
        lemma_fast_above_prefix(s, m, fast as int, slow as int, m - 1);
        assert(fast_above(s, fast as int, slow as int, m - 2) <==> m - 2 >= t);
        assert(fast_above(s, fast as int, slow as int, m - 1) <==> m - 1 >= t);
    }
}

} // verus!

//! The technical-analysis service: the indicator engine behind one value.
use vstd::prelude::*;
use crate::errors::AnalysisError;
use crate::indicators::{calculate_ema, calculate_macd, calculate_rsi, ema_at, macd_at, macd_fits, one_more, rsi_spec, sat_add};

verus! {

/// Hands out RSI, EMA and MACD under the engine's single smoothing policy.
#[derive(Debug, Clone, Copy)]
pub struct TechnicalAnalysisImpl;

impl TechnicalAnalysisImpl {
    pub fn new() -> (r: TechnicalAnalysisImpl) {
        TechnicalAnalysisImpl
    }

    /// Wilder's RSI in hundredths, as `indicators::calculate_rsi`.
    pub fn calculate_rsi(&self, prices: &[i64], period: usize) -> (r: Result<u64, AnalysisError>)
        ensures
            prices@.len() <= period ==> r == Err::<u64, AnalysisError>(
                AnalysisError::InsufficientData { needed: one_more(period), available: prices@.len() as usize },
            ),
            period == 0 && prices@.len() > period ==> r == Err::<u64, AnalysisError>(AnalysisError::IndicatorCalculation),
            period > 0 && prices@.len() > period ==> r == Ok::<u64, AnalysisError>(rsi_spec(prices@, period as int) as u64),
    {
        calculate_rsi(prices, period)
    }

    /// The EMA series, as `indicators::calculate_ema`.
    pub fn calculate_ema(&self, prices: &[i64], period: usize) -> (r: Result<Vec<i64>, AnalysisError>)
        ensures
            period == 0 ==> r == Err::<Vec<i64>, AnalysisError>(AnalysisError::IndicatorCalculation),
            period > 0 && prices@.len() < period ==> r == Err::<Vec<i64>, AnalysisError>(
                AnalysisError::InsufficientData { needed: period, available: prices@.len() as usize },
            ),
            period > 0 && prices@.len() >= period ==> (r matches Ok(v) && v@.len() == prices@.len() - period + 1
                && forall|k: int| 0 <= k < v@.len() ==> #[trigger] v@[k] == ema_at(prices@, period as int, k)),
    {
        calculate_ema(prices, period)
    }

    /// The MACD and signal lines, as `indicators::calculate_macd`.
    pub fn calculate_macd(&self, prices: &[i64], fast_period: usize, slow_period: usize, signal_period: usize)
        -> (r: Result<(Vec<i64>, Vec<i64>), AnalysisError>)
        ensures
            ({
                let longest = if fast_period > slow_period { fast_period } else { slow_period };
                &&& prices@.len() < longest + signal_period ==> r == Err::<(Vec<i64>, Vec<i64>), AnalysisError>(
                    AnalysisError::InsufficientData { needed: sat_add(longest, signal_period), available: prices@.len() as usize },
                )
                &&& prices@.len() >= longest + signal_period && (fast_period == 0 || slow_period == 0 || signal_period == 0
                    || fast_period > slow_period) ==> r == Err::<(Vec<i64>, Vec<i64>), AnalysisError>(
                    AnalysisError::IndicatorCalculation,
                )
            }),
            r matches Ok((m, s)) ==> 0 < fast_period <= slow_period && m@.len() == prices@.len() - slow_period + 1
                && (forall|i: int| 0 <= i < m@.len() ==> #[trigger] m@[i] == macd_at(prices@, fast_period as int, slow_period as int, i))
                && s@.len() == m@.len() - signal_period + 1
                && (forall|j: int| 0 <= j < s@.len() ==> #[trigger] s@[j] == ema_at(m@, signal_period as int, j)),
            fast_period > 0 && slow_period > 0 && signal_period > 0 && fast_period <= slow_period
                && prices@.len() >= slow_period + signal_period && !macd_fits(prices@, fast_period as int, slow_period as int)
                ==> r == Err::<(Vec<i64>, Vec<i64>), AnalysisError>(AnalysisError::IndicatorCalculation),
            fast_period > 0 && slow_period > 0 && signal_period > 0 && fast_period <= slow_period
                && prices@.len() >= slow_period + signal_period && macd_fits(prices@, fast_period as int, slow_period as int)
                ==> r is Ok,
    {
        match calculate_macd(prices, fast_period, slow_period, signal_period) {
            Ok((m, s, _h)) => Ok((m, s)),
            Err(e) => Err(e),
        }
    }
}

} // verus!

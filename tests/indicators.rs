use trading_core::errors::AnalysisError;
use trading_core::indicators::{
    calculate_atr, calculate_bollinger_bands, calculate_ema, calculate_macd, calculate_obv,
    calculate_rsi, calculate_sma, calculate_stochastic, RSI_SCALE,
};

const S: i64 = 1_000_000;

fn scaled(v: &[i64]) -> Vec<i64> {
    v.iter().map(|x| x * S).collect()
}

#[test]
fn sma_of_small_series() {
    assert_eq!(calculate_sma(&[1, 2, 3, 4, 5], 3).unwrap(), vec![2, 3, 4]);
}

#[test]
fn sma_rounds_down_on_negative_means() {
    assert_eq!(calculate_sma(&[-1, -2], 2).unwrap(), vec![-2]);
}

#[test]
fn sma_matches_window_recomputation() {
    let prices = scaled(&[44, 47, 45, 48, 46, 49, 52, 50, 53, 51]);
    let p = 4;
    let fast = calculate_sma(&prices, p).unwrap();
    assert_eq!(fast.len(), prices.len() - p + 1);
    for i in 0..fast.len() {
        let naive: i64 = prices[i..i + p].iter().sum::<i64>().div_euclid(p as i64);
        assert_eq!(fast[i], naive);
    }
}

#[test]
fn sma_with_extreme_values_does_not_overflow() {
    let prices = vec![i64::MAX, i64::MAX, i64::MAX];
    assert_eq!(calculate_sma(&prices, 3).unwrap(), vec![i64::MAX]);
    let lows = vec![i64::MIN, i64::MIN];
    assert_eq!(calculate_sma(&lows, 2).unwrap(), vec![i64::MIN]);
}

#[test]
fn every_indicator_reports_insufficient_data() {
    let short = vec![1, 2];
    assert_eq!(calculate_sma(&short, 3), Err(AnalysisError::InsufficientData { needed: 3, available: 2 }));
    assert_eq!(calculate_ema(&short, 3), Err(AnalysisError::InsufficientData { needed: 3, available: 2 }));
    assert_eq!(calculate_rsi(&short, 3), Err(AnalysisError::InsufficientData { needed: 4, available: 2 }));
    assert_eq!(calculate_macd(&short, 2, 3, 2), Err(AnalysisError::InsufficientData { needed: 5, available: 2 }));
    assert!(matches!(calculate_bollinger_bands(&short, 3, 200), Err(AnalysisError::InsufficientData { needed: 3, available: 2 })));
    assert_eq!(calculate_atr(&short, &short, &short, 3), Err(AnalysisError::InsufficientData { needed: 4, available: 2 }));
    assert_eq!(
        calculate_stochastic(&short, &short, &short, 3, 2),
        Err(AnalysisError::InsufficientData { needed: 3, available: 2 })
    );
    assert_eq!(calculate_obv(&[1], &[5]), Err(AnalysisError::InsufficientData { needed: 2, available: 1 }));
}

#[test]
fn zero_period_is_a_calculation_error() {
    assert_eq!(calculate_sma(&[1, 2, 3], 0), Err(AnalysisError::IndicatorCalculation));
    assert_eq!(calculate_ema(&[1, 2, 3], 0), Err(AnalysisError::IndicatorCalculation));
    assert_eq!(calculate_rsi(&[1, 2, 3], 0), Err(AnalysisError::IndicatorCalculation));
}

#[test]
fn ema_seeds_with_the_mean_then_smooths() {
    assert_eq!(calculate_ema(&[10, 11, 12, 13, 14], 3).unwrap(), vec![11, 12, 13]);
}

#[test]
fn ema_is_deterministic() {
    let prices = scaled(&[44, 47, 45, 48, 46, 49, 52, 50, 53, 51]);
    assert_eq!(calculate_ema(&prices, 5).unwrap(), calculate_ema(&prices, 5).unwrap());
}

#[test]
fn rsi_of_mixed_series() {
    let prices = scaled(&[44, 47, 45, 48, 46, 49, 52, 50, 53, 51]);
    assert_eq!(calculate_rsi(&prices, 5).unwrap(), 6078);
    let falling = scaled(&[110, 108, 109, 105, 106, 101, 102, 99, 100, 95]);
    assert_eq!(calculate_rsi(&falling, 4).unwrap(), 1451);
}

#[test]
fn rsi_is_within_bounds() {
    let prices = scaled(&[100, 102, 101, 105, 103, 108, 107, 110, 106, 104]);
    let v = calculate_rsi(&prices, 4).unwrap();
    assert_eq!(v, 4334);
    assert!(v <= RSI_SCALE);
}

#[test]
fn rsi_of_rising_series_is_one_hundred() {
    let prices: Vec<i64> = (0..20).map(|i| (100 + i) * S).collect();
    assert_eq!(calculate_rsi(&prices, 14).unwrap(), RSI_SCALE);
}

#[test]
fn rsi_of_flat_series_is_one_hundred() {
    assert_eq!(calculate_rsi(&vec![50_000; 20], 14).unwrap(), RSI_SCALE);
}

#[test]
fn macd_lines_and_histogram() {
    let prices = scaled(&[10, 12, 11, 13, 15, 14, 16, 18, 17, 19, 21, 20]);
    let (m, s, h) = calculate_macd(&prices, 3, 5, 3).unwrap();
    assert_eq!(m, vec![1300000, 950000, 1008334, 1193056, 889121, 972956, 1172075, 876435]);
    assert_eq!(s, vec![1086111, 1139583, 1014352, 993654, 1082864, 979649]);
    assert_eq!(h, vec![-77777, 53473, -125231, -20698, 89211, -103214]);
}

#[test]
fn macd_refuses_fast_period_above_slow() {
    let prices = scaled(&[10, 12, 11, 13, 15, 14, 16, 18, 17, 19, 21, 20]);
    assert_eq!(calculate_macd(&prices, 6, 5, 3), Err(AnalysisError::IndicatorCalculation));
}

#[test]
fn bollinger_bands_of_known_window() {
    let (u, m, l) = calculate_bollinger_bands(&[2, 4, 4, 4, 5, 5, 7, 9], 8, 200).unwrap();
    assert_eq!(m, vec![5]);
    assert_eq!(u, vec![9]);
    assert_eq!(l, vec![1]);
}

#[test]
fn bollinger_bands_report_overflowing_deviations() {
    let prices = vec![i64::MIN, i64::MAX, i64::MIN, i64::MAX, i64::MIN, i64::MAX];
    assert_eq!(calculate_bollinger_bands(&prices, 6, 200), Err(AnalysisError::IndicatorCalculation));
}

#[test]
fn atr_with_wilder_smoothing() {
    let h = scaled(&[12, 13, 14, 13, 15]);
    let l = scaled(&[10, 11, 12, 11, 12]);
    let c = scaled(&[11, 12, 13, 12, 14]);
    assert_eq!(calculate_atr(&h, &l, &c, 2).unwrap(), vec![2000000, 2000000, 2500000]);
}

#[test]
fn atr_refuses_series_of_different_lengths() {
    let h = scaled(&[12, 13, 14, 13, 15]);
    let l = scaled(&[10, 11, 12, 11]);
    let c = scaled(&[11, 12, 13, 12, 14]);
    assert_eq!(calculate_atr(&h, &l, &c, 2), Err(AnalysisError::IndicatorCalculation));
}

#[test]
fn stochastic_k_and_d() {
    let h = vec![12, 13, 14, 13, 15, 16];
    let l = vec![10, 11, 12, 11, 12, 13];
    let c = vec![11, 12, 13, 12, 14, 15];
    let (k, d) = calculate_stochastic(&h, &l, &c, 3, 2).unwrap();
    assert_eq!(k, vec![7500, 3333, 7500, 8000]);
    assert_eq!(d, vec![5416, 5416, 7750]);
}

#[test]
fn stochastic_of_flat_window_is_fifty() {
    let flat = vec![7, 7, 7];
    let (k, _) = calculate_stochastic(&flat, &flat, &flat, 3, 1).unwrap();
    assert_eq!(k, vec![5000]);
}

#[test]
fn obv_adds_and_subtracts_volume() {
    let closes = vec![10, 11, 10, 10, 12];
    let volumes = vec![100, 200, 300, 400, 500];
    assert_eq!(calculate_obv(&closes, &volumes).unwrap(), vec![100, 300, 0, 0, 500]);
}

#[test]
fn obv_needs_a_volume_per_close() {
    assert_eq!(
        calculate_obv(&[1, 2, 3], &[1, 2]),
        Err(AnalysisError::InsufficientData { needed: 3, available: 2 })
    );
}

#[test]
fn zero_periods_on_short_data_are_insufficient() {
    assert_eq!(calculate_macd(&[], 0, 5, 3), Err(AnalysisError::InsufficientData { needed: 8, available: 0 }));
    assert_eq!(calculate_atr(&[], &[], &[], 0), Err(AnalysisError::InsufficientData { needed: 1, available: 0 }));
    let short = vec![1, 2];
    assert_eq!(
        calculate_stochastic(&short, &short, &short, 3, 0),
        Err(AnalysisError::InsufficientData { needed: 3, available: 2 })
    );
    assert_eq!(calculate_rsi(&[], 0), Err(AnalysisError::InsufficientData { needed: 1, available: 0 }));
}

#[test]
fn lookback_counts_the_longer_macd_period() {
    let prices = vec![1, 2, 3, 4, 5, 6];
    assert_eq!(calculate_macd(&prices, 7, 3, 2), Err(AnalysisError::InsufficientData { needed: 9, available: 6 }));
}

#[test]
fn stochastic_short_k_series_is_insufficient_even_with_uneven_series() {
    let h = vec![5, 6, 7, 8, 9];
    let l = vec![1, 2, 3, 4, 5];
    let c = vec![3, 4, 5, 6];
    assert_eq!(
        calculate_stochastic(&h, &l, &c, 3, 3),
        Err(AnalysisError::InsufficientData { needed: 3, available: 2 })
    );
    assert_eq!(calculate_stochastic(&h, &l, &c, 3, 2), Err(AnalysisError::IndicatorCalculation));
}

#[test]
fn macd_line_beyond_64_bits_is_a_calculation_error() {
    let prices = vec![i64::MIN, i64::MIN, i64::MIN, i64::MAX];
    assert_eq!(calculate_macd(&prices, 1, 3, 1), Err(AnalysisError::IndicatorCalculation));
}

use trading_core::errors::AnalysisError;
use trading_core::models::Candlestick;
use trading_core::patterns::PatternDetector;

const S: i64 = 1_000_000;

fn candles(highs: &[i64]) -> Vec<Candlestick> {
    highs
        .iter()
        .enumerate()
        .map(|(i, h)| Candlestick {
            symbol: "BTCUSDT".to_string(),
            interval: "1m".to_string(),
            close_time: i as i64,
            high: h * S,
            low: (h - 2) * S,
            close: (h - 1) * S,
            ..Default::default()
        })
        .collect()
}

#[test]
fn detects_double_top_and_its_target() {
    let highs = [100, 102, 105, 110, 104, 101, 100, 103, 106, 110, 105, 100, 99, 98, 97, 96, 95, 94, 93, 92];
    let found = PatternDetector::new().detect_double_top(&candles(&highs)).unwrap().unwrap();
    assert_eq!(found.first_peak.close_time, 3);
    assert_eq!(found.second_peak.close_time, 9);
    assert_eq!(found.trough.close_time, 6);
    assert_eq!(found.height, 110 * S);
    assert_eq!(found.target_price(), (98 * S - (110 * S - 98 * S)) as i128);
}

#[test]
fn double_top_needs_separated_peaks() {
    let highs = [100, 110, 104, 110, 103, 102, 101, 100, 99, 98, 97, 96, 95, 94, 93, 92, 91, 90, 89, 88];
    assert!(PatternDetector::new().detect_double_top(&candles(&highs)).unwrap().is_none());
}

#[test]
fn detects_double_bottom() {
    let lows = [110, 108, 105, 100, 106, 109, 110, 107, 104, 100, 105, 110, 111, 112, 113, 114, 115, 116, 117, 118];
    let highs: Vec<i64> = lows.iter().map(|l| l + 2).collect();
    let found = PatternDetector::new().detect_double_bottom(&candles(&highs)).unwrap().unwrap();
    assert_eq!(found.first_trough.close_time, 3);
    assert_eq!(found.second_trough.close_time, 9);
    assert_eq!(found.peak.close_time, 6);
    assert_eq!(found.depth, 100 * S);
    assert_eq!(found.target_price(), (112 * S + (112 * S - 100 * S)) as i128);
}

#[test]
fn detects_head_and_shoulders() {
    let highs = [100, 103, 106, 110, 105, 102, 108, 115, 120, 114, 107, 104, 108, 110, 106, 103, 101, 100, 99, 98];
    let found = PatternDetector::new().detect_head_and_shoulders(&candles(&highs)).unwrap().unwrap();
    assert_eq!(found.left_shoulder.close_time, 3);
    assert_eq!(found.head.close_time, 8);
    assert_eq!(found.right_shoulder.close_time, 13);
    assert_eq!(found.left_trough.close_time, 5);
    assert_eq!(found.right_trough.close_time, 11);
    assert_eq!(found.neckline_rise, 2 * S as i128);
    assert_eq!(found.neckline_run, 6);
    assert_eq!(found.breakout_distance, 8);
    assert_eq!(found.target_price(), 82_666_666);
}

#[test]
fn short_window_is_insufficient() {
    let detector = PatternDetector::with_settings(20, 300);
    assert!(matches!(
        detector.detect_head_and_shoulders(&candles(&[1, 2, 3])),
        Err(AnalysisError::InsufficientData { needed: 20, available: 3 })
    ));
}

#[test]
fn no_pattern_in_a_steady_rise() {
    let highs: Vec<i64> = (100..130).collect();
    let detector = PatternDetector::new();
    assert!(detector.detect_head_and_shoulders(&candles(&highs)).unwrap().is_none());
    assert!(detector.detect_double_top(&candles(&highs)).unwrap().is_none());
    assert!(detector.detect_double_bottom(&candles(&highs)).unwrap().is_none());
}

#[test]
fn double_top_is_found_on_a_later_pair_of_peaks() {
    let highs = [100, 104, 110, 103, 110, 105, 101, 100, 104, 107, 110, 104, 100, 99, 98, 97, 96, 95, 94, 93];
    // The default scan stops after two peaks, whose pair is too close.
    assert!(PatternDetector::new().detect_double_top(&candles(&highs)).unwrap().is_none());
    let detector = PatternDetector::new().with_extrema_limits(3, 3);
    let found = detector.detect_double_top(&candles(&highs)).unwrap().unwrap();
    assert_eq!(found.first_peak.close_time, 4);
    assert_eq!(found.second_peak.close_time, 10);
    assert_eq!(found.trough.close_time, 7);
}

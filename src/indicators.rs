//! The indicator engine: pure functions from price (and volume) series to
//! indicator series. Every function fails with `InsufficientData` when the
//! series is shorter than its lookback, and with `IndicatorCalculation` when
//! a period is zero or the periods are out of order.
//!
//! Averages round down (toward negative infinity). RSI and the stochastic
//! oscillator are in hundredths: `0..=RSI_SCALE` stands for 0.00 to 100.00.
use vstd::prelude::*;
use vstd::arithmetic::div_mod::{lemma_div_is_ordered, lemma_div_multiples_vanish};
use crate::errors::AnalysisError;

verus! {

/// 100.00 in the hundredths that RSI and %K are measured in.
pub const RSI_SCALE: u64 = 10_000;

// ---------------------------------------------------------------- sums

/// `s[lo] + ... + s[hi - 1]`.
pub open spec fn sum_range(s: Seq<i64>, lo: int, hi: int) -> int
    decreases hi - lo,
{
    if lo >= hi {
        0
    } else {
        sum_range(s, lo, hi - 1) + s[hi - 1]
    }
}

/// The mean of the `p` values starting at `start`, rounded down.
pub open spec fn window_mean(s: Seq<i64>, start: int, p: int) -> int {
    sum_range(s, start, start + p) / p
}

pub proof fn lemma_sum_range_front(s: Seq<i64>, lo: int, hi: int)
    requires
        lo < hi,
    ensures
        sum_range(s, lo, hi) == s[lo] + sum_range(s, lo + 1, hi),
    decreases hi - lo,
{
    if lo + 1 < hi {
        lemma_sum_range_front(s, lo, hi - 1);
    } else {
        assert(sum_range(s, lo, lo) == 0);
        assert(sum_range(s, lo + 1, hi) == 0);
    }
}

pub proof fn lemma_sum_range_bounds(s: Seq<i64>, lo: int, hi: int, a: int, b: int)
    requires
        0 <= lo <= hi <= s.len(),
        forall|i: int| lo <= i < hi ==> a <= #[trigger] s[i] <= b,
    ensures
        (hi - lo) * a <= sum_range(s, lo, hi) <= (hi - lo) * b,
    decreases hi - lo,
{
    if lo < hi {
        lemma_sum_range_bounds(s, lo, hi - 1, a, b);
        assert(a <= s[hi - 1] <= b);
        assert((hi - lo) * a == (hi - 1 - lo) * a + a) by (nonlinear_arith);
        assert((hi - lo) * b == (hi - 1 - lo) * b + b) by (nonlinear_arith);
    } else {
        assert((hi - lo) * a == 0 && (hi - lo) * b == 0) by (nonlinear_arith)
            requires
                hi == lo,
        ;
    }
}

/// A sum of at most `u64::MAX` 64-bit values leaves room for one more in 128 bits.
pub proof fn lemma_sum_range_fits(s: Seq<i64>, lo: int, hi: int)
    requires
        0 <= lo <= hi <= s.len(),
        hi - lo <= u64::MAX,
    ensures
        i128::MIN + 0x8000_0000_0000_0000int <= sum_range(s, lo, hi) <= i128::MAX
            - 0x8000_0000_0000_0000int,
{
    lemma_sum_range_bounds(s, lo, hi, i64::MIN as int, i64::MAX as int);
    let n = hi - lo;
    assert(n * (i64::MIN as int) >= i128::MIN + 0x8000_0000_0000_0000int) by (nonlinear_arith)
        requires
            0 <= n <= u64::MAX,
    ;
    assert(n * (i64::MAX as int) <= i128::MAX - 0x8000_0000_0000_0000int) by (nonlinear_arith)
        requires
            0 <= n <= u64::MAX,
    ;
}

/// `d * lo <= x <= d * hi` gives `lo <= x / d <= hi`.
pub proof fn lemma_div_between(x: int, lo: int, hi: int, d: int)
    requires
        d > 0,
        d * lo <= x <= d * hi,
    ensures
        lo <= x / d <= hi,
{
    lemma_div_is_ordered(d * lo, x, d);
    lemma_div_is_ordered(x, d * hi, d);
    lemma_div_multiples_vanish(lo, d);
    lemma_div_multiples_vanish(hi, d);
}

/// Floor division of 128-bit integers by a positive divisor.
fn floor_div(a: i128, b: i128) -> (q: i128)
    requires
        b > 0,
    ensures
        q == a / b,
{
    proof {
        assert(b * i128::MIN <= a <= b * i128::MAX) by (nonlinear_arith)
            requires
                b >= 1,
                i128::MIN <= a <= i128::MAX,
        ;
        lemma_div_between(a as int, i128::MIN as int, i128::MAX as int, b as int);
    }
    match a.checked_div_euclid(b) {
        Some(q) => q,
        None => 0,
    }
}

/// Sum of `s[lo..hi]` in 128 bits.
fn sum_slice(s: &[i64], lo: usize, hi: usize) -> (r: i128)
    requires
        lo <= hi <= s@.len(),
    ensures
        r == sum_range(s@, lo as int, hi as int),
{
    let mut acc: i128 = 0;
    let mut i: usize = lo;
    while i < hi
        invariant
            lo <= i <= hi <= s@.len(),
            acc == sum_range(s@, lo as int, i as int),
        decreases hi - i,
    {
        proof {
            lemma_sum_range_fits(s@, lo as int, i as int);
        }
        acc = acc + s[i] as i128;
        i += 1;
    }
    acc
}

/// The mean of `s[0..p]`, rounded down.
fn mean_of_prefix(s: &[i64], p: usize) -> (r: i64)
    requires
        0 < p <= s@.len(),
    ensures
        r == window_mean(s@, 0, p as int),
{
    let sum = sum_slice(s, 0, p);
    proof {
        lemma_sum_range_bounds(s@, 0, p as int, i64::MIN as int, i64::MAX as int);
        lemma_div_between(sum as int, i64::MIN as int, i64::MAX as int, p as int);
    }
    floor_div(sum, p as i128) as i64
}

// ---------------------------------------------------------------- SMA

/// Simple moving average: element `i` is the mean of `prices[i..i + period]`,
/// for every full window. A running sum moves the window one step at a time.
pub fn calculate_sma(prices: &[i64], period: usize) -> (r: Result<Vec<i64>, AnalysisError>)
    ensures
        period == 0 ==> r == Err::<Vec<i64>, AnalysisError>(AnalysisError::IndicatorCalculation),
        period > 0 && prices@.len() < period ==> r == Err::<Vec<i64>, AnalysisError>(
            AnalysisError::InsufficientData { needed: period, available: prices@.len() as usize },
        ),
        period > 0 && prices@.len() >= period ==> (r matches Ok(v) && v@.len() == prices@.len()
            - period + 1 && forall|i: int|
            0 <= i < v@.len() ==> #[trigger] v@[i] == window_mean(prices@, i, period as int)),
{
    if period == 0 {
        return Err(AnalysisError::IndicatorCalculation);
    }
    if prices.len() < period {
        return Err(AnalysisError::insufficient(period, prices.len()));
    }
    let n = prices.len();
    let mut result: Vec<i64> = Vec::new();
    let mut sum = sum_slice(prices, 0, period);
    proof {
        lemma_sum_range_bounds(prices@, 0, period as int, i64::MIN as int, i64::MAX as int);
        lemma_div_between(sum as int, i64::MIN as int, i64::MAX as int, period as int);
    }
    result.push(floor_div(sum, period as i128) as i64);
    let mut i: usize = period;
    while i < n
        invariant
            period > 0,
            period <= i <= n,
            n == prices@.len(),
            sum == sum_range(prices@, (i - period) as int, i as int),
            result@.len() == i - period + 1,
            forall|j: int|
                0 <= j < result@.len() ==> #[trigger] result@[j] == window_mean(
                    prices@,
                    j,
                    period as int,
                ),
        decreases n - i,
    {
        proof {
            lemma_sum_range_front(prices@, (i - period) as int, i as int);
            lemma_sum_range_fits(prices@, (i + 1 - period) as int, (i + 1) as int);
        }
        sum = sum + (prices[i] as i128 - prices[i - period] as i128);
        proof {
            lemma_sum_range_bounds(prices@, (i + 1 - period) as int, (i + 1) as int, i64::MIN as int, i64::MAX as int);
            lemma_div_between(sum as int, i64::MIN as int, i64::MAX as int, period as int);
        }
        result.push(floor_div(sum, period as i128) as i64);
        i += 1;
    }
    Ok(result)
}

// ---------------------------------------------------------------- EMA

/// One smoothing step with factor `2 / (p + 1)`, rounded down.
pub open spec fn ema_step(prev: int, x: int, p: int) -> int {
    prev + (2 * (x - prev)) / (p + 1)
}

/// The `k`-th EMA value: seeded with the mean of the first `p` prices, then
/// one smoothing step per further price.
pub open spec fn ema_at(s: Seq<i64>, p: int, k: int) -> int
    decreases k,
{
    if k <= 0 {
        window_mean(s, 0, p)
    } else {
        ema_step(ema_at(s, p, k - 1), s[p - 1 + k] as int, p)
    }
}

/// A smoothing step lands between the previous value and the new price.
pub proof fn lemma_ema_step_between(prev: int, x: int, p: int)
    requires
        p >= 1,
    ensures
        prev <= x ==> prev <= ema_step(prev, x, p) <= x,
        x <= prev ==> x <= ema_step(prev, x, p) <= prev,
{
    let d = x - prev;
    let q = p + 1;
    if d >= 0 {
        assert(q * 0 <= 2 * d <= q * d) by (nonlinear_arith)
            requires
                q >= 2,
                d >= 0,
        ;
        lemma_div_between(2 * d, 0, d, q);
    } else {
        assert(q * d <= 2 * d <= q * 0) by (nonlinear_arith)
            requires
                q >= 2,
                d < 0,
        ;
        lemma_div_between(2 * d, d, 0, q);
    }
}

/// Every EMA value lies within the range of the prices.
pub proof fn lemma_ema_range(s: Seq<i64>, p: int, k: int, a: int, b: int)
    requires
        p >= 1,
        0 <= k,
        p - 1 + k < s.len(),
        forall|i: int| 0 <= i < s.len() ==> a <= #[trigger] s[i] <= b,
    ensures
        a <= ema_at(s, p, k) <= b,
    decreases k,
{
    if k == 0 {
        lemma_sum_range_bounds(s, 0, p, a, b);
        lemma_div_between(sum_range(s, 0, p), a, b, p);
    } else {
        lemma_ema_range(s, p, k - 1, a, b);
        lemma_ema_step_between(ema_at(s, p, k - 1), s[p - 1 + k] as int, p);
    }
}

/// Exponential moving average with factor `2 / (period + 1)`. The first value
/// is the mean of the first `period` prices; each later price moves the
/// average by `(price - previous) * 2 / (period + 1)`, rounded down. Element
/// `k` belongs to price `k + period - 1`.
pub fn calculate_ema(prices: &[i64], period: usize) -> (r: Result<Vec<i64>, AnalysisError>)
    ensures
        period == 0 ==> r == Err::<Vec<i64>, AnalysisError>(AnalysisError::IndicatorCalculation),
        period > 0 && prices@.len() < period ==> r == Err::<Vec<i64>, AnalysisError>(
            AnalysisError::InsufficientData { needed: period, available: prices@.len() as usize },
        ),
        period > 0 && prices@.len() >= period ==> (r matches Ok(v) && v@.len() == prices@.len()
            - period + 1 && forall|k: int|
            0 <= k < v@.len() ==> #[trigger] v@[k] == ema_at(prices@, period as int, k)),
{
    if period == 0 {
        return Err(AnalysisError::IndicatorCalculation);
    }
    if prices.len() < period {
        return Err(AnalysisError::insufficient(period, prices.len()));
    }
    let n = prices.len();
    let mut result: Vec<i64> = Vec::new();
    let mut prev = mean_of_prefix(prices, period);
    result.push(prev);
    let mut i: usize = period;
    while i < n
        invariant
            period > 0,
            period <= i <= n,
            n == prices@.len(),
            result@.len() == i - period + 1,
            prev == ema_at(prices@, period as int, (i - period) as int),
            forall|k: int|
                0 <= k < result@.len() ==> #[trigger] result@[k] == ema_at(
                    prices@,
                    period as int,
                    k,
                ),
        decreases n - i,
    {
        proof {
            lemma_ema_step_between(prev as int, prices[i as int] as int, period as int);
        }
        let d: i128 = prices[i] as i128 - prev as i128;
        let step = floor_div(2 * d, period as i128 + 1);
        prev = (prev as i128 + step) as i64;
        result.push(prev);
        i += 1;
    }
    Ok(result)
}

/// The EMA is a function of its inputs alone: equal inputs give equal
/// results, however often it is computed.
pub proof fn lemma_ema_deterministic(a: Seq<i64>, b: Seq<i64>, p: int)
    requires
        a == b,
    ensures
        forall|k: int| ema_at(a, p, k) == #[trigger] ema_at(b, p, k),
{
}

// ---------------------------------------------------------------- Wilder smoothing

/// `t[lo] + ... + t[hi - 1]`.
pub open spec fn sum_terms(t: Seq<int>, lo: int, hi: int) -> int
    decreases hi - lo,
{
    if lo >= hi {
        0
    } else {
        sum_terms(t, lo, hi - 1) + t[hi - 1]
    }
}

/// Wilder smoothing of the terms `t`: the first value is the mean of the first
/// `p` terms, each later term `x` gives `(previous * (p - 1) + x) / p`.
pub open spec fn wilder_at(t: Seq<int>, p: int, k: int) -> int
    decreases k,
{
    if k <= 0 {
        sum_terms(t, 0, p) / p
    } else {
        (wilder_at(t, p, k - 1) * (p - 1) + t[p - 1 + k]) / p
    }
}

pub open spec fn as_ints(t: Seq<u128>) -> Seq<int> {
    t.map_values(|v: u128| v as int)
}

pub proof fn lemma_sum_terms_bounds(t: Seq<int>, lo: int, hi: int, b: int)
    requires
        0 <= lo <= hi <= t.len(),
        forall|i: int| lo <= i < hi ==> 0 <= #[trigger] t[i] <= b,
    ensures
        0 <= sum_terms(t, lo, hi) <= (hi - lo) * b,
    decreases hi - lo,
{
    if lo < hi {
        lemma_sum_terms_bounds(t, lo, hi - 1, b);
        assert(0 <= t[hi - 1] <= b);
        assert((hi - lo) * b == (hi - 1 - lo) * b + b) by (nonlinear_arith);
    } else {
        assert((hi - lo) * b == 0) by (nonlinear_arith)
            requires
                hi == lo,
        ;
    }
}

/// A smoothing step keeps the average within `[0, b]`.
pub proof fn lemma_wilder_step(prev: int, x: int, p: int, b: int)
    requires
        p >= 1,
        0 <= prev <= b,
        0 <= x <= b,
    ensures
        0 <= (prev * (p - 1) + x) / p <= b,
        prev * (p - 1) + x <= p * b,
{
    assert(p * 0 <= prev * (p - 1) + x <= p * b) by (nonlinear_arith)
        requires
            p >= 1,
            0 <= prev <= b,
            0 <= x <= b,
    ;
    lemma_div_between(prev * (p - 1) + x, 0, b, p);
}

pub proof fn lemma_wilder_range(t: Seq<int>, p: int, k: int, b: int)
    requires
        p >= 1,
        0 <= k,
        p - 1 + k < t.len(),
        forall|i: int| 0 <= i < t.len() ==> 0 <= #[trigger] t[i] <= b,
    ensures
        0 <= wilder_at(t, p, k) <= b,
    decreases k,
{
    if k == 0 {
        lemma_sum_terms_bounds(t, 0, p, b);
        lemma_div_between(sum_terms(t, 0, p), 0, b, p);
    } else {
        lemma_wilder_range(t, p, k - 1, b);
        lemma_wilder_step(wilder_at(t, p, k - 1), t[p - 1 + k], p, b);
    }
}

/// Wilder smoothing of non-negative terms below 2^64.
fn wilder_series(terms: &Vec<u128>, p: usize) -> (r: Vec<u64>)
    requires
        0 < p <= terms@.len(),
        forall|i: int| 0 <= i < terms@.len() ==> #[trigger] terms@[i] <= u64::MAX,
    ensures
        r@.len() == terms@.len() - p + 1,
        forall|k: int| 0 <= k < r@.len() ==> #[trigger] r@[k] == wilder_at(as_ints(terms@), p as int, k),
{
    let ghost t = as_ints(terms@);
    let n = terms.len();
    let mut acc: u128 = 0;
    let mut i: usize = 0;
    while i < p
        invariant
            0 <= i <= p <= n == terms@.len(),
            t == as_ints(terms@),
            forall|j: int| 0 <= j < terms@.len() ==> #[trigger] terms@[j] <= u64::MAX,
            acc == sum_terms(t, 0, i as int),
        decreases p - i,
    {
        proof {
            lemma_sum_terms_bounds(t, 0, i as int + 1, u64::MAX as int);
            assert((i + 1) * (u64::MAX as int) <= u128::MAX) by (nonlinear_arith)
                requires
                    i + 1 <= u64::MAX,
            ;
        }
        acc = acc + terms[i];
        i += 1;
    }
    proof {
        lemma_sum_terms_bounds(t, 0, p as int, u64::MAX as int);
        lemma_div_between(acc as int, 0, u64::MAX as int, p as int);
    }
    let mut prev: u128 = acc / (p as u128);
    let mut result: Vec<u64> = Vec::new();
    result.push(prev as u64);
    let mut i: usize = p;
    while i < n
        invariant
            0 < p <= i <= n == terms@.len(),
            t == as_ints(terms@),
            forall|j: int| 0 <= j < terms@.len() ==> #[trigger] terms@[j] <= u64::MAX,
            prev <= u64::MAX,
            prev == wilder_at(t, p as int, (i - p) as int),
            result@.len() == i - p + 1,
            forall|k: int|
                0 <= k < result@.len() ==> #[trigger] result@[k] == wilder_at(t, p as int, k),
        decreases n - i,
    {
        proof {
            lemma_wilder_step(prev as int, terms[i as int] as int, p as int, u64::MAX as int);
            assert(p * (u64::MAX as int) <= u128::MAX) by (nonlinear_arith)
                requires
                    p <= u64::MAX,
            ;
            assert(prev * (p - 1) <= prev * (p - 1) + terms[i as int]);
        }
        prev = (prev * (p as u128 - 1) + terms[i]) / (p as u128);
        result.push(prev as u64);
        i += 1;
    }
    result
}

// ---------------------------------------------------------------- RSI

/// The rise (`up`) or the fall (`!up`) from price `i - 1` to price `i`, or zero.
pub open spec fn price_move(s: Seq<i64>, i: int, up: bool) -> int {
    if up {
        if s[i] > s[i - 1] { s[i] - s[i - 1] } else { 0 }
    } else {
        if s[i] < s[i - 1] { s[i - 1] - s[i] } else { 0 }
    }
}

/// The gains (`up`) or losses (`!up`) of each step of the series.
pub open spec fn moves(s: Seq<i64>, up: bool) -> Seq<int> {
    Seq::new((s.len() - 1) as nat, |i: int| price_move(s, i + 1, up))
}

/// RSI in hundredths from the average gain and loss: `100 * g / (g + l)`,
/// which is `100 - 100 / (1 + g / l)`, and 100 when there is no loss.
pub open spec fn rsi_of(g: int, l: int) -> int {
    if l == 0 {
        RSI_SCALE as int
    } else {
        (RSI_SCALE * g) / (g + l)
    }
}

/// Wilder's RSI of a series over `p` steps, smoothed to its last price.
pub open spec fn rsi_spec(s: Seq<i64>, p: int) -> int {
    rsi_of(
        wilder_at(moves(s, true), p, s.len() - 1 - p),
        wilder_at(moves(s, false), p, s.len() - 1 - p),
    )
}

/// `p + 1`, or `p` where that does not fit.
pub open spec fn one_more(p: usize) -> usize {
    if p < usize::MAX {
        (p + 1) as usize
    } else {
        p
    }
}

pub(crate) fn one_more_exec(p: usize) -> (r: usize)
    ensures
        r == one_more(p),
{
    if p < usize::MAX {
        p + 1
    } else {
        p
    }
}

pub proof fn lemma_moves_bounded(s: Seq<i64>, up: bool)
    requires
        s.len() >= 1,
    ensures
        forall|i: int| 0 <= i < moves(s, up).len() ==> 0 <= #[trigger] moves(s, up)[i] <= u64::MAX,
{
}

/// The gains (`up`) or losses of the series as 128-bit terms.
fn collect_moves(prices: &[i64], up: bool) -> (r: Vec<u128>)
    requires
        prices@.len() >= 1,
    ensures
        r@.len() == prices@.len() - 1,
        as_ints(r@) == moves(prices@, up),
        forall|i: int| 0 <= i < r@.len() ==> #[trigger] r@[i] <= u64::MAX,
{
    let n = prices.len();
    let mut r: Vec<u128> = Vec::new();
    let mut i: usize = 1;
    while i < n
        invariant
            1 <= i <= n == prices@.len(),
            r@.len() == i - 1,
            forall|j: int| 0 <= j < r@.len() ==> #[trigger] r@[j] == price_move(prices@, j + 1, up),
            forall|j: int| 0 <= j < r@.len() ==> #[trigger] r@[j] <= u64::MAX,
        decreases n - i,
    {
        let diff: i128 = prices[i] as i128 - prices[i - 1] as i128;
        let m: u128 = if up {
            if diff > 0 { diff as u128 } else { 0 }
        } else {
            if diff < 0 { (0 - diff) as u128 } else { 0 }
        };
        r.push(m);
        i += 1;
    }
    assert(as_ints(r@) =~= moves(prices@, up));
    r
}

/// Wilder's RSI over `period` steps, in hundredths (`0..=RSI_SCALE`). The
/// average gain and loss are seeded with the mean of the first `period`
/// steps and smoothed over the rest; with no average loss the RSI is 100.
pub fn calculate_rsi(prices: &[i64], period: usize) -> (r: Result<u64, AnalysisError>)
    ensures
        prices@.len() <= period ==> r == Err::<u64, AnalysisError>(
            AnalysisError::InsufficientData { needed: one_more(period), available: prices@.len() as usize },
        ),
        period == 0 && prices@.len() > period ==> r == Err::<u64, AnalysisError>(AnalysisError::IndicatorCalculation),
        period > 0 && prices@.len() > period ==> (r matches Ok(v) && v == rsi_spec(prices@, period as int)
            && v <= RSI_SCALE),
{
    if prices.len() <= period {
        return Err(AnalysisError::insufficient(one_more_exec(period), prices.len()));
    }
    if period == 0 {
        return Err(AnalysisError::IndicatorCalculation);
    }
    let gains = collect_moves(prices, true);
    let losses = collect_moves(prices, false);
    let avg_gains = wilder_series(&gains, period);
    let avg_losses = wilder_series(&losses, period);
    let last = avg_gains.len() - 1;
    let g = avg_gains[last] as u128;
    let l = avg_losses[last] as u128;
    if l == 0 {
        return Ok(RSI_SCALE);
    }
    proof {
        assert(RSI_SCALE * g <= (g + l) * RSI_SCALE) by (nonlinear_arith)
            requires
                l >= 1,
        ;
        lemma_div_between(RSI_SCALE * g, 0, RSI_SCALE as int, (g + l) as int);
    }
    let v = (RSI_SCALE as u128 * g) / (g + l);
    Ok(v as u64)
}

/// With no falling step in the series the average loss is zero, so the RSI
/// is exactly 100.
pub proof fn lemma_rsi_without_losses(s: Seq<i64>, p: int)
    requires
        p >= 1,
        s.len() > p,
        forall|i: int| 1 <= i < s.len() ==> s[i - 1] <= #[trigger] s[i],
    ensures
        rsi_spec(s, p) == RSI_SCALE,
{
    let t = moves(s, false);
    assert forall|i: int| 0 <= i < t.len() implies #[trigger] t[i] == 0 by {
        assert(s[i] <= s[i + 1]);
    }
    lemma_wilder_range(t, p, s.len() - 1 - p, 0);
}

/// For every series longer than the period, the RSI lies in `[0, 100]`.
pub proof fn lemma_rsi_bounded(s: Seq<i64>, p: int)
    requires
        p >= 1,
        s.len() > p,
    ensures
        0 <= rsi_spec(s, p) <= RSI_SCALE,
{
    let k = s.len() - 1 - p;
    lemma_moves_bounded(s, true);
    lemma_moves_bounded(s, false);
    lemma_wilder_range(moves(s, true), p, k, u64::MAX as int);
    lemma_wilder_range(moves(s, false), p, k, u64::MAX as int);
    let g = wilder_at(moves(s, true), p, k);
    let l = wilder_at(moves(s, false), p, k);
    if l != 0 {
        assert(0 * (g + l) <= RSI_SCALE * g <= (g + l) * RSI_SCALE) by (nonlinear_arith)
            requires
                l >= 1,
                g >= 0,
        ;
        lemma_div_between(RSI_SCALE * g, 0, RSI_SCALE as int, g + l);
    }
}

// ---------------------------------------------------------------- ATR

pub open spec fn abs_int(x: int) -> int {
    if x < 0 {
        -x
    } else {
        x
    }
}

pub open spec fn max_int(a: int, b: int) -> int {
    if a >= b {
        a
    } else {
        b
    }
}

pub open spec fn min_int(a: int, b: int) -> int {
    if a <= b {
        a
    } else {
        b
    }
}

/// The true range of candle `i`: the largest of its own range and its
/// distances from the previous close.
pub open spec fn true_range(h: Seq<i64>, l: Seq<i64>, c: Seq<i64>, i: int) -> int {
    max_int(
        max_int(h[i] - l[i], abs_int(h[i] - c[i - 1])),
        abs_int(l[i] - c[i - 1]),
    )
}

/// The true ranges of candles `1..n`.
pub open spec fn true_ranges(h: Seq<i64>, l: Seq<i64>, c: Seq<i64>) -> Seq<int> {
    Seq::new((h.len() - 1) as nat, |i: int| true_range(h, l, c, i + 1))
}

fn abs_i128(x: i128) -> (r: i128)
    requires
        x > i128::MIN,
    ensures
        r == abs_int(x as int),
{
    if x < 0 {
        -x
    } else {
        x
    }
}

/// Average true range: the true ranges smoothed with Wilder's method over
/// `period`; element `k` belongs to candle `k + period`. The three series must
/// have one length.
pub fn calculate_atr(high_prices: &[i64], low_prices: &[i64], close_prices: &[i64], period: usize)
    -> (r: Result<Vec<u64>, AnalysisError>)
    ensures
        ({
            let n = min_int(min_int(high_prices@.len() as int, low_prices@.len() as int), close_prices@.len() as int);
            &&& n <= period ==> r == Err::<Vec<u64>, AnalysisError>(
                AnalysisError::InsufficientData { needed: one_more(period), available: n as usize },
            )
            &&& period == 0 && n > period ==> r == Err::<Vec<u64>, AnalysisError>(AnalysisError::IndicatorCalculation)
            &&& period > 0 && n > period && !(high_prices@.len() == low_prices@.len() == close_prices@.len())
                ==> r == Err::<Vec<u64>, AnalysisError>(AnalysisError::IndicatorCalculation)
            &&& period > 0 && n > period && high_prices@.len() == low_prices@.len() == close_prices@.len()
                ==> (r matches Ok(v) && v@.len() == n - period && forall|k: int|
                0 <= k < v@.len() ==> #[trigger] v@[k] == wilder_at(
                    true_ranges(high_prices@, low_prices@, close_prices@),
                    period as int,
                    k,
                ))
        }),
{
    let mut n = high_prices.len();
    if low_prices.len() < n {
        n = low_prices.len();
    }
    if close_prices.len() < n {
        n = close_prices.len();
    }
    if n <= period {
        return Err(AnalysisError::insufficient(one_more_exec(period), n));
    }
    if period == 0 {
        return Err(AnalysisError::IndicatorCalculation);
    }
    if high_prices.len() != low_prices.len() || high_prices.len() != close_prices.len() {
        return Err(AnalysisError::IndicatorCalculation);
    }
    let mut trs: Vec<u128> = Vec::new();
    let mut i: usize = 1;
    while i < n
        invariant
            1 <= i <= n,
            n == high_prices@.len() == low_prices@.len() == close_prices@.len(),
            trs@.len() == i - 1,
            forall|j: int|
                0 <= j < trs@.len() ==> #[trigger] trs@[j] == true_range(
                    high_prices@,
                    low_prices@,
                    close_prices@,
                    j + 1,
                ),
            forall|j: int| 0 <= j < trs@.len() ==> #[trigger] trs@[j] <= u64::MAX,
        decreases n - i,
    {
        let a: i128 = high_prices[i] as i128 - low_prices[i] as i128;
        let b: i128 = abs_i128(high_prices[i] as i128 - close_prices[i - 1] as i128);
        let d: i128 = abs_i128(low_prices[i] as i128 - close_prices[i - 1] as i128);
        let mut m = if a >= b { a } else { b };
        if d > m {
            m = d;
        }
        trs.push(m as u128);
        i += 1;
    }
    assert(as_ints(trs@) =~= true_ranges(high_prices@, low_prices@, close_prices@));
    Ok(wilder_series(&trs, period))
}

// ---------------------------------------------------------------- MACD

/// `a + b`, or `usize::MAX` where that does not fit.
pub open spec fn sat_add(a: usize, b: usize) -> usize {
    if a + b <= usize::MAX {
        (a + b) as usize
    } else {
        usize::MAX
    }
}

fn sat_add_exec(a: usize, b: usize) -> (r: usize)
    ensures
        r == sat_add(a, b),
{
    if a <= usize::MAX - b {
        a + b
    } else {
        usize::MAX
    }
}

/// The MACD line at element `i`: the fast EMA minus the slow EMA, aligned on
/// the same price (`i + slow - 1`).
pub open spec fn macd_at(s: Seq<i64>, fast: int, slow: int, i: int) -> int {
    ema_at(s, fast, i + slow - fast) - ema_at(s, slow, i)
}

/// Every element of the MACD line fits in 64 bits.
pub open spec fn macd_fits(s: Seq<i64>, fast: int, slow: int) -> bool {
    forall|i: int| 0 <= i < s.len() - slow + 1 ==> i64::MIN <= #[trigger] macd_at(s, fast, slow, i) <= i64::MAX
}

/// For non-negative prices the MACD line always fits in 64 bits.
pub proof fn lemma_macd_fits_nonnegative(s: Seq<i64>, fast: int, slow: int)
    requires
        0 < fast <= slow <= s.len(),
        forall|i: int| 0 <= i < s.len() ==> 0 <= #[trigger] s[i],
    ensures
        macd_fits(s, fast, slow),
{
    assert forall|i: int| 0 <= i < s.len() - slow + 1 implies i64::MIN <= #[trigger] macd_at(s, fast, slow, i) <= i64::MAX by {
        lemma_ema_range(s, fast, i + slow - fast, 0, i64::MAX as int);
        lemma_ema_range(s, slow, i, 0, i64::MAX as int);
    }
}

/// MACD of a price series: the MACD line (one element per price
/// from `slow - 1` on), the signal line (the EMA of the MACD line over
/// `signal_period`) and the histogram (MACD minus signal, aligned on the
/// signal line's elements).
pub fn calculate_macd(prices: &[i64], fast_period: usize, slow_period: usize, signal_period: usize)
    -> (r: Result<(Vec<i64>, Vec<i64>, Vec<i128>), AnalysisError>)
    ensures
        ({
            let n = prices@.len();
            let zero = fast_period == 0 || slow_period == 0 || signal_period == 0;
            let longest = if fast_period > slow_period { fast_period } else { slow_period };
            let fits = macd_fits(prices@, fast_period as int, slow_period as int);
            &&& n < longest + signal_period ==> r == Err::<(Vec<i64>, Vec<i64>, Vec<i128>), AnalysisError>(
                AnalysisError::InsufficientData { needed: sat_add(longest, signal_period), available: n as usize },
            )
            &&& n >= longest + signal_period && (zero || fast_period > slow_period)
                ==> r == Err::<(Vec<i64>, Vec<i64>, Vec<i128>), AnalysisError>(AnalysisError::IndicatorCalculation)
            &&& !zero && n >= longest + signal_period && fast_period <= slow_period && !fits
                ==> r == Err::<(Vec<i64>, Vec<i64>, Vec<i128>), AnalysisError>(AnalysisError::IndicatorCalculation)
            &&& !zero && n >= longest + signal_period && fast_period <= slow_period && fits ==> (r matches Ok((m, sg, h))
                && m@.len() == n - slow_period + 1
                && (forall|i: int| 0 <= i < m@.len() ==> #[trigger] m@[i] == macd_at(prices@, fast_period as int, slow_period as int, i))
                && sg@.len() == m@.len() - signal_period + 1
                && (forall|j: int| 0 <= j < sg@.len() ==> #[trigger] sg@[j] == ema_at(m@, signal_period as int, j))
                && h@.len() == sg@.len()
                && (forall|j: int| 0 <= j < h@.len() ==> #[trigger] h@[j] == m@[j + signal_period - 1] - sg@[j]))
        }),
{
    let n = prices.len();
    let longest = if fast_period > slow_period { fast_period } else { slow_period };
    if n < longest || n - longest < signal_period {
        return Err(AnalysisError::insufficient(sat_add_exec(longest, signal_period), n));
    }
    if fast_period == 0 || slow_period == 0 || signal_period == 0 || fast_period > slow_period {
        return Err(AnalysisError::IndicatorCalculation);
    }
    let fast_ema = match calculate_ema(prices, fast_period) {
        Ok(v) => v,
        Err(e) => return Err(e),
    };
    let slow_ema = match calculate_ema(prices, slow_period) {
        Ok(v) => v,
        Err(e) => return Err(e),
    };
    let offset = slow_period - fast_period;
    let mut macd_line: Vec<i64> = Vec::new();
    let mut i: usize = 0;
    while i < slow_ema.len()
        invariant
            0 < fast_period <= slow_period <= n == prices@.len(),
            0 < signal_period,
            n >= slow_period + signal_period,
            offset == slow_period - fast_period,
            fast_ema@.len() == n - fast_period + 1,
            slow_ema@.len() == n - slow_period + 1,
            forall|k: int| 0 <= k < fast_ema@.len() ==> #[trigger] fast_ema@[k] == ema_at(prices@, fast_period as int, k),
            forall|k: int| 0 <= k < slow_ema@.len() ==> #[trigger] slow_ema@[k] == ema_at(prices@, slow_period as int, k),
            0 <= i <= slow_ema@.len(),
            macd_line@.len() == i,
            forall|k: int| 0 <= k < i ==> #[trigger] macd_line@[k] == macd_at(prices@, fast_period as int, slow_period as int, k),
        decreases slow_ema@.len() - i,
    {
        let d: i128 = fast_ema[i + offset] as i128 - slow_ema[i] as i128;
        if d < i64::MIN as i128 || d > i64::MAX as i128 {
            proof {
                assert(d == macd_at(prices@, fast_period as int, slow_period as int, i as int));
            }
            return Err(AnalysisError::IndicatorCalculation);
        }
        macd_line.push(d as i64);
        i += 1;
    }
    proof {
        assert forall|k: int| 0 <= k < prices@.len() - slow_period + 1 implies i64::MIN <= #[trigger] macd_at(
            prices@,
            fast_period as int,
            slow_period as int,
            k,
        ) <= i64::MAX by {
            assert(macd_line@[k] == macd_at(prices@, fast_period as int, slow_period as int, k));
        }
    }
    let signal_line = match calculate_ema(&macd_line, signal_period) {
        Ok(v) => v,
        Err(e) => return Err(e),
    };
    let mut histogram: Vec<i128> = Vec::new();
    let mlen = macd_line.len();
    let mut j: usize = 0;
    while j < signal_line.len()
        invariant
            mlen == macd_line@.len(),
            0 < signal_period <= macd_line@.len(),
            signal_line@.len() == macd_line@.len() - signal_period + 1,
            0 <= j <= signal_line@.len(),
            histogram@.len() == j,
            forall|k: int| 0 <= k < j ==> #[trigger] histogram@[k] == macd_line@[k + signal_period - 1] - signal_line@[k],
        decreases signal_line@.len() - j,
    {
        histogram.push(macd_line[j + (signal_period - 1)] as i128 - signal_line[j] as i128);
        j += 1;
    }
    Ok((macd_line, signal_line, histogram))
}

// ---------------------------------------------------------------- OBV

/// On-balance volume at element `i`: the first volume, then each volume
/// added on a rising close, subtracted on a falling one, skipped on a tie.
pub open spec fn obv_at(c: Seq<i64>, v: Seq<i64>, i: int) -> int
    decreases i,
{
    if i <= 0 {
        v[0] as int
    } else {
        obv_at(c, v, i - 1) + (if c[i] > c[i - 1] {
            v[i] as int
        } else if c[i] < c[i - 1] {
            -v[i]
        } else {
            0
        })
    }
}

pub proof fn lemma_obv_bounds(c: Seq<i64>, v: Seq<i64>, i: int)
    requires
        0 <= i < v.len(),
        i < c.len(),
    ensures
        -(i + 1) * 0x8000_0000_0000_0000int <= obv_at(c, v, i) <= (i + 1) * 0x8000_0000_0000_0000int,
    decreases i,
{
    if i > 0 {
        lemma_obv_bounds(c, v, i - 1);
    }
}

/// On-balance volume of a close series with its volumes; one element per close.
pub fn calculate_obv(close_prices: &[i64], volumes: &[i64]) -> (r: Result<Vec<i128>, AnalysisError>)
    ensures
        close_prices@.len() < 2 ==> r == Err::<Vec<i128>, AnalysisError>(
            AnalysisError::InsufficientData { needed: 2, available: close_prices@.len() as usize },
        ),
        close_prices@.len() >= 2 && volumes@.len() < close_prices@.len() ==> r == Err::<Vec<i128>, AnalysisError>(
            AnalysisError::InsufficientData { needed: close_prices@.len() as usize, available: volumes@.len() as usize },
        ),
        close_prices@.len() >= 2 && volumes@.len() >= close_prices@.len() ==> (r matches Ok(o)
            && o@.len() == close_prices@.len() && forall|i: int|
            0 <= i < o@.len() ==> #[trigger] o@[i] == obv_at(close_prices@, volumes@, i)),
{
    let n = close_prices.len();
    if n < 2 {
        return Err(AnalysisError::insufficient(2, n));
    }
    if volumes.len() < n {
        return Err(AnalysisError::insufficient(n, volumes.len()));
    }
    let mut obv: Vec<i128> = Vec::new();
    let mut prev: i128 = volumes[0] as i128;
    obv.push(prev);
    let mut i: usize = 1;
    while i < n
        invariant
            1 <= i <= n == close_prices@.len() <= volumes@.len(),
            obv@.len() == i,
            prev == obv_at(close_prices@, volumes@, i - 1),
            forall|k: int| 0 <= k < i ==> #[trigger] obv@[k] == obv_at(close_prices@, volumes@, k),
        decreases n - i,
    {
        proof {
            lemma_obv_bounds(close_prices@, volumes@, i as int);
            assert((i + 1) * 0x8000_0000_0000_0000int <= i128::MAX) by (nonlinear_arith)
                requires
                    i + 1 <= u64::MAX,
            ;
        }
        if close_prices[i] > close_prices[i - 1] {
            prev = prev + volumes[i] as i128;
        } else if close_prices[i] < close_prices[i - 1] {
            prev = prev - volumes[i] as i128;
        }
        obv.push(prev);
        i += 1;
    }
    Ok(obv)
}

// ---------------------------------------------------------------- Stochastic

/// The largest of `s[lo..hi]` (`hi > lo`).
pub open spec fn window_max(s: Seq<i64>, lo: int, hi: int) -> int
    decreases hi - lo,
{
    if hi - lo <= 1 {
        s[lo] as int
    } else {
        max_int(window_max(s, lo, hi - 1), s[hi - 1] as int)
    }
}

/// The smallest of `s[lo..hi]` (`hi > lo`).
pub open spec fn window_min(s: Seq<i64>, lo: int, hi: int) -> int
    decreases hi - lo,
{
    if hi - lo <= 1 {
        s[lo] as int
    } else {
        min_int(window_min(s, lo, hi - 1), s[hi - 1] as int)
    }
}

pub proof fn lemma_window_extremes(s: Seq<i64>, lo: int, hi: int, j: int)
    requires
        lo <= j < hi,
    ensures
        window_min(s, lo, hi) <= s[j] <= window_max(s, lo, hi),
    decreases hi - lo,
{
    if hi - lo > 1 && j < hi - 1 {
        lemma_window_extremes(s, lo, hi - 1, j);
    }
}

/// %K for the window of `kp` candles starting at `i`, in hundredths: where
/// the last close sits between the window's lowest low and highest high, and
/// 50 when the window has no range.
pub open spec fn stochastic_k_at(h: Seq<i64>, l: Seq<i64>, c: Seq<i64>, kp: int, i: int) -> int {
    let top = window_max(h, i, i + kp);
    let bottom = window_min(l, i, i + kp);
    if top - bottom > 0 {
        (RSI_SCALE * (c[i + kp - 1] - bottom)) / (top - bottom)
    } else {
        (RSI_SCALE / 2) as int
    }
}

/// Each candle's close lies within its low and high.
pub open spec fn candles_consistent(h: Seq<i64>, l: Seq<i64>, c: Seq<i64>) -> bool {
    forall|i: int| 0 <= i < c.len() && i < l.len() && i < h.len() ==> l[i] <= #[trigger] c[i] <= h[i]
}

/// Stochastic oscillator: %K over windows of `k_period` candles (one element
/// per full window) and %D, the `d_period` simple moving average of %K. The
/// three series must have one length.
pub fn calculate_stochastic(
    high_prices: &[i64],
    low_prices: &[i64],
    close_prices: &[i64],
    k_period: usize,
    d_period: usize,
) -> (r: Result<(Vec<i64>, Vec<i64>), AnalysisError>)
    requires
        candles_consistent(high_prices@, low_prices@, close_prices@),
    ensures
        ({
            let n = min_int(min_int(high_prices@.len() as int, low_prices@.len() as int), close_prices@.len() as int);
            let same = high_prices@.len() == low_prices@.len() == close_prices@.len();
            let enough = n >= k_period && !(k_period > 0 && n - k_period + 1 < d_period);
            &&& n < k_period ==> r == Err::<(Vec<i64>, Vec<i64>), AnalysisError>(
                AnalysisError::InsufficientData { needed: k_period, available: n as usize },
            )
            &&& k_period > 0 && n >= k_period && n - k_period + 1 < d_period
                ==> r == Err::<(Vec<i64>, Vec<i64>), AnalysisError>(
                AnalysisError::InsufficientData { needed: d_period, available: (n - k_period + 1) as usize },
            )
            &&& enough && (k_period == 0 || d_period == 0 || !same)
                ==> r == Err::<(Vec<i64>, Vec<i64>), AnalysisError>(AnalysisError::IndicatorCalculation)
            &&& k_period > 0 && d_period > 0 && n >= k_period && same && n - k_period + 1 >= d_period
                ==> (r matches Ok((k, d))
                && k@.len() == n - k_period + 1
                && (forall|i: int| 0 <= i < k@.len() ==> #[trigger] k@[i] == stochastic_k_at(high_prices@, low_prices@, close_prices@, k_period as int, i))
                && (forall|i: int| 0 <= i < k@.len() ==> 0 <= #[trigger] k@[i] <= RSI_SCALE)
                && d@.len() == k@.len() - d_period + 1
                && (forall|j: int| 0 <= j < d@.len() ==> #[trigger] d@[j] == window_mean(k@, j, d_period as int)))
        }),
{
    let mut n = high_prices.len();
    if low_prices.len() < n {
        n = low_prices.len();
    }
    if close_prices.len() < n {
        n = close_prices.len();
    }
    if n < k_period {
        return Err(AnalysisError::insufficient(k_period, n));
    }
    if k_period > 0 && n - k_period < d_period && n - k_period + 1 < d_period {
        return Err(AnalysisError::insufficient(d_period, n - k_period + 1));
    }
    if k_period == 0 || d_period == 0 {
        return Err(AnalysisError::IndicatorCalculation);
    }
    if high_prices.len() != low_prices.len() || high_prices.len() != close_prices.len() {
        return Err(AnalysisError::IndicatorCalculation);
    }
    let ghost h = high_prices@;
    let ghost l = low_prices@;
    let ghost c = close_prices@;
    let mut k_values: Vec<i64> = Vec::new();
    let mut i: usize = 0;
    while i <= n - k_period
        invariant
            0 < k_period <= n,
            n == h.len() == l.len() == c.len(),
            h == high_prices@,
            l == low_prices@,
            c == close_prices@,
            candles_consistent(h, l, c),
            0 <= i <= n - k_period + 1,
            k_values@.len() == i,
            forall|j: int| 0 <= j < i ==> #[trigger] k_values@[j] == stochastic_k_at(h, l, c, k_period as int, j),
            forall|j: int| 0 <= j < i ==> 0 <= #[trigger] k_values@[j] <= RSI_SCALE,
        decreases n - k_period + 1 - i,
    {
        let mut top: i64 = high_prices[i];
        let mut bottom: i64 = low_prices[i];
        let mut j: usize = i + 1;
        while j < i + k_period
            invariant
                0 < k_period <= n,
                n == h.len() == l.len() == c.len(),
                h == high_prices@,
                l == low_prices@,
                i + k_period <= n,
                i + 1 <= j <= i + k_period,
                top == window_max(h, i as int, j as int),
                bottom == window_min(l, i as int, j as int),
            decreases i + k_period - j,
        {
            if high_prices[j] > top {
                top = high_prices[j];
            }
            if low_prices[j] < bottom {
                bottom = low_prices[j];
            }
            j += 1;
        }
        let last = close_prices[i + k_period - 1];
        let range: i128 = top as i128 - bottom as i128;
        let k: i64 = if range > 0 {
            proof {
                let e = i + k_period - 1;
                lemma_window_extremes(h, i as int, (i + k_period) as int, e as int);
                lemma_window_extremes(l, i as int, (i + k_period) as int, e as int);
                assert(l[e as int] <= c[e as int] <= h[e as int]);
                let x = RSI_SCALE * (last - bottom);
                assert(range * 0 <= x <= range * RSI_SCALE) by (nonlinear_arith)
                    requires
                        x == RSI_SCALE * (last - bottom),
                        0 <= last - bottom <= range,
                ;
                lemma_div_between(x, 0, RSI_SCALE as int, range as int);
            }
            ((RSI_SCALE as i128 * (last as i128 - bottom as i128)) / range) as i64
        } else {
            (RSI_SCALE / 2) as i64
        };
        k_values.push(k);
        i += 1;
    }
    let d_values = match calculate_sma(&k_values, d_period) {
        Ok(v) => v,
        Err(e) => return Err(e),
    };
    Ok((k_values, d_values))
}

// ---------------------------------------------------------------- Bollinger Bands

pub open spec fn is_floor_sqrt(r: int, v: int) -> bool {
    0 <= r && r * r <= v < (r + 1) * (r + 1)
}

/// The integer square root, rounded down.
pub open spec fn floor_sqrt_spec(v: int) -> int {
    choose|r: int| is_floor_sqrt(r, v)
}

pub proof fn lemma_floor_sqrt_unique(a: int, b: int, v: int)
    requires
        is_floor_sqrt(a, v),
        is_floor_sqrt(b, v),
    ensures
        a == b,
{
    if a < b {
        assert((a + 1) * (a + 1) <= b * b) by (nonlinear_arith)
            requires
                0 <= a < b,
        ;
    } else if b < a {
        assert((b + 1) * (b + 1) <= a * a) by (nonlinear_arith)
            requires
                0 <= b < a,
        ;
    }
}

/// Integer square root by bisection.
fn floor_sqrt(v: u128) -> (r: u64)
    ensures
        r == floor_sqrt_spec(v as int),
{
    let mut lo: u128 = 0;
    let mut hi: u128 = 0x1_0000_0000_0000_0000;
    while hi - lo > 1
        invariant
            lo < hi <= 0x1_0000_0000_0000_0000,
            lo * lo <= v,
            v < hi * hi,
        decreases hi - lo,
    {
        let mid = lo + (hi - lo) / 2;
        assert(mid * mid <= u128::MAX) by (nonlinear_arith)
            requires
                mid < 0x1_0000_0000_0000_0000,
        ;
        if mid * mid <= v {
            lo = mid;
        } else {
            hi = mid;
        }
    }
    proof {
        assert(is_floor_sqrt(lo as int, v as int));
        lemma_floor_sqrt_unique(lo as int, floor_sqrt_spec(v as int), v as int);
    }
    lo as u64
}

/// Sum of the squared distances of `s[lo..hi]` from `m`.
pub open spec fn sq_dev_sum(s: Seq<i64>, lo: int, hi: int, m: int) -> int
    decreases hi - lo,
{
    if lo >= hi {
        0
    } else {
        sq_dev_sum(s, lo, hi - 1, m) + (s[hi - 1] - m) * (s[hi - 1] - m)
    }
}

pub proof fn lemma_sq_dev_sum_grows(s: Seq<i64>, lo: int, mid: int, hi: int, m: int)
    requires
        lo <= mid <= hi,
    ensures
        sq_dev_sum(s, lo, mid, m) <= sq_dev_sum(s, lo, hi, m),
    decreases hi - mid,
{
    if mid < hi {
        lemma_sq_dev_sum_grows(s, lo, mid, hi - 1, m);
        let d = s[hi - 1] - m;
        assert(d * d >= 0) by (nonlinear_arith);
    }
}

/// The population variance of window `i` (rounded down).
pub open spec fn window_variance(s: Seq<i64>, i: int, p: int) -> int {
    sq_dev_sum(s, i, i + p, window_mean(s, i, p)) / p
}

/// Half the band width of window `i`: `k` hundredths of its standard deviation.
pub open spec fn band_offset(s: Seq<i64>, i: int, p: int, k: int) -> int {
    (k * floor_sqrt_spec(window_variance(s, i, p))) / 100
}

/// Every window's sum of squared deviations fits in 128 bits.
pub open spec fn deviations_fit(s: Seq<i64>, p: int) -> bool {
    forall|i: int| 0 <= i <= s.len() - p ==> #[trigger] sq_dev_sum(s, i, i + p, window_mean(s, i, p)) <= u128::MAX
}

/// Bollinger Bands `(upper, middle, lower)`: the middle band is the SMA over
/// `period`; the others lie `std_dev_multiplier` hundredths of the window's
/// standard deviation above and below it. Fails with `IndicatorCalculation`
/// when a window's squared deviations overflow 128 bits.
pub fn calculate_bollinger_bands(prices: &[i64], period: usize, std_dev_multiplier: u32)
    -> (r: Result<(Vec<i128>, Vec<i64>, Vec<i128>), AnalysisError>)
    ensures
        period == 0 ==> r == Err::<(Vec<i128>, Vec<i64>, Vec<i128>), AnalysisError>(AnalysisError::IndicatorCalculation),
        period > 0 && prices@.len() < period ==> r == Err::<(Vec<i128>, Vec<i64>, Vec<i128>), AnalysisError>(
            AnalysisError::InsufficientData { needed: period, available: prices@.len() as usize },
        ),
        period > 0 && prices@.len() >= period && !deviations_fit(prices@, period as int)
            ==> r == Err::<(Vec<i128>, Vec<i64>, Vec<i128>), AnalysisError>(AnalysisError::IndicatorCalculation),
        period > 0 && prices@.len() >= period && deviations_fit(prices@, period as int) ==> (r matches Ok((u, m, l))
            && m@.len() == prices@.len() - period + 1
            && u@.len() == m@.len()
            && l@.len() == m@.len()
            && forall|i: int| 0 <= i < m@.len() ==> {
                &&& #[trigger] m@[i] == window_mean(prices@, i, period as int)
                &&& u@[i] == m@[i] + band_offset(prices@, i, period as int, std_dev_multiplier as int)
                &&& l@[i] == m@[i] - band_offset(prices@, i, period as int, std_dev_multiplier as int)
            }),
{
    let middle = match calculate_sma(prices, period) {
        Ok(v) => v,
        Err(e) => return Err(e),
    };
    let ghost s = prices@;
    let p = period;
    let n = prices.len();
    let mut upper: Vec<i128> = Vec::new();
    let mut lower: Vec<i128> = Vec::new();
    let mut i: usize = 0;
    while i < middle.len()
        invariant
            0 < p <= s.len(),
            s == prices@,
            p == period,
            n == s.len(),
            middle@.len() == s.len() - p + 1,
            forall|j: int| 0 <= j < middle@.len() ==> #[trigger] middle@[j] == window_mean(s, j, p as int),
            0 <= i <= middle@.len(),
            upper@.len() == i,
            lower@.len() == i,
            forall|j: int| 0 <= j < i ==> #[trigger] sq_dev_sum(s, j, j + p, window_mean(s, j, p as int)) <= u128::MAX,
            forall|j: int| 0 <= j < i ==> #[trigger] upper@[j] == middle@[j] + band_offset(s, j, p as int, std_dev_multiplier as int),
            forall|j: int| 0 <= j < i ==> #[trigger] lower@[j] == middle@[j] - band_offset(s, j, p as int, std_dev_multiplier as int),
        decreases middle@.len() - i,
    {
        let m = middle[i];
        let mut acc: u128 = 0;
        let mut j: usize = i;
        while j < i + p
            invariant
                0 < p <= s.len(),
                s == prices@,
                p == period,
                n == s.len(),
                i + p <= s.len(),
                i <= j <= i + p,
                m == window_mean(s, i as int, p as int),
                acc == sq_dev_sum(s, i as int, j as int, m as int),
            decreases i + p - j,
        {
            let dev: i128 = prices[j] as i128 - m as i128;
            let a: u128 = if dev < 0 { (0 - dev) as u128 } else { dev as u128 };
            proof {
                assert(a * a == dev * dev) by (nonlinear_arith)
                    requires
                        a == dev || a == -dev,
                ;
                assert(a * a <= u128::MAX) by (nonlinear_arith)
                    requires
                        a <= u64::MAX,
                ;
            }
            let sq: u128 = a * a;
            match acc.checked_add(sq) {
                Some(t) => {
                    acc = t;
                },
                None => {
                    proof {
                        lemma_sq_dev_sum_grows(s, i as int, j + 1, i + p, m as int);
                        assert(sq_dev_sum(s, i as int, i + p, window_mean(s, i as int, p as int)) > u128::MAX);
                    }
                    return Err(AnalysisError::IndicatorCalculation);
                },
            }
            j += 1;
        }
        let variance: u128 = acc / (p as u128);
        let sd = floor_sqrt(variance);
        proof {
            assert(std_dev_multiplier * sd <= u128::MAX) by (nonlinear_arith)
                requires
                    std_dev_multiplier <= u32::MAX,
                    sd <= u64::MAX,
            ;
            assert(0 <= std_dev_multiplier * sd) by (nonlinear_arith)
                requires
                    std_dev_multiplier >= 0,
                    sd >= 0,
            ;
        }
        let offset: u128 = (std_dev_multiplier as u128 * sd as u128) / 100;
        upper.push(m as i128 + offset as i128);
        lower.push(m as i128 - offset as i128);
        i += 1;
    }
    proof {
        assert forall|j: int| 0 <= j <= s.len() - p implies #[trigger] sq_dev_sum(s, j, j + p, window_mean(s, j, p as int)) <= u128::MAX by {
            assert(0 <= j < i);
        }
    }
    Ok((upper, middle, lower))
}

} // verus!

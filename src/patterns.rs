//! Chart-pattern detection over a window of candles: head and shoulders,
//! double top and double bottom. Tolerances are in basis points.
use vstd::prelude::*;
use crate::errors::AnalysisError;
use crate::models::{Candlestick, highs_of, lows_of};

verus! {

/// Basis points per unit ratio.
pub const BASIS_POINTS: i128 = 10_000;

/// How far (in basis points) the middle extremum of a double top or bottom
/// must lie from both outer ones.
pub const CONFIRMATION_BP: i128 = 300;

/// Whether `s[i]` is a local peak (`up`) or trough (`!up`): strictly above
/// (below) both neighbours.
pub open spec fn is_extremum(s: Seq<i64>, i: int, up: bool) -> bool {
    &&& 1 <= i < s.len() - 1
    &&& if up {
        s[i] > s[i - 1] && s[i] > s[i + 1]
    } else {
        s[i] < s[i - 1] && s[i] < s[i + 1]
    }
}

/// The indices below `hi` of local peaks (troughs), in order.
pub open spec fn extrema_below(s: Seq<i64>, hi: int, up: bool) -> Seq<int>
    decreases hi,
{
    if hi <= 0 {
        Seq::empty()
    } else if is_extremum(s, hi - 1, up) {
        extrema_below(s, hi - 1, up).push(hi - 1)
    } else {
        extrema_below(s, hi - 1, up)
    }
}

/// All local peaks (troughs) of the series, in order.
pub open spec fn all_extrema(s: Seq<i64>, up: bool) -> Seq<int> {
    extrema_below(s, s.len() as int, up)
}

/// The first `count` local peaks (troughs) of the series, in order: what the
/// scan returns when it stops after `count` of them.
pub open spec fn first_extrema(s: Seq<i64>, count: int, up: bool) -> Seq<int> {
    let all = all_extrema(s, up);
    if all.len() <= count {
        all
    } else {
        all.take(count)
    }
}

pub open spec fn index_view(v: Seq<usize>) -> Seq<int> {
    v.map_values(|x: usize| x as int)
}

/// Linear scan for the local peaks (`up`) or troughs of the series.
fn find_extrema(prices: &[i64], up: bool) -> (r: Vec<usize>)
    ensures
        index_view(r@) == all_extrema(prices@, up),
{
    let ghost s = prices@;
    let n = prices.len();
    let mut r: Vec<usize> = Vec::new();
    if n < 3 {
        proof {
            lemma_no_extrema_short(s, n as int, up);
            assert(index_view(r@) =~= Seq::<int>::empty());
        }
        return r;
    }
    let mut i: usize = 1;
    proof {
        assert(extrema_below(s, 0, up) == Seq::<int>::empty());
        assert(index_view(r@) =~= extrema_below(s, 1, up));
    }
    while i < n - 1
        invariant
            3 <= n == s.len(),
            s == prices@,
            1 <= i <= n - 1,
            index_view(r@) == extrema_below(s, i as int, up),
        decreases n - 1 - i,
    {
        let hit = if up {
            prices[i] > prices[i - 1] && prices[i] > prices[i + 1]
        } else {
            prices[i] < prices[i - 1] && prices[i] < prices[i + 1]
        };
        if hit {
            r.push(i);
        }
        proof {
            assert(index_view(r@) =~= extrema_below(s, i + 1, up));
        }
        i += 1;
    }
    proof {
        assert(!is_extremum(s, n - 1, up));
        assert(extrema_below(s, n as int, up) == extrema_below(s, n - 1, up));
    }
    r
}

pub proof fn lemma_no_extrema_short(s: Seq<i64>, hi: int, up: bool)
    requires
        0 <= hi <= s.len(),
        s.len() < 3,
    ensures
        extrema_below(s, hi, up) == Seq::<int>::empty(),
    decreases hi,
{
    if hi > 0 {
        lemma_no_extrema_short(s, hi - 1, up);
    }
}

/// The first index of the smallest (`!up`) or largest (`up`) of `s[lo..hi]`.
pub open spec fn extreme_between(s: Seq<i64>, lo: int, hi: int, up: bool) -> int
    decreases hi - lo,
{
    if hi - lo <= 1 {
        lo
    } else {
        let b = extreme_between(s, lo, hi - 1, up);
        if (up && s[hi - 1] > s[b]) || (!up && s[hi - 1] < s[b]) {
            hi - 1
        } else {
            b
        }
    }
}

pub proof fn lemma_extreme_between_range(s: Seq<i64>, lo: int, hi: int, up: bool)
    requires
        lo < hi,
    ensures
        lo <= extreme_between(s, lo, hi, up) < hi,
    decreases hi - lo,
{
    if hi - lo > 1 {
        lemma_extreme_between_range(s, lo, hi - 1, up);
    }
}

/// Where the scan between two extrema at `start` and `end` lands: the first
/// extreme of `s[start + 1..end]`, or `start + 1` when that range is empty.
pub open spec fn extreme_after(s: Seq<i64>, start: int, end: int, up: bool) -> int {
    extreme_between(s, start + 1, if end > start + 2 { end } else { start + 2 }, up)
}

/// The lowest (`!up`) or highest point strictly between `start` and `end`.
fn find_between(prices: &[i64], start: usize, end: usize, up: bool) -> (r: Option<usize>)
    ensures
        start >= end || end >= prices@.len() ==> r.is_none(),
        start < end < prices@.len() ==> r == Some(extreme_after(prices@, start as int, end as int, up) as usize),
        r matches Some(j) ==> start < j <= end,
{
    let n = prices.len();
    if start >= end || end >= n {
        return None;
    }
    let mut best: usize = start + 1;
    let mut i: usize = start + 2;
    while i < end
        invariant
            start < end < n == prices@.len(),
            start + 2 <= i,
            i <= end || i == start + 2,
            best == extreme_between(prices@, start + 1, i as int, up),
        decreases end - i,
    {
        proof {
            lemma_extreme_between_range(prices@, start + 1, i as int, up);
        }
        if (up && prices[i] > prices[best]) || (!up && prices[i] < prices[best]) {
            best = i;
        }
        i += 1;
    }
    proof {
        lemma_extreme_between_range(prices@, start + 1, i as int, up);
    }
    Some(best)
}

/// `|a - b| / a <= tolerance`, in basis points.
pub open spec fn similar_heights(a: int, b: int, tolerance: int) -> bool {
    if a >= b {
        (a - b) * BASIS_POINTS <= tolerance * a
    } else {
        (b - a) * BASIS_POINTS <= tolerance * a
    }
}

fn similar_heights_exec(a: i64, b: i64, tolerance: u32) -> (r: bool)
    ensures
        r == similar_heights(a as int, b as int, tolerance as int),
{
    let d: i128 = if a >= b { a as i128 - b as i128 } else { b as i128 - a as i128 };
    proof {
        assert(-0x8000_0000_0000_0000_0000_0000 <= tolerance * a <= 0x8000_0000_0000_0000_0000_0000) by (nonlinear_arith)
            requires
                0 <= tolerance <= u32::MAX,
                i64::MIN <= a <= i64::MAX,
        ;
    }
    d * BASIS_POINTS <= tolerance as i128 * a as i128
}

/// `(far - near) / base > CONFIRMATION_BP`, in basis points.
pub open spec fn confirms(far: int, near: int, base: int) -> bool {
    (far - near) * BASIS_POINTS > CONFIRMATION_BP * base
}

fn confirms_exec(far: i64, near: i64, base: i64) -> (r: bool)
    ensures
        r == confirms(far as int, near as int, base as int),
{
    (far as i128 - near as i128) * BASIS_POINTS > CONFIRMATION_BP * base as i128
}

/// The candles' highs, or lows (`!up`).
fn extract(candles: &[Candlestick], up: bool) -> (r: Vec<i64>)
    ensures
        up ==> r@ == highs_of(candles@),
        !up ==> r@ == lows_of(candles@),
{
    let mut r: Vec<i64> = Vec::new();
    let mut i: usize = 0;
    while i < candles.len()
        invariant
            i <= candles@.len(),
            r@.len() == i,
            forall|j: int| 0 <= j < i ==> #[trigger] r@[j] == if up { candles@[j].high } else { candles@[j].low },
        decreases candles@.len() - i,
    {
        r.push(if up { candles[i].high } else { candles[i].low });
        i += 1;
    }
    proof {
        if up {
            assert(r@ =~= highs_of(candles@));
        } else {
            assert(r@ =~= lows_of(candles@));
        }
    }
    r
}

/// The candle indices `(left, head, right, left trough, right trough)` of the
/// head-and-shoulders formation that the detector reports, if any: among the
/// first `count` peaks of the highs, the first triple of consecutive peaks
/// whose middle one is above both
/// others, whose outer two are within `tolerance` of each other, each at
/// least three candles apart, with the lowest highs between them as troughs.
pub open spec fn head_and_shoulders_at(h: Seq<i64>, tolerance: int, count: int) -> Option<(int, int, int, int, int)> {
    hs_from(h, first_extrema(h, count, true), 0, tolerance)
}

/// The formation on the peaks `ps[i]`, `ps[i + 1]`, `ps[i + 2]`, if they make one.
pub open spec fn hs_triple(h: Seq<i64>, ps: Seq<int>, i: int, tolerance: int) -> Option<(int, int, int, int, int)> {
    let (l, m, r) = (ps[i], ps[i + 1], ps[i + 2]);
    if m - l < 3 || r - m < 3 {
        None
    } else if !(h[m] > h[l] && h[m] > h[r]) || !similar_heights(h[l] as int, h[r] as int, tolerance) {
        None
    } else {
        Some((l, m, r, extreme_after(h, l, m, false), extreme_after(h, m, r, false)))
    }
}

/// The first formation among the consecutive peak triples from the `i`-th on.
pub open spec fn hs_from(h: Seq<i64>, ps: Seq<int>, i: int, tolerance: int) -> Option<(int, int, int, int, int)>
    decreases ps.len() - i,
{
    if i < 0 || i + 2 >= ps.len() {
        None
    } else if hs_triple(h, ps, i, tolerance) is Some {
        hs_triple(h, ps, i, tolerance)
    } else {
        hs_from(h, ps, i + 1, tolerance)
    }
}

/// The candle indices `(first, second, middle)` of the double top (`up`) or
/// double bottom that the detector reports, if any: among the first `count`
/// peaks of the highs (troughs of the lows), the first pair of consecutive
/// ones at least five candles
/// apart, within `tolerance` of each other, with the extreme between them
/// more than 3% away from both.
pub open spec fn double_at(s: Seq<i64>, tolerance: int, count: int, up: bool) -> Option<(int, int, int)> {
    double_from(s, first_extrema(s, count, up), 0, tolerance, up)
}

/// The formation on the extrema `ex[i]` and `ex[i + 1]`, if they make one.
pub open spec fn double_pair(s: Seq<i64>, ex: Seq<int>, i: int, tolerance: int, up: bool) -> Option<(int, int, int)> {
    let (a, b) = (ex[i], ex[i + 1]);
    let t = extreme_after(s, a, b, !up);
    if b - a < 5 || !similar_heights(s[a] as int, s[b] as int, tolerance) {
        None
    } else if up && confirms(s[a] as int, s[t] as int, s[a] as int) && confirms(s[b] as int, s[t] as int, s[b] as int) {
        Some((a, b, t))
    } else if !up && confirms(s[t] as int, s[a] as int, s[a] as int) && confirms(s[t] as int, s[b] as int, s[b] as int) {
        Some((a, b, t))
    } else {
        None
    }
}

/// The first formation among the consecutive pairs of extrema from the `i`-th on.
pub open spec fn double_from(s: Seq<i64>, ex: Seq<int>, i: int, tolerance: int, up: bool) -> Option<(int, int, int)>
    decreases ex.len() - i,
{
    if i < 0 || i + 1 >= ex.len() {
        None
    } else if double_pair(s, ex, i, tolerance, up) is Some {
        double_pair(s, ex, i, tolerance, up)
    } else {
        double_from(s, ex, i + 1, tolerance, up)
    }
}

/// Head and shoulders: three peaks, the middle (head) highest. The neckline
/// runs through the two troughs; its rise over its run is kept as integers.
#[derive(Debug, Clone)]
pub struct HeadAndShoulders {
    pub left_shoulder: Candlestick,
    pub head: Candlestick,
    pub right_shoulder: Candlestick,
    pub left_trough: Candlestick,
    pub right_trough: Candlestick,
    /// Rise of the neckline from the left to the right trough, in ticks.
    pub neckline_rise: i128,
    /// Candles from the left to the right trough.
    pub neckline_run: usize,
    /// Candles from the left trough to the right shoulder.
    pub breakout_distance: usize,
}

impl HeadAndShoulders {
    pub open spec fn target_spec(&self) -> int {
        let head_height = self.head.high - self.left_trough.low;
        let neckline = self.left_trough.low + (self.neckline_rise * self.breakout_distance) / (self.neckline_run as int);
        neckline - head_height
    }

    /// The breakout target: the neckline at the right shoulder, less the head's
    /// height above the left trough.
    pub fn target_price(&self) -> (r: i128)
        requires
            self.neckline_run > 0,
            0 <= self.breakout_distance <= u32::MAX,
            -0x1_0000_0000_0000_0000 <= self.neckline_rise <= 0x1_0000_0000_0000_0000,
        ensures
            r == self.target_spec(),
    {
        let head_height = self.head.high as i128 - self.left_trough.low as i128;
        proof {
            let x = self.neckline_rise * self.breakout_distance;
            let (a, b) = (self.neckline_rise as int, self.breakout_distance as int);
            assert(-0x1_0000_0000_0000_0000_0000_0000 <= a * b <= 0x1_0000_0000_0000_0000_0000_0000) by (nonlinear_arith)
                requires
                    -0x1_0000_0000_0000_0000 <= a <= 0x1_0000_0000_0000_0000,
                    0 <= b <= u32::MAX,
            ;
            assert(self.neckline_run * -0x1_0000_0000_0000_0000_0000_0000int <= x <= self.neckline_run * 0x1_0000_0000_0000_0000_0000_0000int) by (nonlinear_arith)
                requires
                    self.neckline_run >= 1,
                    -0x1_0000_0000_0000_0000_0000_0000 <= x <= 0x1_0000_0000_0000_0000_0000_0000,
            ;
            crate::indicators::lemma_div_between(
                x,
                -0x1_0000_0000_0000_0000_0000_0000,
                0x1_0000_0000_0000_0000_0000_0000,
                self.neckline_run as int,
            );
        }
        let step = match (self.neckline_rise * self.breakout_distance as i128).checked_div_euclid(self.neckline_run as i128) {
            Some(q) => q,
            None => 0,
        };
        self.left_trough.low as i128 + step - head_height
    }
}

/// Double top: two peaks of similar height with a trough between them.
#[derive(Debug, Clone)]
pub struct DoubleTop {
    pub first_peak: Candlestick,
    pub second_peak: Candlestick,
    pub trough: Candlestick,
    /// Mean height of the two peaks, rounded down.
    pub height: i64,
}

impl DoubleTop {
    pub open spec fn target_spec(&self) -> int {
        self.trough.low - (self.height - self.trough.low)
    }

    /// The breakout target: the pattern's height projected below the trough.
    pub fn target_price(&self) -> (r: i128)
        ensures
            r == self.target_spec(),
    {
        let low = self.trough.low as i128;
        low - (self.height as i128 - low)
    }
}

/// Double bottom: two troughs of similar depth with a peak between them.
#[derive(Debug, Clone)]
pub struct DoubleBottom {
    pub first_trough: Candlestick,
    pub second_trough: Candlestick,
    pub peak: Candlestick,
    /// Mean depth of the two troughs, rounded down.
    pub depth: i64,
}

impl DoubleBottom {
    pub open spec fn target_spec(&self) -> int {
        self.peak.high + (self.peak.high - self.depth)
    }

    /// The breakout target: the pattern's depth projected above the peak.
    pub fn target_price(&self) -> (r: i128)
        ensures
            r == self.target_spec(),
    {
        let high = self.peak.high as i128;
        high + (high - self.depth as i128)
    }
}

/// Detects chart patterns in windows of at least `min_candles` candles.
/// `tolerance` is the largest relative height difference, in basis points,
/// of two extrema that count as level. The peak scan stops after
/// `head_and_shoulders_peaks` peaks for head and shoulders, and after
/// `double_extrema` extrema for double tops and bottoms.
#[derive(Debug, Clone, Copy)]
pub struct PatternDetector {
    pub min_candles: usize,
    pub tolerance: u32,
    pub head_and_shoulders_peaks: usize,
    pub double_extrema: usize,
}

impl PatternDetector {
    /// A detector for windows of 20 candles and more, with a 3% tolerance,
    /// scanning three peaks for head and shoulders and two extrema for
    /// double tops and bottoms.
    pub fn new() -> (r: PatternDetector)
        ensures
            r.min_candles == 20,
            r.tolerance == 300,
            r.head_and_shoulders_peaks == 3,
            r.double_extrema == 2,
    {
        PatternDetector { min_candles: 20, tolerance: 300, head_and_shoulders_peaks: 3, double_extrema: 2 }
    }

    pub fn with_settings(min_candles: usize, tolerance: u32) -> (r: PatternDetector)
        ensures
            r.min_candles == min_candles,
            r.tolerance == tolerance,
            r.head_and_shoulders_peaks == 3,
            r.double_extrema == 2,
    {
        PatternDetector { min_candles, tolerance, head_and_shoulders_peaks: 3, double_extrema: 2 }
    }

    /// The same detector with other limits on the extrema scanned.
    pub fn with_extrema_limits(self, head_and_shoulders_peaks: usize, double_extrema: usize) -> (r: PatternDetector)
        ensures
            r.min_candles == self.min_candles,
            r.tolerance == self.tolerance,
            r.head_and_shoulders_peaks == head_and_shoulders_peaks,
            r.double_extrema == double_extrema,
    {
        PatternDetector { head_and_shoulders_peaks, double_extrema, ..self }
    }

    /// Head and shoulders over the candles' highs; `Ok(None)` when the window
    /// holds none.
    pub fn detect_head_and_shoulders(&self, candles: &[Candlestick]) -> (r: Result<Option<HeadAndShoulders>, AnalysisError>)
        ensures
            candles@.len() < self.min_candles ==> r == Err::<Option<HeadAndShoulders>, AnalysisError>(
                AnalysisError::InsufficientData { needed: self.min_candles, available: candles@.len() as usize },
            ),
            candles@.len() >= self.min_candles ==> match head_and_shoulders_at(highs_of(candles@), self.tolerance as int, self.head_and_shoulders_peaks as int) {
                None => r matches Ok(None),
                Some((l, m, rt, lt, rtr)) => r matches Ok(Some(p)) && p.left_shoulder == candles@[l]
                    && p.head == candles@[m] && p.right_shoulder == candles@[rt]
                    && p.left_trough == candles@[lt] && p.right_trough == candles@[rtr]
                    && p.neckline_rise == candles@[rtr].high - candles@[lt].high
                    && p.neckline_run == rtr - lt
                    && p.breakout_distance == rt - lt,
            },
    {
        if candles.len() < self.min_candles {
            return Err(AnalysisError::insufficient(self.min_candles, candles.len()));
        }
        let highs = extract(candles, true);
        let peaks = find_extrema(&highs, true);
        let ghost h = highs@;
        let ghost all = all_extrema(h, true);
        let ghost ps = first_extrema(h, self.head_and_shoulders_peaks as int, true);
        let tol = self.tolerance;
        let count = self.head_and_shoulders_peaks;
        let lim = if peaks.len() <= count { peaks.len() } else { count };
        proof {
            assert(highs@ == highs_of(candles@));
            assert(all.len() == peaks@.len());
            assert(highs@.len() == candles@.len());
            assert(ps.len() == lim);
        }
        let mut i: usize = 0;
        while lim >= 3 && i < lim - 2
            invariant
                lim <= peaks@.len(),
                ps.len() == lim,
                ps == first_extrema(h, count as int, true),
                count == self.head_and_shoulders_peaks,
                forall|j: int| 0 <= j < lim ==> #[trigger] ps[j] == all[j],
                candles@.len() >= self.min_candles,
                h == highs@,
                h == highs_of(candles@),
                highs@.len() == h.len(),
                highs@.len() == candles@.len(),
                all == all_extrema(h, true),
                index_view(peaks@) == all,
                all.len() == peaks@.len(),
                tol == self.tolerance,
                head_and_shoulders_at(h, tol as int, count as int) == hs_from(h, ps, i as int, tol as int),
            decreases lim - i,
        {
            let l = peaks[i];
            let m = peaks[i + 1];
            let rt = peaks[i + 2];
            proof {
                lemma_extrema_sorted(h, h.len() as int, true);
                assert(all[i as int] == l as int && all[i + 1] == m as int && all[i + 2] == rt as int);
                assert(ps[i as int] == l as int && ps[i + 1] == m as int && ps[i + 2] == rt as int);
                assert(all[i as int] < all[i + 1] < all[i + 2]);
                assert(is_extremum(h, all[i + 2], true));
            }
            if m - l >= 3 && rt - m >= 3 && highs[m] > highs[l] && highs[m] > highs[rt] && similar_heights_exec(highs[l], highs[rt], tol) {
                let lt = match find_between(&highs, l, m, false) {
                    Some(j) => j,
                    None => return Ok(None),
                };
                let rtr = match find_between(&highs, m, rt, false) {
                    Some(j) => j,
                    None => return Ok(None),
                };
                proof {
                    lemma_extreme_between_range(h, l + 1, if m > l + 2 { m as int } else { l + 2 }, false);
                    lemma_extreme_between_range(h, m + 1, if rt > m + 2 { rt as int } else { m + 2 }, false);
                    assert(lt == extreme_after(h, l as int, m as int, false));
                    assert(rtr == extreme_after(h, m as int, rt as int, false));
                    assert(hs_triple(h, ps, i as int, tol as int) == Some((l as int, m as int, rt as int, lt as int, rtr as int)));
                    assert(hs_from(h, ps, i as int, tol as int) == hs_triple(h, ps, i as int, tol as int));
                }
                return Ok(Some(HeadAndShoulders {
                    left_shoulder: candles[l].clone(),
                    head: candles[m].clone(),
                    right_shoulder: candles[rt].clone(),
                    left_trough: candles[lt].clone(),
                    right_trough: candles[rtr].clone(),
                    neckline_rise: highs[rtr] as i128 - highs[lt] as i128,
                    neckline_run: rtr - lt,
                    breakout_distance: rt - lt,
                }));
            }
            proof {
                assert(hs_triple(h, ps, i as int, tol as int) is None);
            }
            i += 1;
        }
        Ok(None)
    }
}

/// The indices `(first, second, middle)` of a double top (`up`) or double
/// bottom in `s`, as `double_at` describes them.
fn find_double(s: &Vec<i64>, tolerance: u32, count: usize, up: bool) -> (r: Option<(usize, usize, usize)>)
    ensures
        match double_at(s@, tolerance as int, count as int, up) {
            None => r.is_none(),
            Some((a, b, t)) => r == Some((a as usize, b as usize, t as usize)) && 0 <= a < b < s@.len() && 0 <= t < s@.len(),
        },
{
    let ex = find_extrema(s.as_slice(), up);
    let ghost h = s@;
    let ghost all = all_extrema(h, up);
    let ghost es = first_extrema(h, count as int, up);
    let lim = if ex.len() <= count { ex.len() } else { count };
    proof {
        assert(all.len() == ex@.len());
        assert(es.len() == lim);
    }
    let mut i: usize = 0;
    while lim >= 2 && i < lim - 1
        invariant
            h == s@,
            all == all_extrema(h, up),
            index_view(ex@) == all,
            all.len() == ex@.len(),
            lim <= ex@.len(),
            es.len() == lim,
            es == first_extrema(h, count as int, up),
            forall|j: int| 0 <= j < lim ==> #[trigger] es[j] == all[j],
            double_at(h, tolerance as int, count as int, up) == double_from(h, es, i as int, tolerance as int, up),
        decreases lim - i,
    {
        let a = ex[i];
        let b = ex[i + 1];
        proof {
            lemma_extrema_sorted(h, h.len() as int, up);
            assert(all[i as int] == a as int && all[i + 1] == b as int);
            assert(es[i as int] == a as int && es[i + 1] == b as int);
            assert(all[i as int] < all[i + 1]);
            assert(is_extremum(h, all[i + 1], up));
        }
        if b - a >= 5 && similar_heights_exec(s[a], s[b], tolerance) {
            let t = match find_between(s.as_slice(), a, b, !up) {
                Some(j) => j,
                None => return None,
            };
            proof {
                lemma_extreme_between_range(h, a + 1, if b > a + 2 { b as int } else { a + 2 }, !up);
                assert(t == extreme_after(h, a as int, b as int, !up));
            }
            let confirmed = if up {
                confirms_exec(s[a], s[t], s[a]) && confirms_exec(s[b], s[t], s[b])
            } else {
                confirms_exec(s[t], s[a], s[a]) && confirms_exec(s[t], s[b], s[b])
            };
            if confirmed {
                proof {
                    assert(double_pair(h, es, i as int, tolerance as int, up) == Some((a as int, b as int, t as int)));
                    assert(double_from(h, es, i as int, tolerance as int, up) == double_pair(h, es, i as int, tolerance as int, up));
                }
                return Some((a, b, t));
            }
        }
        proof {
            assert(double_pair(h, es, i as int, tolerance as int, up) is None);
        }
        i += 1;
    }
    None
}

fn mean_of_two(a: i64, b: i64) -> (r: i64)
    ensures
        r == (a + b) / 2,
{
    proof {
        crate::indicators::lemma_div_between(a + b, i64::MIN as int, i64::MAX as int, 2);
    }
    let sum: i128 = a as i128 + b as i128;
    match sum.checked_div_euclid(2) {
        Some(q) => q as i64,
        None => 0,
    }
}

impl PatternDetector {
    /// Double top over the candles' highs; `Ok(None)` when the window holds none.
    pub fn detect_double_top(&self, candles: &[Candlestick]) -> (r: Result<Option<DoubleTop>, AnalysisError>)
        ensures
            candles@.len() < self.min_candles ==> r == Err::<Option<DoubleTop>, AnalysisError>(
                AnalysisError::InsufficientData { needed: self.min_candles, available: candles@.len() as usize },
            ),
            candles@.len() >= self.min_candles ==> match double_at(highs_of(candles@), self.tolerance as int, self.double_extrema as int, true) {
                None => r matches Ok(None),
                Some((a, b, t)) => r matches Ok(Some(p)) && p.first_peak == candles@[a]
                    && p.second_peak == candles@[b] && p.trough == candles@[t]
                    && p.height == (candles@[a].high + candles@[b].high) / 2,
            },
    {
        if candles.len() < self.min_candles {
            return Err(AnalysisError::insufficient(self.min_candles, candles.len()));
        }
        let highs = extract(candles, true);
        assert(highs@.len() == candles@.len());
        match find_double(&highs, self.tolerance, self.double_extrema, true) {
            None => Ok(None),
            Some((a, b, t)) => Ok(Some(DoubleTop {
                first_peak: candles[a].clone(),
                second_peak: candles[b].clone(),
                trough: candles[t].clone(),
                height: mean_of_two(highs[a], highs[b]),
            })),
        }
    }

    /// Double bottom over the candles' lows; `Ok(None)` when the window holds none.
    pub fn detect_double_bottom(&self, candles: &[Candlestick]) -> (r: Result<Option<DoubleBottom>, AnalysisError>)
        ensures
            candles@.len() < self.min_candles ==> r == Err::<Option<DoubleBottom>, AnalysisError>(
                AnalysisError::InsufficientData { needed: self.min_candles, available: candles@.len() as usize },
            ),
            candles@.len() >= self.min_candles ==> match double_at(lows_of(candles@), self.tolerance as int, self.double_extrema as int, false) {
                None => r matches Ok(None),
                Some((a, b, t)) => r matches Ok(Some(p)) && p.first_trough == candles@[a]
                    && p.second_trough == candles@[b] && p.peak == candles@[t]
                    && p.depth == (candles@[a].low + candles@[b].low) / 2,
            },
    {
        if candles.len() < self.min_candles {
            return Err(AnalysisError::insufficient(self.min_candles, candles.len()));
        }
        let lows = extract(candles, false);
        assert(lows@.len() == candles@.len());
        match find_double(&lows, self.tolerance, self.double_extrema, false) {
            None => Ok(None),
            Some((a, b, t)) => Ok(Some(DoubleBottom {
                first_trough: candles[a].clone(),
                second_trough: candles[b].clone(),
                peak: candles[t].clone(),
                depth: mean_of_two(lows[a], lows[b]),
            })),
        }
    }
}

/// Extremum indices are increasing, each a genuine extremum.
pub proof fn lemma_extrema_sorted(s: Seq<i64>, hi: int, up: bool)
    requires
        0 <= hi,
    ensures
        forall|a: int, b: int| 0 <= a < b < extrema_below(s, hi, up).len() ==> extrema_below(s, hi, up)[a] < extrema_below(s, hi, up)[b],
        forall|a: int| 0 <= a < extrema_below(s, hi, up).len() ==> 0 <= #[trigger] extrema_below(s, hi, up)[a] < hi,
        forall|a: int| 0 <= a < extrema_below(s, hi, up).len() ==> is_extremum(s, #[trigger] extrema_below(s, hi, up)[a], up),
    decreases hi,
{
    if hi > 0 {
        lemma_extrema_sorted(s, hi - 1, up);
        let prev = extrema_below(s, hi - 1, up);
        if is_extremum(s, hi - 1, up) {
            let cur = prev.push(hi - 1);
            assert(extrema_below(s, hi, up) == cur);
            assert forall|a: int| 0 <= a < cur.len() implies 0 <= #[trigger] cur[a] < hi && is_extremum(s, cur[a], up) by {
                if a < prev.len() {
                    assert(cur[a] == prev[a]);
                }
            }
            assert forall|a: int, b: int| 0 <= a < b < cur.len() implies cur[a] < cur[b] by {
                assert(cur[a] == prev[a]);
                if b < prev.len() {
                    assert(cur[b] == prev[b]);
                }
            }
        }
    }
}

} // verus!

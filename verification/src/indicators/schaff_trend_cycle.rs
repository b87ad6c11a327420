//! Schaff Trend Cycle: a double stochastic of the MACD value.
//!
//! Stage one takes the stochastic of the MACD over the trailing cycle
//! window and smooths it by half steps; stage two repeats the same on
//! the smoothed series, giving the final STC value, which stays inside
//! 0..=100 by construction.  A local peak above 75 fires the red
//! (sell) signal; a local trough below 25 fires the green (buy) one.

use vstd::prelude::*;
use crate::candle::{Candle, candles_ok};
use crate::fixed::{
    div_trunc, div_i64, iabs, lemma_abs_mul, lemma_div_trunc_abs_le, lemma_div_trunc_sign,
    PERIOD_MAX, PRICE_MAX, SCALE, VAL_FIFTY, VAL_HUNDRED,
};
use crate::indicators::macd::{closes, imin, lemma_psum_bound, prices_ok, psum};

verus! {

/// The smoothing factor 0.5 in fixed point.
pub const STC_FACTOR: i64 = 5_000;

/// The red (sell) threshold 75.0 in fixed point.
pub const STC_RED: i64 = 750_000;

/// The green (buy) threshold 25.0 in fixed point.
pub const STC_GREEN: i64 = 250_000;

/// EMA whose seed divides by the number of prices actually summed.
pub open spec fn sema_at(ps: Seq<i64>, p: int, i: int) -> int
    decreases i,
{
    if i <= 0 {
        div_trunc(psum(ps, imin(p, ps.len() as int)), imin(p, ps.len() as int))
    } else {
        let prev = sema_at(ps, p, i - 1);
        prev + div_trunc((ps[i] - prev) * 2, p + 1)
    }
}

pub proof fn lemma_sema_bound(ps: Seq<i64>, p: int, i: int)
    requires
        prices_ok(ps),
        1 <= p <= PERIOD_MAX,
        0 <= i < ps.len(),
    ensures
        0 <= sema_at(ps, p, i) <= PRICE_MAX,
    decreases i,
{
    if i == 0 {
        let m = imin(p, ps.len() as int);
        lemma_psum_bound(ps, m);
        lemma_div_trunc_abs_le(psum(ps, m), m, PRICE_MAX as int);
        vstd::arithmetic::mul::lemma_mul_is_commutative(m, PRICE_MAX as int);
        lemma_div_trunc_sign(psum(ps, m), m);
    } else {
        lemma_sema_bound(ps, p, i - 1);
        crate::indicators::macd::lemma_ema_step_toward(
            sema_at(ps, p, i - 1), ps[i] as int, p);
    }
}

/// The MACD value the cycle works on: fast EMA minus slow EMA.
pub open spec fn smacd_at(ps: Seq<i64>, f: int, s: int, i: int) -> int {
    sema_at(ps, f, i) - sema_at(ps, s, i)
}

/// Smallest MACD value over the inclusive index range `lo..=hi`.
pub open spec fn smacd_lo(ps: Seq<i64>, f: int, s: int, lo: int, hi: int) -> int
    decreases hi - lo,
{
    if hi <= lo {
        smacd_at(ps, f, s, lo)
    } else {
        let p = smacd_lo(ps, f, s, lo, hi - 1);
        if smacd_at(ps, f, s, hi) < p {
            smacd_at(ps, f, s, hi)
        } else {
            p
        }
    }
}

/// Largest MACD value over the inclusive index range `lo..=hi`.
pub open spec fn smacd_hi(ps: Seq<i64>, f: int, s: int, lo: int, hi: int) -> int
    decreases hi - lo,
{
    if hi <= lo {
        smacd_at(ps, f, s, lo)
    } else {
        let p = smacd_hi(ps, f, s, lo, hi - 1);
        if smacd_at(ps, f, s, hi) > p {
            smacd_at(ps, f, s, hi)
        } else {
            p
        }
    }
}

pub proof fn lemma_smacd_window(ps: Seq<i64>, f: int, s: int, lo: int, hi: int)
    requires
        prices_ok(ps),
        1 <= f <= PERIOD_MAX,
        1 <= s <= PERIOD_MAX,
        0 <= lo <= hi < ps.len(),
    ensures
        -PRICE_MAX <= smacd_lo(ps, f, s, lo, hi) <= smacd_hi(ps, f, s, lo, hi) <= PRICE_MAX,
        smacd_lo(ps, f, s, lo, hi) <= smacd_at(ps, f, s, hi) <= smacd_hi(ps, f, s, lo, hi),
    decreases hi - lo,
{
    lemma_sema_bound(ps, f, hi);
    lemma_sema_bound(ps, s, hi);
    if hi > lo {
        lemma_smacd_window(ps, f, s, lo, hi - 1);
    }
}

/// Half step toward a target: `v + factor * (t - v) / SCALE` with the
/// fixed factor 0.5 lands between the two.
pub open spec fn half_step(v: int, t: int) -> int {
    v + div_trunc(STC_FACTOR * (t - v), SCALE as int)
}

pub proof fn lemma_half_step_toward(v: int, t: int)
    ensures
        t >= v ==> v <= half_step(v, t) <= t,
        t < v ==> t <= half_step(v, t) <= v,
{
    let d = t - v;
    lemma_abs_mul(STC_FACTOR as int, d);
    vstd::arithmetic::mul::lemma_mul_inequality(
        STC_FACTOR as int, SCALE as int, iabs(d));
    vstd::arithmetic::mul::lemma_mul_is_commutative(iabs(d), STC_FACTOR as int);
    vstd::arithmetic::mul::lemma_mul_is_commutative(iabs(d), SCALE as int);
    lemma_div_trunc_abs_le(STC_FACTOR * d, SCALE as int, iabs(d));
    lemma_div_trunc_sign(STC_FACTOR * d, SCALE as int);
    if d >= 0 {
        vstd::arithmetic::mul::lemma_mul_nonnegative(STC_FACTOR as int, d);
    } else {
        vstd::arithmetic::mul::lemma_mul_nonnegative(STC_FACTOR as int, -d);
        vstd::arithmetic::mul::lemma_mul_unary_negation(STC_FACTOR as int, d);
    }
}

/// Stage-one stochastic: the position of the MACD inside its trailing
/// window, carried over when the window is flat, midpoint-padded
/// before the cycle length is reached.
pub open spec fn stoch1_at(ps: Seq<i64>, ln: int, f: int, s: int, i: int) -> int
    decreases i,
{
    if i < ln {
        VAL_FIFTY as int
    } else {
        let lo = i - ln + 1;
        let mn = smacd_lo(ps, f, s, lo, i);
        let mx = smacd_hi(ps, f, s, lo, i);
        if mx - mn > 0 {
            div_trunc((smacd_at(ps, f, s, i) - mn) * VAL_HUNDRED, mx - mn)
        } else if i > 0 {
            stoch1_at(ps, ln, f, s, i - 1)
        } else {
            VAL_FIFTY as int
        }
    }
}

/// Stage-one smoothed series.
pub open spec fn s1_at(ps: Seq<i64>, ln: int, f: int, s: int, i: int) -> int
    decreases i,
{
    if i < ln {
        VAL_FIFTY as int
    } else if i > 0 {
        half_step(s1_at(ps, ln, f, s, i - 1), stoch1_at(ps, ln, f, s, i))
    } else {
        stoch1_at(ps, ln, f, s, 0)
    }
}

/// Smallest stage-one smoothed value over `lo..=hi`.
pub open spec fn s1_lo(ps: Seq<i64>, ln: int, f: int, s: int, lo: int, hi: int) -> int
    decreases hi - lo,
{
    if hi <= lo {
        s1_at(ps, ln, f, s, lo)
    } else {
        let p = s1_lo(ps, ln, f, s, lo, hi - 1);
        if s1_at(ps, ln, f, s, hi) < p {
            s1_at(ps, ln, f, s, hi)
        } else {
            p
        }
    }
}

/// Largest stage-one smoothed value over `lo..=hi`.
pub open spec fn s1_hi(ps: Seq<i64>, ln: int, f: int, s: int, lo: int, hi: int) -> int
    decreases hi - lo,
{
    if hi <= lo {
        s1_at(ps, ln, f, s, lo)
    } else {
        let p = s1_hi(ps, ln, f, s, lo, hi - 1);
        if s1_at(ps, ln, f, s, hi) > p {
            s1_at(ps, ln, f, s, hi)
        } else {
            p
        }
    }
}

/// Stage-two stochastic of the smoothed stage-one series.
pub open spec fn stoch2_at(ps: Seq<i64>, ln: int, f: int, s: int, i: int) -> int
    decreases i,
{
    if i < ln {
        VAL_FIFTY as int
    } else {
        let lo = i - ln + 1;
        let mn = s1_lo(ps, ln, f, s, lo, i);
        let mx = s1_hi(ps, ln, f, s, lo, i);
        if mx - mn > 0 {
            div_trunc((s1_at(ps, ln, f, s, i) - mn) * VAL_HUNDRED, mx - mn)
        } else if i > 0 {
            stoch2_at(ps, ln, f, s, i - 1)
        } else {
            VAL_FIFTY as int
        }
    }
}

/// The final STC value: the stage-two stochastic smoothed by half
/// steps.
pub open spec fn stc_at(ps: Seq<i64>, ln: int, f: int, s: int, i: int) -> int
    decreases i,
{
    if i < ln {
        VAL_FIFTY as int
    } else if i > 0 {
        half_step(stc_at(ps, ln, f, s, i - 1), stoch2_at(ps, ln, f, s, i))
    } else {
        stoch2_at(ps, ln, f, s, 0)
    }
}

/// Red (sell) signal: a local peak in the STC trace above 75.
pub open spec fn red_at(ps: Seq<i64>, ln: int, f: int, s: int, i: int) -> bool {
    &&& i >= 3
    &&& stc_at(ps, ln, f, s, i - 3) <= stc_at(ps, ln, f, s, i - 2)
    &&& stc_at(ps, ln, f, s, i - 2) > stc_at(ps, ln, f, s, i - 1)
    &&& stc_at(ps, ln, f, s, i) > STC_RED
}

/// Green (buy) signal: a local trough in the STC trace below 25.
pub open spec fn green_at(ps: Seq<i64>, ln: int, f: int, s: int, i: int) -> bool {
    &&& i >= 3
    &&& stc_at(ps, ln, f, s, i - 3) >= stc_at(ps, ln, f, s, i - 2)
    &&& stc_at(ps, ln, f, s, i - 2) < stc_at(ps, ln, f, s, i - 1)
    &&& stc_at(ps, ln, f, s, i) < STC_GREEN
}

/// Every series of the cycle stays inside 0..=100.
pub proof fn lemma_stc_range(ps: Seq<i64>, ln: int, f: int, s: int, i: int)
    requires
        prices_ok(ps),
        1 <= ln <= PERIOD_MAX,
        1 <= f <= PERIOD_MAX,
        1 <= s <= PERIOD_MAX,
        0 <= i < ps.len(),
    ensures
        0 <= stoch1_at(ps, ln, f, s, i) <= VAL_HUNDRED,
        0 <= s1_at(ps, ln, f, s, i) <= VAL_HUNDRED,
        0 <= stoch2_at(ps, ln, f, s, i) <= VAL_HUNDRED,
        0 <= stc_at(ps, ln, f, s, i) <= VAL_HUNDRED,
    decreases i,
{
    if i > 0 {
        lemma_stc_range(ps, ln, f, s, i - 1);
    }
    if i >= ln {
        let lo = i - ln + 1;
        lemma_smacd_window(ps, f, s, lo, i);
        let mn = smacd_lo(ps, f, s, lo, i);
        let mx = smacd_hi(ps, f, s, lo, i);
        if mx - mn > 0 {
            lemma_stoch_in_range(smacd_at(ps, f, s, i), mn, mx);
        }
        lemma_s1_window(ps, ln, f, s, lo, i);
        let mn2 = s1_lo(ps, ln, f, s, lo, i);
        let mx2 = s1_hi(ps, ln, f, s, lo, i);
        if mx2 - mn2 > 0 {
            lemma_stoch_in_range(s1_at(ps, ln, f, s, i), mn2, mx2);
        }
        lemma_half_step_toward(s1_at(ps, ln, f, s, i - 1), stoch1_at(ps, ln, f, s, i));
        lemma_half_step_toward(stc_at(ps, ln, f, s, i - 1), stoch2_at(ps, ln, f, s, i));
    }
}

/// A value inside a proper window maps to a stochastic inside 0..=100.
pub proof fn lemma_stoch_in_range(v: int, mn: int, mx: int)
    requires
        mn <= v <= mx,
        mx - mn > 0,
    ensures
        0 <= div_trunc((v - mn) * VAL_HUNDRED, mx - mn) <= VAL_HUNDRED,
{
    let num = (v - mn) * VAL_HUNDRED;
    vstd::arithmetic::mul::lemma_mul_nonnegative(v - mn, VAL_HUNDRED as int);
    lemma_div_trunc_sign(num, mx - mn);
    vstd::arithmetic::mul::lemma_mul_inequality(v - mn, mx - mn, VAL_HUNDRED as int);
    vstd::arithmetic::mul::lemma_mul_is_commutative(v - mn, VAL_HUNDRED as int);
    vstd::arithmetic::mul::lemma_mul_is_commutative(mx - mn, VAL_HUNDRED as int);
    lemma_div_trunc_abs_le(num, mx - mn, VAL_HUNDRED as int);
}

/// The stage-one window is ordered and brackets its newest value.
pub proof fn lemma_s1_window(ps: Seq<i64>, ln: int, f: int, s: int, lo: int, hi: int)
    requires
        prices_ok(ps),
        1 <= ln <= PERIOD_MAX,
        1 <= f <= PERIOD_MAX,
        1 <= s <= PERIOD_MAX,
        0 <= lo <= hi < ps.len(),
    ensures
        s1_lo(ps, ln, f, s, lo, hi) <= s1_at(ps, ln, f, s, hi) <= s1_hi(ps, ln, f, s, lo, hi),
    decreases hi - lo,
{
    if hi > lo {
        lemma_s1_window(ps, ln, f, s, lo, hi - 1);
    }
}

/// Schaff Trend Cycle calculator state.
pub struct SchaffTrendCycle {
    pub length: usize,
    pub fast_length: usize,
    pub slow_length: usize,
    pub factor: i64,
    pub stc_values: Vec<i64>,
}

impl SchaffTrendCycle {
    pub open spec fn periods_ok(&self) -> bool {
        &&& 1 <= self.length <= PERIOD_MAX
        &&& 1 <= self.fast_length <= PERIOD_MAX
        &&& 1 <= self.slow_length <= PERIOD_MAX
        &&& self.factor == STC_FACTOR
    }

    pub fn new(length: usize, fast_length: usize, slow_length: usize) -> (r: Self)
        requires
            1 <= length <= PERIOD_MAX,
            1 <= fast_length <= PERIOD_MAX,
            1 <= slow_length <= PERIOD_MAX,
        ensures
            r.length == length,
            r.fast_length == fast_length,
            r.slow_length == slow_length,
            r.factor == STC_FACTOR,
            r.stc_values@.len() == 0,
    {
        SchaffTrendCycle {
            length,
            fast_length,
            slow_length,
            factor: STC_FACTOR,
            stc_values: Vec::new(),
        }
    }

    /// Computes the STC trace and its signals over the window: one
    /// `(value, red, green)` triple per candle.  Values always lie in
    /// 0..=100; a window shorter than the longest period yields an
    /// empty result and leaves the stored trace unchanged.
    pub fn calculate(&mut self, candles: &[Candle]) -> (r: Vec<(i64, bool, bool)>)
        requires
            candles_ok(candles@),
            old(self).periods_ok(),
        ensures
            final(self).length == old(self).length,
            final(self).fast_length == old(self).fast_length,
            final(self).slow_length == old(self).slow_length,
            final(self).factor == old(self).factor,
            ({
                let min_required = if old(self).length >= old(self).fast_length {
                    if old(self).length >= old(self).slow_length {
                        old(self).length
                    } else {
                        old(self).slow_length
                    }
                } else if old(self).fast_length >= old(self).slow_length {
                    old(self).fast_length
                } else {
                    old(self).slow_length
                };
                if candles@.len() < min_required {
                    r@.len() == 0 && final(self).stc_values@ == old(self).stc_values@
                } else {
                    let ps = closes(candles@);
                    let ln = old(self).length as int;
                    let f = old(self).fast_length as int;
                    let s = old(self).slow_length as int;
                    let n = candles@.len() as int;
                    &&& r@.len() == n
                    &&& final(self).stc_values@.len() == n
                    &&& forall|i: int| 0 <= i < n
                        ==> final(self).stc_values@[i] as int == stc_at(ps, ln, f, s, i)
                    &&& forall|i: int| 0 <= i < n
                        ==> (#[trigger] r@[i]).0 as int == stc_at(ps, ln, f, s, i)
                            && r@[i].1 == red_at(ps, ln, f, s, i)
                            && r@[i].2 == green_at(ps, ln, f, s, i)
                    &&& forall|i: int| 0 <= i < n
                        ==> 0 <= (#[trigger] r@[i]).0 <= VAL_HUNDRED
                }
            }),
    {
        let min_required = {
            let a = if self.length >= self.fast_length {
                self.length
            } else {
                self.fast_length
            };
            if a >= self.slow_length {
                a
            } else {
                self.slow_length
            }
        };
        if candles.len() < min_required {
            return Vec::new();
        }

        let ghost ln = self.length as int;
        let ghost f = self.fast_length as int;
        let ghost s = self.slow_length as int;

        let n = candles.len();
        let mut prices: Vec<i64> = Vec::new();
        let mut i: usize = 0;
        while i < n
            invariant
                candles_ok(candles@),
                n == candles@.len(),
                i <= n,
                prices@.len() == i,
                forall|j: int| 0 <= j < i ==> prices@[j] == closes(candles@)[j],
            decreases n - i,
        {
            prices.push(candles[i].close);
            i = i + 1;
        }
        proof {
            assert(prices@ =~= closes(candles@));
        }

        let macd_values = self.calculate_macd(&prices);

        self.stc_values = Vec::new();
        let mut signals: Vec<(i64, bool, bool)> = Vec::new();
        let mut stoch1_values: Vec<i64> = Vec::new();
        let mut stoch1_smooth: Vec<i64> = Vec::new();
        let mut stoch2_values: Vec<i64> = Vec::new();
        let mut stoch2_smooth: Vec<i64> = Vec::new();

        let length = self.length;
        let mut i: usize = 0;
        while i < n
            invariant
                prices_ok(prices@),
                prices@ == closes(candles@),
                n == prices@.len(),
                self.periods_ok(),
                self.length == old(self).length,
                self.fast_length == old(self).fast_length,
                self.slow_length == old(self).slow_length,
                self.factor == old(self).factor,
                length == self.length,
                ln == self.length as int,
                f == self.fast_length as int,
                s == self.slow_length as int,
                macd_values@.len() == n,
                forall|j: int| 0 <= j < n
                    ==> macd_values@[j] as int == smacd_at(prices@, f, s, j)
                        && -PRICE_MAX <= #[trigger] macd_values@[j] <= PRICE_MAX,
                i <= n,
                self.stc_values@.len() == i,
                signals@.len() == i,
                stoch1_values@.len() == i,
                stoch1_smooth@.len() == i,
                stoch2_values@.len() == i,
                stoch2_smooth@.len() == i,
                forall|j: int| 0 <= j < i
                    ==> stoch1_values@[j] as int == stoch1_at(prices@, ln, f, s, j),
                forall|j: int| 0 <= j < i
                    ==> stoch1_smooth@[j] as int == s1_at(prices@, ln, f, s, j),
                forall|j: int| 0 <= j < i
                    ==> stoch2_values@[j] as int == stoch2_at(prices@, ln, f, s, j),
                forall|j: int| 0 <= j < i
                    ==> stoch2_smooth@[j] as int == stc_at(prices@, ln, f, s, j),
                forall|j: int| 0 <= j < i
                    ==> self.stc_values@[j] as int == stc_at(prices@, ln, f, s, j),
                forall|j: int| 0 <= j < i
                    ==> 0 <= #[trigger] stoch1_smooth@[j] <= VAL_HUNDRED,
                forall|j: int| 0 <= j < i
                    ==> 0 <= #[trigger] self.stc_values@[j] <= VAL_HUNDRED,
                forall|j: int| 0 <= j < i
                    ==> (#[trigger] signals@[j]).0 as int == stc_at(prices@, ln, f, s, j)
                        && signals@[j].1 == red_at(prices@, ln, f, s, j)
                        && signals@[j].2 == green_at(prices@, ln, f, s, j)
                        && 0 <= signals@[j].0 <= VAL_HUNDRED,
            decreases n - i,
        {
            proof {
                lemma_stc_range(prices@, ln, f, s, i as int);
                if i > 0 {
                    lemma_stc_range(prices@, ln, f, s, i - 1);
                }
            }
            if i < length {
                self.stc_values.push(VAL_FIFTY);
                signals.push((VAL_FIFTY, false, false));
                stoch1_values.push(VAL_FIFTY);
                stoch1_smooth.push(VAL_FIFTY);
                stoch2_values.push(VAL_FIFTY);
                stoch2_smooth.push(VAL_FIFTY);
                i = i + 1;
            } else {
            let start_idx = i - length + 1;

            let mut lowest_macd = macd_values[start_idx];
            let mut highest_macd = macd_values[start_idx];
            let mut j = start_idx + 1;
            while j <= i
                invariant
                    n == prices@.len(),
                    macd_values@.len() == n,
                    forall|k: int| 0 <= k < n
                        ==> macd_values@[k] as int == smacd_at(prices@, f, s, k),
                    start_idx <= i < n,
                    start_idx < j <= i + 1,
                    lowest_macd as int == smacd_lo(prices@, f, s, start_idx as int, j - 1),
                    highest_macd as int == smacd_hi(prices@, f, s, start_idx as int, j - 1),
                decreases i + 1 - j,
            {
                if macd_values[j] < lowest_macd {
                    lowest_macd = macd_values[j];
                }
                if macd_values[j] > highest_macd {
                    highest_macd = macd_values[j];
                }
                j = j + 1;
            }

            proof {
                lemma_smacd_window(prices@, f, s, start_idx as int, i as int);
            }

            let macd_range = highest_macd - lowest_macd;
            let stoch1: i64 = if macd_range > 0 {
                proof {
                    lemma_stoch_in_range(
                        smacd_at(prices@, f, s, i as int), lowest_macd as int,
                        highest_macd as int);
                }
                div_i64((macd_values[i] - lowest_macd) * VAL_HUNDRED, macd_range)
            } else {
                if i > 0 {
                    stoch1_values[i - 1]
                } else {
                    VAL_FIFTY
                }
            };
            stoch1_values.push(stoch1);

            let stoch1_ema: i64 = if i > 0 {
                let prev = stoch1_smooth[i - 1];
                div_i64(self.factor * (stoch1 - prev), SCALE) + prev
            } else {
                stoch1
            };
            stoch1_smooth.push(stoch1_ema);

            let mut lowest_stoch1 = stoch1_smooth[start_idx];
            let mut highest_stoch1 = stoch1_smooth[start_idx];
            let mut j = start_idx + 1;
            while j <= i
                invariant
                    n == prices@.len(),
                    stoch1_smooth@.len() == i + 1,
                    forall|k: int| 0 <= k < i + 1
                        ==> stoch1_smooth@[k] as int == s1_at(prices@, ln, f, s, k),
                    start_idx <= i < n,
                    start_idx < j <= i + 1,
                    forall|k: int| 0 <= k < i + 1
                        ==> 0 <= #[trigger] stoch1_smooth@[k] <= VAL_HUNDRED,
                    lowest_stoch1 as int == s1_lo(prices@, ln, f, s, start_idx as int, j - 1),
                    highest_stoch1 as int == s1_hi(prices@, ln, f, s, start_idx as int, j - 1),
                    0 <= lowest_stoch1 <= VAL_HUNDRED,
                    0 <= highest_stoch1 <= VAL_HUNDRED,
                decreases i + 1 - j,
            {
                if stoch1_smooth[j] < lowest_stoch1 {
                    lowest_stoch1 = stoch1_smooth[j];
                }
                if stoch1_smooth[j] > highest_stoch1 {
                    highest_stoch1 = stoch1_smooth[j];
                }
                j = j + 1;
            }

            proof {
                lemma_s1_window(prices@, ln, f, s, start_idx as int, i as int);
            }

            let stoch1_range = highest_stoch1 - lowest_stoch1;
            let stoch2: i64 = if stoch1_range > 0 {
                proof {
                    lemma_stoch_in_range(
                        s1_at(prices@, ln, f, s, i as int), lowest_stoch1 as int,
                        highest_stoch1 as int);
                }
                div_i64((stoch1_ema - lowest_stoch1) * VAL_HUNDRED, stoch1_range)
            } else {
                if i > 0 {
                    stoch2_values[i - 1]
                } else {
                    VAL_FIFTY
                }
            };
            stoch2_values.push(stoch2);

            let stc: i64 = if i > 0 {
                let prev = stoch2_smooth[i - 1];
                div_i64(self.factor * (stoch2 - prev), SCALE) + prev
            } else {
                stoch2
            };
            stoch2_smooth.push(stc);
            self.stc_values.push(stc);

            let red_signal = i >= 3 && self.stc_values[i - 3] <= self.stc_values[i - 2]
                && self.stc_values[i - 2] > self.stc_values[i - 1] && stc > STC_RED;
            let green_signal = i >= 3 && self.stc_values[i - 3] >= self.stc_values[i - 2]
                && self.stc_values[i - 2] < self.stc_values[i - 1] && stc < STC_GREEN;

                signals.push((stc, red_signal, green_signal));
                i = i + 1;
            }
        }

        signals
    }

    pub fn stc_values(&self) -> (r: &Vec<i64>)
        ensures
            r@ == self.stc_values@,
    {
        &self.stc_values
    }

    /// MACD values the cycle works on, one per price.
    fn calculate_macd(&self, prices: &Vec<i64>) -> (r: Vec<i64>)
        requires
            prices_ok(prices@),
            self.periods_ok(),
            prices@.len() > 0,
        ensures
            r@.len() == prices@.len(),
            forall|j: int| 0 <= j < r@.len()
                ==> r@[j] as int
                    == smacd_at(prices@, self.fast_length as int, self.slow_length as int, j)
                    && -PRICE_MAX <= #[trigger] r@[j] <= PRICE_MAX,
    {
        let fast_ema = self.calculate_ema(prices, self.fast_length);
        let slow_ema = self.calculate_ema(prices, self.slow_length);

        let ghost f = self.fast_length as int;
        let ghost s = self.slow_length as int;
        let n = prices.len();
        let mut macd: Vec<i64> = Vec::new();
        let mut i: usize = 0;
        while i < n
            invariant
                prices_ok(prices@),
                n == prices@.len(),
                f == self.fast_length as int,
                s == self.slow_length as int,
                fast_ema@.len() == n,
                slow_ema@.len() == n,
                forall|j: int| 0 <= j < n
                    ==> fast_ema@[j] as int == sema_at(prices@, f, j)
                        && 0 <= #[trigger] fast_ema@[j] <= PRICE_MAX,
                forall|j: int| 0 <= j < n
                    ==> slow_ema@[j] as int == sema_at(prices@, s, j)
                        && 0 <= #[trigger] slow_ema@[j] <= PRICE_MAX,
                i <= n,
                macd@.len() == i,
                forall|j: int| 0 <= j < i
                    ==> macd@[j] as int == smacd_at(prices@, f, s, j)
                        && -PRICE_MAX <= #[trigger] macd@[j] <= PRICE_MAX,
            decreases n - i,
        {
            macd.push(fast_ema[i] - slow_ema[i]);
            i = i + 1;
        }
        macd
    }

    /// EMA seeded by the average of the prices actually present.
    fn calculate_ema(&self, prices: &Vec<i64>, period: usize) -> (r: Vec<i64>)
        requires
            prices_ok(prices@),
            1 <= period <= PERIOD_MAX,
            prices@.len() > 0,
        ensures
            r@.len() == prices@.len(),
            forall|i: int| 0 <= i < r@.len()
                ==> r@[i] as int == sema_at(prices@, period as int, i)
                    && 0 <= #[trigger] r@[i] <= PRICE_MAX,
    {
        let ghost p = period as int;
        let n = prices.len();
        let mut ema: Vec<i64> = Vec::new();

        let actual_period = if period < n {
            period
        } else {
            n
        };
        let mut sum: i64 = 0;
        let mut i: usize = 0;
        while i < actual_period
            invariant
                prices_ok(prices@),
                n == prices@.len(),
                actual_period == imin(p, n as int),
                i <= actual_period,
                sum as int == psum(prices@, i as int),
                0 <= sum as int <= i * PRICE_MAX,
            decreases actual_period - i,
        {
            proof {
                lemma_psum_bound(prices@, i + 1);
            }
            sum = sum + prices[i];
            i = i + 1;
        }

        proof {
            lemma_sema_bound(prices@, p, 0);
        }
        let first_ema = div_i64(sum, actual_period as i64);
        ema.push(first_ema);

        let mut i: usize = 1;
        while i < n
            invariant
                prices_ok(prices@),
                n == prices@.len(),
                1 <= p <= PERIOD_MAX,
                p == period as int,
                1 <= i <= n,
                ema@.len() == i,
                forall|j: int| 0 <= j < i
                    ==> ema@[j] as int == sema_at(prices@, p, j)
                        && 0 <= #[trigger] ema@[j] <= PRICE_MAX,
            decreases n - i,
        {
            let prev = ema[i - 1];
            proof {
                lemma_sema_bound(prices@, p, i as int);
                crate::indicators::macd::lemma_ema_step_toward(
                    prev as int, prices@[i as int] as int, p);
            }
            let cur = prev + div_i64((prices[i] - prev) * 2, period as i64 + 1);
            ema.push(cur);
            i = i + 1;
        }

        ema
    }
}

} // verus!

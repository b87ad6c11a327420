//! The KDJ stochastic oscillator.
//!
//! For each index at or past the lookback, the raw stochastic value
//! (RSV) locates the close inside the trailing high-low range; K and D
//! smooth it with the same recurrence, and J is the spread `3K - 2D`.
//! Values are fixed point: 100.0 is stored as `VAL_HUNDRED`.

use vstd::prelude::*;
use crate::candle::{Candle, candle_ok, candles_ok};
use crate::fixed::{
    div_trunc, div_i64, iabs, lemma_div_trunc_abs_le, lemma_div_trunc_abs_le_num,
    lemma_mul_abs_bound, PERIOD_MAX, PRICE_MAX, VAL_BOUND, VAL_FIFTY, VAL_HUNDRED,
};

verus! {

/// Largest `high` over the inclusive candle range `lo..=hi`.
pub open spec fn high_max(cs: Seq<Candle>, lo: int, hi: int) -> int
    decreases hi - lo,
{
    if hi <= lo {
        cs[lo].high as int
    } else {
        let p = high_max(cs, lo, hi - 1);
        if cs[hi].high as int > p {
            cs[hi].high as int
        } else {
            p
        }
    }
}

/// Smallest `low` over the inclusive candle range `lo..=hi`.
pub open spec fn low_min(cs: Seq<Candle>, lo: int, hi: int) -> int
    decreases hi - lo,
{
    if hi <= lo {
        cs[lo].low as int
    } else {
        let p = low_min(cs, lo, hi - 1);
        if (cs[hi].low as int) < p {
            cs[hi].low as int
        } else {
            p
        }
    }
}

/// The window extremes of an in-range candle sequence are in range.
pub proof fn lemma_window_range(cs: Seq<Candle>, lo: int, hi: int)
    requires
        candles_ok(cs),
        0 <= lo <= hi < cs.len(),
    ensures
        0 <= high_max(cs, lo, hi) <= PRICE_MAX,
        0 <= low_min(cs, lo, hi) <= PRICE_MAX,
    decreases hi - lo,
{
    if hi > lo {
        lemma_window_range(cs, lo, hi - 1);
    }
}

/// Raw stochastic value at index `i` for lookback `kp`: the position of
/// the close inside the trailing high-low range, as a fixed-point
/// percentage; the midpoint 50.0 before the lookback is reached or when
/// the range is empty.
pub open spec fn rsv_at(cs: Seq<Candle>, kp: int, i: int) -> int {
    if i < kp - 1 {
        VAL_FIFTY as int
    } else {
        let h = high_max(cs, i + 1 - kp, i);
        let l = low_min(cs, i + 1 - kp, i);
        if h == l {
            VAL_FIFTY as int
        } else {
            div_trunc(VAL_HUNDRED * (cs[i].close - l), h - l)
        }
    }
}

/// K line: RSV smoothed by `(rsv + (dp-1) * prev) / dp`, seeded from
/// the midpoint.
pub open spec fn k_at(cs: Seq<Candle>, kp: int, dp: int, i: int) -> int
    decreases i,
{
    if i <= 0 {
        div_trunc(rsv_at(cs, kp, 0) + 2 * VAL_FIFTY, 3)
    } else {
        div_trunc(rsv_at(cs, kp, i) + (dp - 1) * k_at(cs, kp, dp, i - 1), dp)
    }
}

/// D line: K smoothed by the identical recurrence.
pub open spec fn d_at(cs: Seq<Candle>, kp: int, dp: int, i: int) -> int
    decreases i,
{
    if i <= 0 {
        div_trunc(k_at(cs, kp, dp, 0) + 2 * VAL_FIFTY, 3)
    } else {
        div_trunc(k_at(cs, kp, dp, i) + (dp - 1) * d_at(cs, kp, dp, i - 1), dp)
    }
}

/// J line: `3K - 2D`.
pub open spec fn j_at(cs: Seq<Candle>, kp: int, dp: int, i: int) -> int {
    3 * k_at(cs, kp, dp, i) - 2 * d_at(cs, kp, dp, i)
}

/// J is exactly `3K - 2D` at every index.
pub proof fn lemma_j_identity(cs: Seq<Candle>, kp: int, dp: int, i: int)
    ensures
        j_at(cs, kp, dp, i) == 3 * k_at(cs, kp, dp, i) - 2 * d_at(cs, kp, dp, i),
{
}

/// RSV never exceeds `VAL_BOUND` in magnitude.
pub proof fn lemma_rsv_bound(cs: Seq<Candle>, kp: int, i: int)
    requires
        candles_ok(cs),
        1 <= kp,
        0 <= i < cs.len(),
    ensures
        iabs(rsv_at(cs, kp, i)) <= VAL_BOUND,
{
    if i >= kp - 1 {
        let lo = i + 1 - kp;
        lemma_window_range(cs, lo, i);
        let h = high_max(cs, lo, i);
        let l = low_min(cs, lo, i);
        if h != l {
            lemma_div_trunc_abs_le_num(VAL_HUNDRED * (cs[i].close - l), h - l);
            lemma_mul_abs_bound(VAL_HUNDRED as int, cs[i].close - l, PRICE_MAX as int);
        }
    }
}

/// K never exceeds `VAL_BOUND` in magnitude.
pub proof fn lemma_k_bound(cs: Seq<Candle>, kp: int, dp: int, i: int)
    requires
        candles_ok(cs),
        1 <= kp,
        1 <= dp <= PERIOD_MAX,
        0 <= i < cs.len(),
    ensures
        iabs(k_at(cs, kp, dp, i)) <= VAL_BOUND,
    decreases i,
{
    if i == 0 {
        lemma_rsv_bound(cs, kp, 0);
        lemma_div_trunc_abs_le(rsv_at(cs, kp, 0) + 2 * VAL_FIFTY, 3, VAL_BOUND as int);
    } else {
        lemma_rsv_bound(cs, kp, i);
        lemma_k_bound(cs, kp, dp, i - 1);
        lemma_mul_abs_bound(dp - 1, k_at(cs, kp, dp, i - 1), VAL_BOUND as int);
        assert((dp - 1) * (VAL_BOUND as int) + VAL_BOUND == dp * VAL_BOUND) by {
            vstd::arithmetic::mul::lemma_mul_is_distributive_sub_other_way(
                VAL_BOUND as int, dp, 1);
        }
        assert(VAL_BOUND * dp == dp * VAL_BOUND) by {
            vstd::arithmetic::mul::lemma_mul_is_commutative(VAL_BOUND as int, dp);
        }
        lemma_div_trunc_abs_le(
            rsv_at(cs, kp, i) + (dp - 1) * k_at(cs, kp, dp, i - 1), dp, VAL_BOUND as int);
    }
}

/// D never exceeds `VAL_BOUND` in magnitude.
pub proof fn lemma_d_bound(cs: Seq<Candle>, kp: int, dp: int, i: int)
    requires
        candles_ok(cs),
        1 <= kp,
        1 <= dp <= PERIOD_MAX,
        0 <= i < cs.len(),
    ensures
        iabs(d_at(cs, kp, dp, i)) <= VAL_BOUND,
    decreases i,
{
    if i == 0 {
        lemma_k_bound(cs, kp, dp, 0);
        lemma_div_trunc_abs_le(k_at(cs, kp, dp, 0) + 2 * VAL_FIFTY, 3, VAL_BOUND as int);
    } else {
        lemma_k_bound(cs, kp, dp, i);
        lemma_d_bound(cs, kp, dp, i - 1);
        lemma_mul_abs_bound(dp - 1, d_at(cs, kp, dp, i - 1), VAL_BOUND as int);
        assert((dp - 1) * (VAL_BOUND as int) + VAL_BOUND == dp * VAL_BOUND) by {
            vstd::arithmetic::mul::lemma_mul_is_distributive_sub_other_way(
                VAL_BOUND as int, dp, 1);
        }
        assert(VAL_BOUND * dp == dp * VAL_BOUND) by {
            vstd::arithmetic::mul::lemma_mul_is_commutative(VAL_BOUND as int, dp);
        }
        lemma_div_trunc_abs_le(
            k_at(cs, kp, dp, i) + (dp - 1) * d_at(cs, kp, dp, i - 1), dp, VAL_BOUND as int);
    }
}

/// KDJ calculator state.  Every `calculate` call resets the state and
/// recomputes over the whole supplied window.
pub struct KDJ {
    pub k_period: usize,
    pub d_period: usize,
    pub j_period: usize,
    pub highest_high: Vec<i64>,
    pub lowest_low: Vec<i64>,
    pub rsv_values: Vec<i64>,
    pub k_values: Vec<i64>,
    pub d_values: Vec<i64>,
    pub j_values: Vec<i64>,
}

impl KDJ {
    /// Periods are positive and small enough that the smoothing
    /// arithmetic cannot overflow.
    pub open spec fn periods_ok(&self) -> bool {
        &&& 1 <= self.k_period <= PERIOD_MAX
        &&& 1 <= self.d_period <= PERIOD_MAX
        &&& 1 <= self.j_period <= PERIOD_MAX
    }

    pub fn new(k_period: usize, d_period: usize, j_period: usize) -> (r: Self)
        requires
            1 <= k_period <= PERIOD_MAX,
            1 <= d_period <= PERIOD_MAX,
            1 <= j_period <= PERIOD_MAX,
        ensures
            r.k_period == k_period,
            r.d_period == d_period,
            r.j_period == j_period,
            r.k_values@.len() == 0,
            r.d_values@.len() == 0,
            r.j_values@.len() == 0,
            r.rsv_values@.len() == 0,
    {
        KDJ {
            k_period,
            d_period,
            j_period,
            highest_high: Vec::new(),
            lowest_low: Vec::new(),
            rsv_values: Vec::new(),
            k_values: Vec::new(),
            d_values: Vec::new(),
            j_values: Vec::new(),
        }
    }

    /// The conventional parameters (9, 3, 3).
    pub fn default() -> (r: Self)
        ensures
            r.k_period == 9,
            r.d_period == 3,
            r.j_period == 3,
            r.k_values@.len() == 0,
            r.d_values@.len() == 0,
            r.j_values@.len() == 0,
            r.rsv_values@.len() == 0,
    {
        Self::new(9, 3, 3)
    }

    /// Clears all computed series; the periods stay.
    pub fn reset(&mut self)
        ensures
            final(self).k_period == old(self).k_period,
            final(self).d_period == old(self).d_period,
            final(self).j_period == old(self).j_period,
            final(self).highest_high@.len() == 0,
            final(self).lowest_low@.len() == 0,
            final(self).rsv_values@.len() == 0,
            final(self).k_values@.len() == 0,
            final(self).d_values@.len() == 0,
            final(self).j_values@.len() == 0,
    {
        self.highest_high.clear();
        self.lowest_low.clear();
        self.rsv_values.clear();
        self.k_values.clear();
        self.d_values.clear();
        self.j_values.clear();
    }

    /// Recomputes K, D and J over the whole window and returns copies of
    /// the three series.  A window shorter than the K lookback yields
    /// empty series.
    pub fn calculate(&mut self, candles: &[Candle]) -> (r: (Vec<i64>, Vec<i64>, Vec<i64>))
        requires
            candles_ok(candles@),
            old(self).periods_ok(),
        ensures
            final(self).k_period == old(self).k_period,
            final(self).d_period == old(self).d_period,
            final(self).j_period == old(self).j_period,
            candles@.len() < old(self).k_period ==> final(self).k_values@.len() == 0
                && final(self).d_values@.len() == 0 && final(self).j_values@.len() == 0,
            candles@.len() >= old(self).k_period ==> {
                let kp = old(self).k_period as int;
                let dp = old(self).d_period as int;
                &&& final(self).k_values@.len() == candles@.len()
                &&& final(self).d_values@.len() == candles@.len()
                &&& final(self).j_values@.len() == candles@.len()
                &&& forall|i: int| 0 <= i < candles@.len()
                    ==> final(self).k_values@[i] as int == k_at(candles@, kp, dp, i)
                &&& forall|i: int| 0 <= i < candles@.len()
                    ==> final(self).d_values@[i] as int == d_at(candles@, kp, dp, i)
                &&& forall|i: int| 0 <= i < candles@.len()
                    ==> final(self).j_values@[i] as int == j_at(candles@, kp, dp, i)
            },
            r.0@ == final(self).k_values@,
            r.1@ == final(self).d_values@,
            r.2@ == final(self).j_values@,
    {
        self.reset();

        if candles.len() < self.k_period {
            return (Vec::new(), Vec::new(), Vec::new());
        }

        let n = candles.len();
        let mut i: usize = 0;
        while i < n
            invariant
                candles_ok(candles@),
                self.periods_ok(),
                self.k_period == old(self).k_period,
                self.d_period == old(self).d_period,
                self.j_period == old(self).j_period,
                n == candles@.len(),
                i <= n,
                self.rsv_values@.len() == i,
                self.k_values@.len() == i,
                self.d_values@.len() == i,
                self.j_values@.len() == i,
                forall|j: int| 0 <= j < i
                    ==> self.k_values@[j] as int
                        == k_at(candles@, self.k_period as int, self.d_period as int, j),
                forall|j: int| 0 <= j < i
                    ==> self.d_values@[j] as int
                        == d_at(candles@, self.k_period as int, self.d_period as int, j),
                forall|j: int| 0 <= j < i
                    ==> self.j_values@[j] as int
                        == j_at(candles@, self.k_period as int, self.d_period as int, j),
            decreases n - i,
        {
            self.update_kdj(candles, i);
            i = i + 1;
        }

        (self.k_values.clone(), self.d_values.clone(), self.j_values.clone())
    }

    /// Appends the K, D and J values for one index.
    fn update_kdj(&mut self, candles: &[Candle], index: usize)
        requires
            candles_ok(candles@),
            old(self).periods_ok(),
            index < candles@.len(),
            old(self).rsv_values@.len() == index,
            old(self).k_values@.len() == index,
            old(self).d_values@.len() == index,
            old(self).j_values@.len() == index,
            forall|j: int| 0 <= j < index
                ==> old(self).k_values@[j] as int
                    == k_at(candles@, old(self).k_period as int, old(self).d_period as int, j),
            forall|j: int| 0 <= j < index
                ==> old(self).d_values@[j] as int
                    == d_at(candles@, old(self).k_period as int, old(self).d_period as int, j),
        ensures
            final(self).k_period == old(self).k_period,
            final(self).d_period == old(self).d_period,
            final(self).j_period == old(self).j_period,
            final(self).rsv_values@.len() == index + 1,
            final(self).k_values@.len() == index + 1,
            final(self).d_values@.len() == index + 1,
            final(self).j_values@.len() == index + 1,
            final(self).k_values@ == old(self).k_values@.push(final(self).k_values@[index as int]),
            final(self).d_values@ == old(self).d_values@.push(final(self).d_values@[index as int]),
            final(self).j_values@ == old(self).j_values@.push(final(self).j_values@[index as int]),
            final(self).k_values@[index as int] as int
                == k_at(candles@, old(self).k_period as int, old(self).d_period as int,
                    index as int),
            final(self).d_values@[index as int] as int
                == d_at(candles@, old(self).k_period as int, old(self).d_period as int,
                    index as int),
            final(self).j_values@[index as int] as int
                == j_at(candles@, old(self).k_period as int, old(self).d_period as int,
                    index as int),
    {
        let ghost cs = candles@;
        let ghost kp = self.k_period as int;
        let ghost dp = self.d_period as int;

        let rsv = self.calculate_rsv(candles, index);
        self.rsv_values.push(rsv);

        proof {
            lemma_rsv_bound(cs, kp, index as int);
        }

        let dpi = self.d_period as i64;
        let k: i64 = if self.k_values.len() == 0 {
            div_i64(rsv + 2 * VAL_FIFTY, 3)
        } else {
            let k_prev = self.k_values[self.k_values.len() - 1];
            proof {
                lemma_k_bound(cs, kp, dp, index - 1);
                lemma_mul_abs_bound(dp - 1, k_prev as int, VAL_BOUND as int);
                lemma_mul_abs_bound(dp - 1, VAL_BOUND as int, VAL_BOUND as int);
            }
            div_i64(rsv + (dpi - 1) * k_prev, dpi)
        };
        self.k_values.push(k);

        proof {
            assert(k as int == k_at(cs, kp, dp, index as int));
            lemma_k_bound(cs, kp, dp, index as int);
        }

        let d: i64 = if self.d_values.len() == 0 {
            div_i64(k + 2 * VAL_FIFTY, 3)
        } else {
            let d_prev = self.d_values[self.d_values.len() - 1];
            proof {
                lemma_d_bound(cs, kp, dp, index - 1);
                lemma_mul_abs_bound(dp - 1, d_prev as int, VAL_BOUND as int);
                lemma_mul_abs_bound(dp - 1, VAL_BOUND as int, VAL_BOUND as int);
            }
            div_i64(k + (dpi - 1) * d_prev, dpi)
        };
        self.d_values.push(d);

        proof {
            assert(d as int == d_at(cs, kp, dp, index as int));
            lemma_d_bound(cs, kp, dp, index as int);
        }

        let j = 3 * k - 2 * d;
        self.j_values.push(j);
    }

    /// Raw stochastic value for one index; records the window extremes.
    fn calculate_rsv(&mut self, candles: &[Candle], index: usize) -> (r: i64)
        requires
            candles_ok(candles@),
            old(self).periods_ok(),
            index < candles@.len(),
        ensures
            final(self).k_period == old(self).k_period,
            final(self).d_period == old(self).d_period,
            final(self).j_period == old(self).j_period,
            final(self).rsv_values@ == old(self).rsv_values@,
            final(self).k_values@ == old(self).k_values@,
            final(self).d_values@ == old(self).d_values@,
            final(self).j_values@ == old(self).j_values@,
            r as int == rsv_at(candles@, old(self).k_period as int, index as int),
    {
        if index < self.k_period - 1 {
            return VAL_FIFTY;
        }

        let start = index + 1 - self.k_period;
        let mut highest = candles[start].high;
        let mut lowest = candles[start].low;
        let mut j = start + 1;
        while j <= index
            invariant
                candles_ok(candles@),
                start <= index < candles@.len(),
                start < j <= index + 1,
                highest as int == high_max(candles@, start as int, j - 1),
                lowest as int == low_min(candles@, start as int, j - 1),
            decreases index + 1 - j,
        {
            if candles[j].high > highest {
                highest = candles[j].high;
            }
            if candles[j].low < lowest {
                lowest = candles[j].low;
            }
            j = j + 1;
        }

        self.highest_high.push(highest);
        self.lowest_low.push(lowest);

        proof {
            lemma_window_range(candles@, start as int, index as int);
        }

        if highest == lowest {
            VAL_FIFTY
        } else {
            div_i64(VAL_HUNDRED * (candles[index].close - lowest), highest - lowest)
        }
    }

    /// The most recent K, D and J values, if any were computed.
    pub fn latest(&self) -> (r: Option<(i64, i64, i64)>)
        ensures
            r == (if self.k_values@.len() == 0 || self.d_values@.len() == 0
                    || self.j_values@.len() == 0 {
                Option::<(i64, i64, i64)>::None
            } else {
                Option::Some(
                    (self.k_values@.last(), self.d_values@.last(), self.j_values@.last()))
            }),
    {
        if self.k_values.len() == 0 || self.d_values.len() == 0 || self.j_values.len() == 0 {
            None
        } else {
            Some((
                self.k_values[self.k_values.len() - 1],
                self.d_values[self.d_values.len() - 1],
                self.j_values[self.j_values.len() - 1],
            ))
        }
    }

    pub fn k_values(&self) -> (r: &Vec<i64>)
        ensures
            r@ == self.k_values@,
    {
        &self.k_values
    }

    pub fn d_values(&self) -> (r: &Vec<i64>)
        ensures
            r@ == self.d_values@,
    {
        &self.d_values
    }

    pub fn j_values(&self) -> (r: &Vec<i64>)
        ensures
            r@ == self.j_values@,
    {
        &self.j_values
    }

    /// Both K and D lie above the threshold.
    pub fn is_overbought(&self, threshold: i64) -> (r: bool)
        ensures
            r == (self.k_values@.len() > 0 && self.d_values@.len() > 0
                && self.j_values@.len() > 0 && self.k_values@.last() > threshold
                && self.d_values@.last() > threshold),
    {
        match self.latest() {
            Some((k, d, _)) => k > threshold && d > threshold,
            None => false,
        }
    }

    /// Both K and D lie below the threshold.
    pub fn is_oversold(&self, threshold: i64) -> (r: bool)
        ensures
            r == (self.k_values@.len() > 0 && self.d_values@.len() > 0
                && self.j_values@.len() > 0 && self.k_values@.last() < threshold
                && self.d_values@.last() < threshold),
    {
        match self.latest() {
            Some((k, d, _)) => k < threshold && d < threshold,
            None => false,
        }
    }

    /// K crossed above D on the latest index.
    pub fn is_golden_cross(&self) -> (r: bool)
        ensures
            r == (self.k_values@.len() >= 2 && self.d_values@.len() >= 2
                && self.k_values@[self.k_values@.len() - 2]
                    < self.d_values@[self.d_values@.len() - 2]
                && self.k_values@.last() > self.d_values@.last()),
    {
        if self.k_values.len() < 2 || self.d_values.len() < 2 {
            return false;
        }
        let last_k = self.k_values[self.k_values.len() - 1];
        let last_d = self.d_values[self.d_values.len() - 1];
        let prev_k = self.k_values[self.k_values.len() - 2];
        let prev_d = self.d_values[self.d_values.len() - 2];
        prev_k < prev_d && last_k > last_d
    }

    /// K crossed below D on the latest index.
    pub fn is_death_cross(&self) -> (r: bool)
        ensures
            r == (self.k_values@.len() >= 2 && self.d_values@.len() >= 2
                && self.k_values@[self.k_values@.len() - 2]
                    > self.d_values@[self.d_values@.len() - 2]
                && self.k_values@.last() < self.d_values@.last()),
    {
        if self.k_values.len() < 2 || self.d_values.len() < 2 {
            return false;
        }
        let last_k = self.k_values[self.k_values.len() - 1];
        let last_d = self.d_values[self.d_values.len() - 1];
        let prev_k = self.k_values[self.k_values.len() - 2];
        let prev_d = self.d_values[self.d_values.len() - 2];
        prev_k > prev_d && last_k < last_d
    }
}

} // verus!

//! CYC volume-weighted cost lines.
//!
//! Each line is the volume-weighted average close over its trailing
//! window (`sum(close * volume) / sum(volume)`), zero while the window
//! has not filled or carries no volume.  Crossings of the short line
//! through the long line, and the distance of the price from the long
//! line, yield the signals.

use vstd::prelude::*;
use crate::candle::{Candle, candles_ok};
use crate::fixed::{div_trunc, div_i128, iabs, lemma_div_trunc_sign, PERIOD_MAX, PRICE_MAX};

verus! {

/// Largest accepted over/oversold percentage threshold.
pub const THRESHOLD_MAX: i64 = 100_000;

/// Close times volume of one bar.
pub open spec fn pv_at(cs: Seq<Candle>, i: int) -> int {
    cs[i].close * cs[i].volume
}

/// Sum of close-times-volume over the inclusive range `lo..=hi`.
pub open spec fn pv_wsum(cs: Seq<Candle>, lo: int, hi: int) -> int
    decreases hi - lo + 1,
{
    if hi < lo {
        0
    } else {
        pv_wsum(cs, lo, hi - 1) + pv_at(cs, hi)
    }
}

/// Sum of volume over the inclusive range `lo..=hi`.
pub open spec fn v_wsum(cs: Seq<Candle>, lo: int, hi: int) -> int
    decreases hi - lo + 1,
{
    if hi < lo {
        0
    } else {
        v_wsum(cs, lo, hi - 1) + cs[hi].volume
    }
}

/// Both sums are non-negative, and the weighted sum is at most the
/// volume sum times the largest price.
pub proof fn lemma_cyc_sums(cs: Seq<Candle>, lo: int, hi: int)
    requires
        candles_ok(cs),
        0 <= lo,
        hi < cs.len(),
    ensures
        0 <= v_wsum(cs, lo, hi),
        0 <= pv_wsum(cs, lo, hi) <= v_wsum(cs, lo, hi) * PRICE_MAX,
    decreases hi - lo + 1,
{
    if hi < lo {
    } else {
        lemma_cyc_sums(cs, lo, hi - 1);
        vstd::arithmetic::mul::lemma_mul_nonnegative(cs[hi].close as int, cs[hi].volume as int);
        vstd::arithmetic::mul::lemma_mul_inequality(
            cs[hi].close as int, PRICE_MAX as int, cs[hi].volume as int);
        vstd::arithmetic::mul::lemma_mul_is_commutative(cs[hi].close as int, cs[hi].volume as int);
        vstd::arithmetic::mul::lemma_mul_is_commutative(PRICE_MAX as int, cs[hi].volume as int);
        vstd::arithmetic::mul::lemma_mul_is_distributive_add_other_way(
            PRICE_MAX as int, v_wsum(cs, lo, hi - 1), cs[hi].volume as int);
        vstd::arithmetic::mul::lemma_mul_is_commutative(
            v_wsum(cs, lo, hi - 1), PRICE_MAX as int);
        vstd::arithmetic::mul::lemma_mul_is_commutative(v_wsum(cs, lo, hi), PRICE_MAX as int);
    }
}

/// The cost line for lookback `p` at index `i`: the volume-weighted
/// average close over the trailing window, zero before the window
/// fills or when it carries no volume.
pub open spec fn cyc_at(cs: Seq<Candle>, p: int, i: int) -> int {
    if i < p - 1 {
        0
    } else {
        let lo = i + 1 - p;
        if v_wsum(cs, lo, i) == 0 {
            0
        } else {
            div_trunc(pv_wsum(cs, lo, i), v_wsum(cs, lo, i))
        }
    }
}

/// Every cost-line value lies inside the price range.
pub proof fn lemma_cyc_bound(cs: Seq<Candle>, p: int, i: int)
    requires
        candles_ok(cs),
        1 <= p,
        0 <= i < cs.len(),
    ensures
        0 <= cyc_at(cs, p, i) <= PRICE_MAX,
{
    if i >= p - 1 {
        let lo = i + 1 - p;
        lemma_cyc_sums(cs, lo, i);
        let vs = v_wsum(cs, lo, i);
        if vs != 0 {
            lemma_div_trunc_sign(pv_wsum(cs, lo, i), vs);
            vstd::arithmetic::div_mod::lemma_multiply_divide_le(
                pv_wsum(cs, lo, i), vs, PRICE_MAX as int);
        }
    }
}

/// CYC calculator state.
pub struct CYC {
    pub short_period: usize,
    pub mid_period: usize,
    pub long_period: usize,
    pub price_volume_sums: Vec<i128>,
    pub volume_sums: Vec<i64>,
    pub short_cyc: Vec<i64>,
    pub mid_cyc: Vec<i64>,
    pub long_cyc: Vec<i64>,
}

impl CYC {
    pub open spec fn periods_ok(&self) -> bool {
        &&& 1 <= self.short_period <= PERIOD_MAX
        &&& 1 <= self.mid_period <= PERIOD_MAX
        &&& 1 <= self.long_period <= PERIOD_MAX
    }

    /// All stored line values lie inside the price range.
    pub open spec fn lines_ok(&self) -> bool {
        &&& forall|i: int| 0 <= i < self.short_cyc@.len()
            ==> 0 <= #[trigger] self.short_cyc@[i] <= PRICE_MAX
        &&& forall|i: int| 0 <= i < self.mid_cyc@.len()
            ==> 0 <= #[trigger] self.mid_cyc@[i] <= PRICE_MAX
        &&& forall|i: int| 0 <= i < self.long_cyc@.len()
            ==> 0 <= #[trigger] self.long_cyc@[i] <= PRICE_MAX
    }

    pub fn new(short_period: usize, mid_period: usize, long_period: usize) -> (r: Self)
        requires
            1 <= short_period <= PERIOD_MAX,
            1 <= mid_period <= PERIOD_MAX,
            1 <= long_period <= PERIOD_MAX,
        ensures
            r.short_period == short_period,
            r.mid_period == mid_period,
            r.long_period == long_period,
            r.short_cyc@.len() == 0,
            r.mid_cyc@.len() == 0,
            r.long_cyc@.len() == 0,
            r.lines_ok(),
    {
        CYC {
            short_period,
            mid_period,
            long_period,
            price_volume_sums: Vec::new(),
            volume_sums: Vec::new(),
            short_cyc: Vec::new(),
            mid_cyc: Vec::new(),
            long_cyc: Vec::new(),
        }
    }

    /// The conventional parameters (5, 13, 34).
    pub fn default() -> (r: Self)
        ensures
            r.short_period == 5,
            r.mid_period == 13,
            r.long_period == 34,
            r.short_cyc@.len() == 0,
            r.mid_cyc@.len() == 0,
            r.long_cyc@.len() == 0,
            r.lines_ok(),
    {
        Self::new(5, 13, 34)
    }

    /// Clears all computed series; the periods stay.
    pub fn reset(&mut self)
        ensures
            final(self).short_period == old(self).short_period,
            final(self).mid_period == old(self).mid_period,
            final(self).long_period == old(self).long_period,
            final(self).price_volume_sums@.len() == 0,
            final(self).volume_sums@.len() == 0,
            final(self).short_cyc@.len() == 0,
            final(self).mid_cyc@.len() == 0,
            final(self).long_cyc@.len() == 0,
            final(self).lines_ok(),
    {
        self.price_volume_sums.clear();
        self.volume_sums.clear();
        self.short_cyc.clear();
        self.mid_cyc.clear();
        self.long_cyc.clear();
    }

    /// Recomputes the three cost lines over the window and returns
    /// copies.  A window shorter than the long lookback yields empty
    /// series.
    pub fn calculate(&mut self, candles: &[Candle]) -> (r: (Vec<i64>, Vec<i64>, Vec<i64>))
        requires
            candles_ok(candles@),
            old(self).periods_ok(),
        ensures
            final(self).short_period == old(self).short_period,
            final(self).mid_period == old(self).mid_period,
            final(self).long_period == old(self).long_period,
            final(self).lines_ok(),
            candles@.len() < old(self).long_period ==> final(self).short_cyc@.len() == 0
                && final(self).mid_cyc@.len() == 0 && final(self).long_cyc@.len() == 0,
            candles@.len() >= old(self).long_period ==> {
                let cs = candles@;
                let n = cs.len() as int;
                &&& final(self).short_cyc@.len() == n
                &&& final(self).mid_cyc@.len() == n
                &&& final(self).long_cyc@.len() == n
                &&& forall|i: int| 0 <= i < n
                    ==> final(self).short_cyc@[i] as int
                        == cyc_at(cs, old(self).short_period as int, i)
                &&& forall|i: int| 0 <= i < n
                    ==> final(self).mid_cyc@[i] as int
                        == cyc_at(cs, old(self).mid_period as int, i)
                &&& forall|i: int| 0 <= i < n
                    ==> final(self).long_cyc@[i] as int
                        == cyc_at(cs, old(self).long_period as int, i)
            },
            r.0@ == final(self).short_cyc@,
            r.1@ == final(self).mid_cyc@,
            r.2@ == final(self).long_cyc@,
    {
        self.reset();

        if candles.len() < self.long_period {
            return (Vec::new(), Vec::new(), Vec::new());
        }

        let ghost cs = candles@;
        let n = candles.len();
        let mut i: usize = 0;
        while i < n
            invariant
                candles_ok(cs),
                cs == candles@,
                n == cs.len(),
                self.periods_ok(),
                self.short_period == old(self).short_period,
                self.mid_period == old(self).mid_period,
                self.long_period == old(self).long_period,
                i <= n,
                self.price_volume_sums@.len() == i,
                self.volume_sums@.len() == i,
                self.short_cyc@.len() == i,
                self.mid_cyc@.len() == i,
                self.long_cyc@.len() == i,
                forall|j: int| 0 <= j < i
                    ==> self.price_volume_sums@[j] as int == pv_at(cs, j),
                forall|j: int| 0 <= j < i ==> self.volume_sums@[j] == cs[j].volume,
                forall|j: int| 0 <= j < i
                    ==> self.short_cyc@[j] as int == cyc_at(cs, self.short_period as int, j)
                        && 0 <= #[trigger] self.short_cyc@[j] <= PRICE_MAX,
                forall|j: int| 0 <= j < i
                    ==> self.mid_cyc@[j] as int == cyc_at(cs, self.mid_period as int, j)
                        && 0 <= #[trigger] self.mid_cyc@[j] <= PRICE_MAX,
                forall|j: int| 0 <= j < i
                    ==> self.long_cyc@[j] as int == cyc_at(cs, self.long_period as int, j)
                        && 0 <= #[trigger] self.long_cyc@[j] <= PRICE_MAX,
            decreases n - i,
        {
            let price = candles[i].close;
            let volume = candles[i].volume;
            proof {
                vstd::arithmetic::mul::lemma_mul_nonnegative(price as int, volume as int);
                vstd::arithmetic::mul::lemma_mul_inequality(
                    price as int, PRICE_MAX as int, volume as int);
                vstd::arithmetic::mul::lemma_mul_is_commutative(price as int, volume as int);
                vstd::arithmetic::mul::lemma_mul_is_commutative(PRICE_MAX as int, volume as int);
            }
            self.price_volume_sums.push((price as i128) * (volume as i128));
            self.volume_sums.push(volume);

            let sp = self.short_period;
            let mp = self.mid_period;
            let lp = self.long_period;
            let ghost spi = sp as int;
            let ghost mpi = mp as int;
            let ghost lpi = lp as int;

            let sv: i64 = if i + 1 >= sp {
                self.window_value(i + 1 - sp, i, Ghost(cs))
            } else {
                0
            };
            self.short_cyc.push(sv);

            let mv: i64 = if i + 1 >= mp {
                self.window_value(i + 1 - mp, i, Ghost(cs))
            } else {
                0
            };
            self.mid_cyc.push(mv);

            let lv: i64 = if i + 1 >= lp {
                self.window_value(i + 1 - lp, i, Ghost(cs))
            } else {
                0
            };
            self.long_cyc.push(lv);

            i = i + 1;
        }

        (self.short_cyc.clone(), self.mid_cyc.clone(), self.long_cyc.clone())
    }

    /// The volume-weighted average close over `start..=index`, zero
    /// when the window carries no volume.
    fn window_value(&self, start: usize, index: usize, Ghost(cs): Ghost<Seq<Candle>>) -> (r: i64)
        requires
            candles_ok(cs),
            start <= index < cs.len(),
            index < self.price_volume_sums@.len(),
            self.price_volume_sums@.len() == self.volume_sums@.len(),
            self.price_volume_sums@.len() <= cs.len(),
            forall|j: int| 0 <= j < self.price_volume_sums@.len()
                ==> self.price_volume_sums@[j] as int == pv_at(cs, j),
            forall|j: int| 0 <= j < self.volume_sums@.len()
                ==> self.volume_sums@[j] == cs[j].volume,
        ensures
            r as int == cyc_at(cs, index + 1 - start, index as int),
            0 <= r <= PRICE_MAX,
    {
        let mut pv_sum: i128 = 0;
        let mut v_sum: i128 = 0;
        let mut j: usize = start;
        while j <= index
            invariant
                candles_ok(cs),
                start <= index < cs.len(),
                index < self.price_volume_sums@.len(),
                self.price_volume_sums@.len() == self.volume_sums@.len(),
                self.price_volume_sums@.len() <= cs.len(),
                forall|k: int| 0 <= k < self.price_volume_sums@.len()
                    ==> self.price_volume_sums@[k] as int == pv_at(cs, k),
                forall|k: int| 0 <= k < self.volume_sums@.len()
                    ==> self.volume_sums@[k] == cs[k].volume,
                start <= j <= index + 1,
                pv_sum as int == pv_wsum(cs, start as int, j - 1),
                v_sum as int == v_wsum(cs, start as int, j - 1),
                0 <= v_sum as int <= (j - start) * (crate::fixed::VOLUME_MAX as int),
                0 <= pv_sum as int <= v_sum * PRICE_MAX,
            decreases index + 1 - j,
        {
            proof {
                lemma_cyc_sums(cs, start as int, j as int);
                assert((j - start) * (crate::fixed::VOLUME_MAX as int)
                    + crate::fixed::VOLUME_MAX
                    == (j + 1 - start) * (crate::fixed::VOLUME_MAX as int)) by {
                    vstd::arithmetic::mul::lemma_mul_is_distributive_add_other_way(
                        crate::fixed::VOLUME_MAX as int, j - start, 1);
                }
                vstd::arithmetic::mul::lemma_mul_inequality(
                    v_wsum(cs, start as int, j as int),
                    (j + 1 - start) * (crate::fixed::VOLUME_MAX as int), PRICE_MAX as int);
            }
            pv_sum = pv_sum + self.price_volume_sums[j];
            v_sum = v_sum + self.volume_sums[j] as i128;
            j = j + 1;
        }

        proof {
            lemma_cyc_bound(cs, index + 1 - start, index as int);
        }
        if v_sum == 0 {
            0
        } else {
            let q = div_i128(pv_sum, v_sum);
            proof {
                lemma_div_trunc_sign(pv_sum as int, v_sum as int);
                vstd::arithmetic::div_mod::lemma_multiply_divide_le(
                    pv_sum as int, v_sum as int, PRICE_MAX as int);
            }
            q as i64
        }
    }

    /// The most recent short, mid and long values, if any were
    /// computed.
    pub fn latest(&self) -> (r: Option<(i64, i64, i64)>)
        ensures
            r == (if self.short_cyc@.len() == 0 || self.mid_cyc@.len() == 0
                    || self.long_cyc@.len() == 0 {
                Option::<(i64, i64, i64)>::None
            } else {
                Option::Some(
                    (self.short_cyc@.last(), self.mid_cyc@.last(), self.long_cyc@.last()))
            }),
    {
        if self.short_cyc.len() == 0 || self.mid_cyc.len() == 0 || self.long_cyc.len() == 0 {
            None
        } else {
            Some((
                self.short_cyc[self.short_cyc.len() - 1],
                self.mid_cyc[self.mid_cyc.len() - 1],
                self.long_cyc[self.long_cyc.len() - 1],
            ))
        }
    }

    pub fn short_cyc(&self) -> (r: &Vec<i64>)
        ensures
            r@ == self.short_cyc@,
    {
        &self.short_cyc
    }

    pub fn mid_cyc(&self) -> (r: &Vec<i64>)
        ensures
            r@ == self.mid_cyc@,
    {
        &self.mid_cyc
    }

    pub fn long_cyc(&self) -> (r: &Vec<i64>)
        ensures
            r@ == self.long_cyc@,
    {
        &self.long_cyc
    }

    /// The price sits more than `threshold` percent above the long
    /// line.
    pub fn is_overbought(&self, price: i64, threshold: i64) -> (r: bool)
        requires
            self.lines_ok(),
            0 <= price <= PRICE_MAX,
            0 <= threshold <= THRESHOLD_MAX,
        ensures
            r == (self.short_cyc@.len() > 0 && self.mid_cyc@.len() > 0
                && self.long_cyc@.len() > 0
                && price * 100 > self.long_cyc@.last() * (100 + threshold)),
    {
        match self.latest() {
            Some((_, _, long_cyc)) => {
                proof {
                    crate::fixed::lemma_mul_abs_bound(
                        100 + threshold as int, long_cyc as int, PRICE_MAX as int);
                    vstd::arithmetic::mul::lemma_mul_is_commutative(
                        100 + threshold as int, long_cyc as int);
                }
                price * 100 > long_cyc * (100 + threshold)
            },
            None => false,
        }
    }

    /// The price sits more than `threshold` percent below the long
    /// line.
    pub fn is_oversold(&self, price: i64, threshold: i64) -> (r: bool)
        requires
            self.lines_ok(),
            0 <= price <= PRICE_MAX,
            0 <= threshold <= THRESHOLD_MAX,
        ensures
            r == (self.short_cyc@.len() > 0 && self.mid_cyc@.len() > 0
                && self.long_cyc@.len() > 0
                && price * 100 < self.long_cyc@.last() * (100 - threshold)),
    {
        match self.latest() {
            Some((_, _, long_cyc)) => {
                proof {
                    crate::fixed::lemma_mul_abs_bound(
                        long_cyc as int, 100 - threshold as int, THRESHOLD_MAX + 100 as int);
                    lemma_mul_sign_flip(100 - threshold as int, long_cyc as int);
                }
                price * 100 < long_cyc * (100 - threshold)
            },
            None => false,
        }
    }

    /// The short line crossed above the long line on the latest index.
    pub fn is_golden_cross(&self) -> (r: bool)
        ensures
            r == (self.short_cyc@.len() >= 2 && self.long_cyc@.len() >= 2
                && self.short_cyc@[self.short_cyc@.len() - 2]
                    <= self.long_cyc@[self.long_cyc@.len() - 2]
                && self.short_cyc@.last() > self.long_cyc@.last()),
    {
        if self.short_cyc.len() < 2 || self.long_cyc.len() < 2 {
            return false;
        }
        let last_short = self.short_cyc[self.short_cyc.len() - 1];
        let last_long = self.long_cyc[self.long_cyc.len() - 1];
        let prev_short = self.short_cyc[self.short_cyc.len() - 2];
        let prev_long = self.long_cyc[self.long_cyc.len() - 2];
        prev_short <= prev_long && last_short > last_long
    }

    /// The short line crossed below the long line on the latest index.
    pub fn is_death_cross(&self) -> (r: bool)
        ensures
            r == (self.short_cyc@.len() >= 2 && self.long_cyc@.len() >= 2
                && self.short_cyc@[self.short_cyc@.len() - 2]
                    >= self.long_cyc@[self.long_cyc@.len() - 2]
                && self.short_cyc@.last() < self.long_cyc@.last()),
    {
        if self.short_cyc.len() < 2 || self.long_cyc.len() < 2 {
            return false;
        }
        let last_short = self.short_cyc[self.short_cyc.len() - 1];
        let last_long = self.long_cyc[self.long_cyc.len() - 1];
        let prev_short = self.short_cyc[self.short_cyc.len() - 2];
        let prev_long = self.long_cyc[self.long_cyc.len() - 2];
        prev_short >= prev_long && last_short < last_long
    }

    /// The CYC vote: +1 on a golden cross or a confirmed oversold
    /// rebound, -1 on a death cross or a confirmed overbought
    /// reversal, else 0.
    pub fn generate_signal(&self, price: i64, threshold: i64) -> (r: i64)
        requires
            self.lines_ok(),
            0 <= price <= PRICE_MAX,
            0 <= threshold <= THRESHOLD_MAX,
            self.short_cyc@.len() == 0 || self.short_cyc@.len() >= 2,
        ensures
            r == generate_signal_spec(
                self.short_cyc@, self.mid_cyc@, self.long_cyc@, price as int, threshold as int),
    {
        if self.is_golden_cross() || (self.is_oversold(price, threshold)
            && self.short_cyc[self.short_cyc.len() - 1]
                > self.short_cyc[self.short_cyc.len() - 2]) {
            1
        } else if self.is_death_cross() || (self.is_overbought(price, threshold)
            && self.short_cyc[self.short_cyc.len() - 1]
                < self.short_cyc[self.short_cyc.len() - 2]) {
            -1
        } else {
            0
        }
    }
}

/// The CYC vote as a function of the three stored lines, the price and
/// the threshold.
pub open spec fn generate_signal_spec(short: Seq<i64>, mid: Seq<i64>, long: Seq<i64>,
    price: int, threshold: int) -> int {
    let has = short.len() > 0 && mid.len() > 0 && long.len() > 0;
    let gc = short.len() >= 2 && long.len() >= 2 && short[short.len() - 2]
        <= long[long.len() - 2] && short.last() > long.last();
    let dc = short.len() >= 2 && long.len() >= 2 && short[short.len() - 2]
        >= long[long.len() - 2] && short.last() < long.last();
    let os = has && price * 100 < long.last() * (100 - threshold);
    let ob = has && price * 100 > long.last() * (100 + threshold);
    let rising = short.len() >= 2 && short.last() > short[short.len() - 2];
    let falling = short.len() >= 2 && short.last() < short[short.len() - 2];
    if gc || (os && rising) {
        1
    } else if dc || (ob && falling) {
        -1
    } else {
        0
    }
}

/// Multiplying a bounded non-negative value by a possibly negative
/// factor stays inside the product bound.
proof fn lemma_mul_sign_flip(f: int, v: int)
    requires
        0 <= v,
    ensures
        f >= 0 ==> v * f >= 0,
        f < 0 ==> v * f <= 0,
{
    if f >= 0 {
        vstd::arithmetic::mul::lemma_mul_nonnegative(v, f);
    } else {
        vstd::arithmetic::mul::lemma_mul_nonnegative(v, -f);
        vstd::arithmetic::mul::lemma_mul_unary_negation(f, v);
        vstd::arithmetic::mul::lemma_mul_is_commutative(f, v);
        vstd::arithmetic::mul::lemma_mul_is_commutative(-f, v);
    }
}

} // verus!

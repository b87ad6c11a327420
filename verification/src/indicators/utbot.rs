//! UT Bot: an ATR-based trailing-stop system.
//!
//! A simple ATR (cumulative mean until the period fills, then a
//! Wilder-style running average) sets the stop distance.  The stop
//! ratchets toward the price while the price stays on one side of it
//! and resets on a breakout.  The position flips long when the price
//! crosses above the stop and short when it crosses below; buy and
//! sell signals additionally ask that the reference EMA(1) — the raw
//! source price — crosses the stop the same way.

use vstd::prelude::*;
use crate::candle::{Candle, candles_ok};
use crate::fixed::{
    div_trunc, div_i64, iabs, lemma_div_trunc_abs_le, lemma_div_trunc_sign,
    lemma_mul_abs_bound, PERIOD_MAX, PRICE_MAX, SCALE,
};

verus! {

/// Largest accepted sensitivity multiplier: 100.0 in fixed point.
pub const KEY_VALUE_MAX: i64 = 1_000_000;

/// Magnitude bound on the stop distance: `KEY_VALUE_MAX / SCALE`
/// times `PRICE_MAX`.
pub const NLOSS_BOUND: i64 = 100_000_000_000;

/// Magnitude bound on the trailing stop itself.
pub const STOP_BOUND: i64 = 101_000_000_000;

/// The source price: the close, or the heikin-ashi close when asked.
pub open spec fn src_at(cs: Seq<Candle>, ha: bool, i: int) -> int
    decreases i,
{
    if !ha {
        cs[i].close as int
    } else if i <= 0 {
        div_trunc(cs[0].open + cs[0].high + cs[0].low + cs[0].close, 4)
    } else {
        div_trunc(src_at(cs, ha, i - 1) + div_trunc(cs[i].high + cs[i].low + cs[i].close, 3), 2)
    }
}

pub proof fn lemma_src_bound(cs: Seq<Candle>, ha: bool, i: int)
    requires
        candles_ok(cs),
        0 <= i < cs.len(),
    ensures
        0 <= src_at(cs, ha, i) <= PRICE_MAX,
    decreases i,
{
    if ha {
        if i == 0 {
            lemma_div_trunc_sign(cs[0].open + cs[0].high + cs[0].low + cs[0].close, 4);
            lemma_div_trunc_abs_le(
                cs[0].open + cs[0].high + cs[0].low + cs[0].close, 4, PRICE_MAX as int);
        } else {
            lemma_src_bound(cs, ha, i - 1);
            lemma_div_trunc_sign(cs[i].high + cs[i].low + cs[i].close, 3);
            lemma_div_trunc_abs_le(cs[i].high + cs[i].low + cs[i].close, 3, PRICE_MAX as int);
            let inner = div_trunc(cs[i].high + cs[i].low + cs[i].close, 3);
            lemma_div_trunc_sign(src_at(cs, ha, i - 1) + inner, 2);
            lemma_div_trunc_abs_le(src_at(cs, ha, i - 1) + inner, 2, PRICE_MAX as int);
        }
    }
}

/// True range of one bar.
pub open spec fn tr_at(cs: Seq<Candle>, i: int) -> int {
    if i <= 0 {
        cs[0].high - cs[0].low
    } else {
        let tr1 = cs[i].high - cs[i].low;
        let tr2 = iabs(cs[i].high - cs[i - 1].close);
        let tr3 = iabs(cs[i].low - cs[i - 1].close);
        let m = if tr2 > tr1 {
            tr2
        } else {
            tr1
        };
        if tr3 > m {
            tr3
        } else {
            m
        }
    }
}

/// Sum of the first `k` true ranges.
pub open spec fn tr_psum(cs: Seq<Candle>, k: int) -> int
    decreases k,
{
    if k <= 0 {
        0
    } else {
        tr_psum(cs, k - 1) + tr_at(cs, k - 1)
    }
}

/// ATR: the cumulative mean of the true ranges until the period
/// fills, then a Wilder-style running average.
pub open spec fn atr_at(cs: Seq<Candle>, p: int, i: int) -> int
    decreases i,
{
    if i <= 0 {
        tr_at(cs, 0)
    } else if i < p {
        div_trunc(tr_psum(cs, i) + tr_at(cs, i), i + 1)
    } else {
        div_trunc(atr_at(cs, p, i - 1) * (p - 1) + tr_at(cs, i), p)
    }
}

pub proof fn lemma_tr_bound(cs: Seq<Candle>, i: int)
    requires
        candles_ok(cs),
        0 <= i < cs.len(),
    ensures
        iabs(tr_at(cs, i)) <= PRICE_MAX,
{
}

pub proof fn lemma_tr_psum_bound(cs: Seq<Candle>, k: int)
    requires
        candles_ok(cs),
        0 <= k <= cs.len(),
        cs.len() > 0,
    ensures
        iabs(tr_psum(cs, k)) <= k * PRICE_MAX,
    decreases k,
{
    if k > 0 {
        lemma_tr_psum_bound(cs, k - 1);
        lemma_tr_bound(cs, k - 1);
        assert((k - 1) * (PRICE_MAX as int) + PRICE_MAX == k * PRICE_MAX) by {
            vstd::arithmetic::mul::lemma_mul_is_distributive_sub_other_way(
                PRICE_MAX as int, k, 1);
        }
    }
}

pub proof fn lemma_atr_bound(cs: Seq<Candle>, p: int, i: int)
    requires
        candles_ok(cs),
        1 <= p <= PERIOD_MAX,
        0 <= i < cs.len(),
    ensures
        iabs(atr_at(cs, p, i)) <= PRICE_MAX,
    decreases i,
{
    if i == 0 {
        lemma_tr_bound(cs, 0);
    } else if i < p {
        lemma_tr_psum_bound(cs, i);
        lemma_tr_bound(cs, i);
        assert(i * (PRICE_MAX as int) + PRICE_MAX == (i + 1) * PRICE_MAX) by {
            vstd::arithmetic::mul::lemma_mul_is_distributive_add_other_way(
                PRICE_MAX as int, i, 1);
        }
        vstd::arithmetic::mul::lemma_mul_is_commutative(i + 1, PRICE_MAX as int);
        lemma_div_trunc_abs_le(tr_psum(cs, i) + tr_at(cs, i), i + 1, PRICE_MAX as int);
    } else {
        lemma_atr_bound(cs, p, i - 1);
        lemma_tr_bound(cs, i);
        vstd::arithmetic::mul::lemma_mul_is_commutative(atr_at(cs, p, i - 1), p - 1);
        lemma_mul_abs_bound(p - 1, atr_at(cs, p, i - 1), PRICE_MAX as int);
        assert((p - 1) * (PRICE_MAX as int) + PRICE_MAX == p * PRICE_MAX) by {
            vstd::arithmetic::mul::lemma_mul_is_distributive_sub_other_way(
                PRICE_MAX as int, p, 1);
        }
        vstd::arithmetic::mul::lemma_mul_is_commutative(p, PRICE_MAX as int);
        lemma_div_trunc_abs_le(
            atr_at(cs, p, i - 1) * (p - 1) + tr_at(cs, i), p, PRICE_MAX as int);
    }
}

/// The stop distance: sensitivity times ATR.
pub open spec fn nloss_at(cs: Seq<Candle>, kv: int, p: int, i: int) -> int {
    div_trunc(kv * atr_at(cs, p, i), SCALE as int)
}

pub proof fn lemma_nloss_bound(cs: Seq<Candle>, kv: int, p: int, i: int)
    requires
        candles_ok(cs),
        0 <= kv <= KEY_VALUE_MAX,
        1 <= p <= PERIOD_MAX,
        0 <= i < cs.len(),
    ensures
        iabs(nloss_at(cs, kv, p, i)) <= NLOSS_BOUND,
        iabs(kv * atr_at(cs, p, i)) <= KEY_VALUE_MAX * PRICE_MAX,
{
    lemma_atr_bound(cs, p, i);
    lemma_mul_abs_bound(kv, atr_at(cs, p, i), PRICE_MAX as int);
    vstd::arithmetic::mul::lemma_mul_inequality(kv, KEY_VALUE_MAX as int, PRICE_MAX as int);
    vstd::arithmetic::mul::lemma_mul_is_commutative(kv, PRICE_MAX as int);
    vstd::arithmetic::mul::lemma_mul_is_commutative(KEY_VALUE_MAX as int, PRICE_MAX as int);
    assert((NLOSS_BOUND as int) * (SCALE as int) == KEY_VALUE_MAX * PRICE_MAX)
        by (nonlinear_arith);
    lemma_div_trunc_abs_le(kv * atr_at(cs, p, i), SCALE as int, NLOSS_BOUND as int);
}

/// The trailing stop: ratchets toward the price while the price stays
/// on one side, resets on a breakout.
pub open spec fn stop_at(cs: Seq<Candle>, kv: int, p: int, ha: bool, i: int) -> int
    decreases i,
{
    let src = src_at(cs, ha, i);
    let nl = nloss_at(cs, kv, p, i);
    let prev_stop: int = if i > 0 {
        stop_at(cs, kv, p, ha, i - 1)
    } else {
        0
    };
    let prev_src = if i > 0 {
        src_at(cs, ha, i - 1)
    } else {
        src
    };
    if src > prev_stop && prev_src > prev_stop {
        let c = src - nl;
        if prev_stop > c {
            prev_stop
        } else {
            c
        }
    } else if src < prev_stop && prev_src < prev_stop {
        let c = src + nl;
        if prev_stop < c {
            prev_stop
        } else {
            c
        }
    } else if src > prev_stop {
        src - nl
    } else {
        src + nl
    }
}

pub proof fn lemma_stop_bound(cs: Seq<Candle>, kv: int, p: int, ha: bool, i: int)
    requires
        candles_ok(cs),
        0 <= kv <= KEY_VALUE_MAX,
        1 <= p <= PERIOD_MAX,
        0 <= i < cs.len(),
    ensures
        iabs(stop_at(cs, kv, p, ha, i)) <= STOP_BOUND,
    decreases i,
{
    if i > 0 {
        lemma_stop_bound(cs, kv, p, ha, i - 1);
    }
    lemma_src_bound(cs, ha, i);
    lemma_nloss_bound(cs, kv, p, i);
}

/// Position state: flips long when the price crosses above the
/// previous stop, short when it crosses below, else carries over.
pub open spec fn pos_at(cs: Seq<Candle>, kv: int, p: int, ha: bool, i: int) -> int
    decreases i,
{
    if i <= 0 {
        0
    } else {
        let src = src_at(cs, ha, i);
        let prev_src = src_at(cs, ha, i - 1);
        let stop = stop_at(cs, kv, p, ha, i - 1);
        if prev_src < stop && src > stop {
            1
        } else if prev_src > stop && src < stop {
            -1
        } else {
            pos_at(cs, kv, p, ha, i - 1)
        }
    }
}

/// Buy signal: the source sits above the stop and the reference EMA
/// crossed above it.
pub open spec fn buy_sig_at(cs: Seq<Candle>, kv: int, p: int, ha: bool, i: int) -> bool {
    &&& i >= 1
    &&& src_at(cs, ha, i) > stop_at(cs, kv, p, ha, i)
    &&& src_at(cs, ha, i - 1) <= stop_at(cs, kv, p, ha, i - 1)
}

/// Sell signal: the source sits below the stop and the reference EMA
/// crossed below it.
pub open spec fn sell_sig_at(cs: Seq<Candle>, kv: int, p: int, ha: bool, i: int) -> bool {
    &&& i >= 1
    &&& src_at(cs, ha, i) < stop_at(cs, kv, p, ha, i)
    &&& src_at(cs, ha, i - 1) >= stop_at(cs, kv, p, ha, i - 1)
}

/// UT Bot calculator state.
pub struct UTBot {
    pub key_value: i64,
    pub atr_period: usize,
    pub use_heikin_ashi: bool,
    pub atr_values: Vec<i64>,
    pub trailing_stop: Vec<i64>,
    pub position: Vec<i32>,
    pub source_values: Vec<i64>,
    pub ema_values: Vec<i64>,
    pub buy_signals: Vec<bool>,
    pub sell_signals: Vec<bool>,
}

impl UTBot {
    pub open spec fn params_ok(&self) -> bool {
        &&& 0 <= self.key_value <= KEY_VALUE_MAX
        &&& 1 <= self.atr_period <= PERIOD_MAX
    }

    pub fn new(key_value: i64, atr_period: usize, use_heikin_ashi: bool) -> (r: Self)
        requires
            0 <= key_value <= KEY_VALUE_MAX,
            1 <= atr_period <= PERIOD_MAX,
        ensures
            r.key_value == key_value,
            r.atr_period == atr_period,
            r.use_heikin_ashi == use_heikin_ashi,
            r.source_values@.len() == 0,
            r.trailing_stop@.len() == 0,
            r.position@.len() == 0,
            r.buy_signals@.len() == 0,
            r.sell_signals@.len() == 0,
    {
        UTBot {
            key_value,
            atr_period,
            use_heikin_ashi,
            atr_values: Vec::new(),
            trailing_stop: Vec::new(),
            position: Vec::new(),
            source_values: Vec::new(),
            ema_values: Vec::new(),
            buy_signals: Vec::new(),
            sell_signals: Vec::new(),
        }
    }

    /// The conventional parameters: sensitivity 1.0, ATR period 10,
    /// plain closes.
    pub fn default() -> (r: Self)
        ensures
            r.key_value == SCALE,
            r.atr_period == 10,
            !r.use_heikin_ashi,
            r.source_values@.len() == 0,
            r.trailing_stop@.len() == 0,
            r.position@.len() == 0,
            r.buy_signals@.len() == 0,
            r.sell_signals@.len() == 0,
    {
        Self::new(SCALE, 10, false)
    }

    /// Clears all computed series; the parameters stay.
    pub fn reset(&mut self)
        ensures
            final(self).key_value == old(self).key_value,
            final(self).atr_period == old(self).atr_period,
            final(self).use_heikin_ashi == old(self).use_heikin_ashi,
            final(self).atr_values@.len() == 0,
            final(self).trailing_stop@.len() == 0,
            final(self).position@.len() == 0,
            final(self).source_values@.len() == 0,
            final(self).ema_values@.len() == 0,
            final(self).buy_signals@.len() == 0,
            final(self).sell_signals@.len() == 0,
    {
        self.atr_values.clear();
        self.trailing_stop.clear();
        self.position.clear();
        self.source_values.clear();
        self.ema_values.clear();
        self.buy_signals.clear();
        self.sell_signals.clear();
    }

    /// Recomputes the stop, position and signals over the window and
    /// returns copies of the two signal series.  A window shorter than
    /// the ATR period yields empty series.
    pub fn calculate(&mut self, candles: &[Candle]) -> (r: (Vec<bool>, Vec<bool>))
        requires
            candles_ok(candles@),
            old(self).params_ok(),
        ensures
            final(self).key_value == old(self).key_value,
            final(self).atr_period == old(self).atr_period,
            final(self).use_heikin_ashi == old(self).use_heikin_ashi,
            candles@.len() < old(self).atr_period ==> final(self).source_values@.len() == 0
                && final(self).atr_values@.len() == 0 && final(self).ema_values@.len() == 0
                && final(self).trailing_stop@.len() == 0 && final(self).position@.len() == 0
                && final(self).buy_signals@.len() == 0 && final(self).sell_signals@.len() == 0,
            candles@.len() >= old(self).atr_period ==> {
                let cs = candles@;
                let kv = old(self).key_value as int;
                let p = old(self).atr_period as int;
                let ha = old(self).use_heikin_ashi;
                let n = cs.len() as int;
                &&& final(self).source_values@.len() == n
                &&& final(self).trailing_stop@.len() == n
                &&& final(self).position@.len() == n
                &&& final(self).buy_signals@.len() == n
                &&& final(self).sell_signals@.len() == n
                &&& final(self).atr_values@.len() == n
                &&& final(self).ema_values@ == final(self).source_values@
                &&& forall|i: int| 0 <= i < n
                    ==> final(self).source_values@[i] as int == src_at(cs, ha, i)
                &&& forall|i: int| 0 <= i < n
                    ==> final(self).atr_values@[i] as int == atr_at(cs, p, i)
                &&& forall|i: int| 0 <= i < n
                    ==> final(self).trailing_stop@[i] as int == stop_at(cs, kv, p, ha, i)
                &&& forall|i: int| 0 <= i < n
                    ==> final(self).position@[i] as int == pos_at(cs, kv, p, ha, i)
                &&& forall|i: int| 0 <= i < n
                    ==> final(self).buy_signals@[i] == buy_sig_at(cs, kv, p, ha, i)
                &&& forall|i: int| 0 <= i < n
                    ==> final(self).sell_signals@[i] == sell_sig_at(cs, kv, p, ha, i)
            },
            r.0@ == final(self).buy_signals@,
            r.1@ == final(self).sell_signals@,
    {
        self.reset();

        if candles.len() < self.atr_period {
            return (Vec::new(), Vec::new());
        }

        let ghost cs = candles@;
        let ghost kv = self.key_value as int;
        let ghost p = self.atr_period as int;
        let ghost ha = self.use_heikin_ashi;

        let n = candles.len();

        // Source prices: plain closes or heikin-ashi closes.
        let mut i: usize = 0;
        while i < n
            invariant
                candles_ok(cs),
                cs == candles@,
                n == cs.len(),
                self.params_ok(),
                kv == self.key_value as int,
                p == self.atr_period as int,
                ha == self.use_heikin_ashi,
                self.atr_values@.len() == 0,
                self.trailing_stop@.len() == 0,
                self.position@.len() == 0,
                self.buy_signals@.len() == 0,
                self.sell_signals@.len() == 0,
                i <= n,
                self.source_values@.len() == i,
                forall|j: int| 0 <= j < i
                    ==> self.source_values@[j] as int == src_at(cs, ha, j)
                        && 0 <= #[trigger] self.source_values@[j] <= PRICE_MAX,
            decreases n - i,
        {
            proof {
                lemma_src_bound(cs, ha, i as int);
            }
            let v: i64 = if !self.use_heikin_ashi {
                candles[i].close
            } else if i == 0 {
                div_i64(
                    candles[0].open + candles[0].high + candles[0].low + candles[0].close, 4)
            } else {
                let inner = div_i64(candles[i].high + candles[i].low + candles[i].close, 3);
                proof {
                    lemma_div_trunc_sign(
                        cs[i as int].high + cs[i as int].low + cs[i as int].close, 3);
                    lemma_div_trunc_abs_le(
                        cs[i as int].high + cs[i as int].low + cs[i as int].close, 3,
                        PRICE_MAX as int);
                }
                div_i64(self.source_values[i - 1] + inner, 2)
            };
            self.source_values.push(v);
            i = i + 1;
        }

        // ATR: cumulative mean until the period fills, then Wilder.
        let mut tr_sum: i64 = 0;
        let mut i: usize = 0;
        while i < n
            invariant
                candles_ok(cs),
                cs == candles@,
                n == cs.len(),
                self.params_ok(),
                kv == self.key_value as int,
                p == self.atr_period as int,
                ha == self.use_heikin_ashi,
                self.source_values@.len() == n,
                forall|j: int| 0 <= j < n
                    ==> self.source_values@[j] as int == src_at(cs, ha, j)
                        && 0 <= #[trigger] self.source_values@[j] <= PRICE_MAX,
                self.trailing_stop@.len() == 0,
                self.position@.len() == 0,
                self.buy_signals@.len() == 0,
                self.sell_signals@.len() == 0,
                i <= n,
                self.atr_values@.len() == i,
                forall|j: int| 0 <= j < i
                    ==> self.atr_values@[j] as int == atr_at(cs, p, j)
                        && iabs(#[trigger] self.atr_values@[j] as int) <= PRICE_MAX,
                tr_sum as int == tr_psum(cs, i as int),
                iabs(tr_sum as int) <= i * PRICE_MAX,
            decreases n - i,
        {
            proof {
                lemma_atr_bound(cs, p, i as int);
                lemma_tr_bound(cs, i as int);
                lemma_tr_psum_bound(cs, i + 1);
                assert(i * (PRICE_MAX as int) + PRICE_MAX == (i + 1) * PRICE_MAX) by {
                    vstd::arithmetic::mul::lemma_mul_is_distributive_add_other_way(
                        PRICE_MAX as int, i as int, 1);
                }
            }
            let tr: i64 = if i == 0 {
                candles[0].high - candles[0].low
            } else {
                let tr1 = candles[i].high - candles[i].low;
                let d2 = candles[i].high - candles[i - 1].close;
                let tr2 = if d2 < 0 {
                    -d2
                } else {
                    d2
                };
                let d3 = candles[i].low - candles[i - 1].close;
                let tr3 = if d3 < 0 {
                    -d3
                } else {
                    d3
                };
                let m = if tr2 > tr1 {
                    tr2
                } else {
                    tr1
                };
                if tr3 > m {
                    tr3
                } else {
                    m
                }
            };

            if i == 0 {
                self.atr_values.push(tr);
            } else if i < self.atr_period {
                proof {
                    vstd::arithmetic::mul::lemma_mul_is_commutative(
                        i + 1 as int, PRICE_MAX as int);
                }
                self.atr_values.push(div_i64(tr_sum + tr, i as i64 + 1));
            } else {
                let prev_atr = self.atr_values[i - 1];
                proof {
                    lemma_mul_abs_bound(p - 1, prev_atr as int, PRICE_MAX as int);
                    vstd::arithmetic::mul::lemma_mul_is_commutative(prev_atr as int, p - 1);
                }
                let atr = div_i64(
                    prev_atr * (self.atr_period as i64 - 1) + tr, self.atr_period as i64);
                self.atr_values.push(atr);
            }
            tr_sum = tr_sum + tr;
            i = i + 1;
        }

        // The reference EMA(1) is the source itself.
        self.ema_values = self.source_values.clone();

        // Trailing stop, position and signals per bar.
        let mut i: usize = 0;
        while i < n
            invariant
                candles_ok(cs),
                cs == candles@,
                n == cs.len(),
                self.params_ok(),
                kv == self.key_value as int,
                p == self.atr_period as int,
                ha == self.use_heikin_ashi,
                self.source_values@.len() == n,
                forall|j: int| 0 <= j < n
                    ==> self.source_values@[j] as int == src_at(cs, ha, j)
                        && 0 <= #[trigger] self.source_values@[j] <= PRICE_MAX,
                self.atr_values@.len() == n,
                forall|j: int| 0 <= j < n
                    ==> self.atr_values@[j] as int == atr_at(cs, p, j)
                        && iabs(#[trigger] self.atr_values@[j] as int) <= PRICE_MAX,
                self.ema_values@ == self.source_values@,
                i <= n,
                self.trailing_stop@.len() == i,
                self.position@.len() == i,
                self.buy_signals@.len() == i,
                self.sell_signals@.len() == i,
                forall|j: int| 0 <= j < i
                    ==> self.trailing_stop@[j] as int == stop_at(cs, kv, p, ha, j)
                        && iabs(#[trigger] self.trailing_stop@[j] as int) <= STOP_BOUND,
                forall|j: int| 0 <= j < i
                    ==> self.position@[j] as int == pos_at(cs, kv, p, ha, j),
                forall|j: int| 0 <= j < i
                    ==> self.buy_signals@[j] == buy_sig_at(cs, kv, p, ha, j),
                forall|j: int| 0 <= j < i
                    ==> self.sell_signals@[j] == sell_sig_at(cs, kv, p, ha, j),
            decreases n - i,
        {
            proof {
                lemma_nloss_bound(cs, kv, p, i as int);
                lemma_stop_bound(cs, kv, p, ha, i as int);
                if i > 0 {
                    lemma_stop_bound(cs, kv, p, ha, i - 1);
                }
            }
            let src = self.source_values[i];
            let n_loss = div_i64(self.key_value * self.atr_values[i], SCALE);

            let prev_stop: i64 = if i > 0 {
                self.trailing_stop[i - 1]
            } else {
                0
            };
            let prev_src: i64 = if i > 0 {
                self.source_values[i - 1]
            } else {
                src
            };

            let new_stop: i64 = if src > prev_stop && prev_src > prev_stop {
                let c = src - n_loss;
                if prev_stop > c {
                    prev_stop
                } else {
                    c
                }
            } else if src < prev_stop && prev_src < prev_stop {
                let c = src + n_loss;
                if prev_stop < c {
                    prev_stop
                } else {
                    c
                }
            } else if src > prev_stop {
                src - n_loss
            } else {
                src + n_loss
            };
            self.trailing_stop.push(new_stop);

            if i == 0 {
                self.position.push(0);
                self.buy_signals.push(false);
                self.sell_signals.push(false);
            } else {
                let stop = self.trailing_stop[i - 1];
                let prev_pos = self.position[i - 1];
                let new_pos: i32 = if prev_src < stop && src > stop {
                    1
                } else if prev_src > stop && src < stop {
                    -1
                } else {
                    prev_pos
                };
                self.position.push(new_pos);

                let ema = self.ema_values[i];
                let prev_ema = self.ema_values[i - 1];
                let cur_stop = new_stop;
                let above = prev_ema <= stop && ema > cur_stop;
                let below = prev_ema >= stop && ema < cur_stop;
                self.buy_signals.push(src > cur_stop && above);
                self.sell_signals.push(src < cur_stop && below);
            }
            i = i + 1;
        }

        (self.buy_signals.clone(), self.sell_signals.clone())
    }

    /// The most recent trailing-stop value.
    pub fn latest_stop(&self) -> (r: Option<i64>)
        ensures
            r == (if self.trailing_stop@.len() == 0 {
                Option::<i64>::None
            } else {
                Option::Some(self.trailing_stop@.last())
            }),
    {
        if self.trailing_stop.len() == 0 {
            None
        } else {
            Some(self.trailing_stop[self.trailing_stop.len() - 1])
        }
    }

    /// The most recent position state.
    pub fn latest_position(&self) -> (r: Option<i32>)
        ensures
            r == (if self.position@.len() == 0 {
                Option::<i32>::None
            } else {
                Option::Some(self.position@.last())
            }),
    {
        if self.position.len() == 0 {
            None
        } else {
            Some(self.position[self.position.len() - 1])
        }
    }

    pub fn trailing_stops(&self) -> (r: &Vec<i64>)
        ensures
            r@ == self.trailing_stop@,
    {
        &self.trailing_stop
    }

    pub fn positions(&self) -> (r: &Vec<i32>)
        ensures
            r@ == self.position@,
    {
        &self.position
    }

    pub fn buy_signals(&self) -> (r: &Vec<bool>)
        ensures
            r@ == self.buy_signals@,
    {
        &self.buy_signals
    }

    pub fn sell_signals(&self) -> (r: &Vec<bool>)
        ensures
            r@ == self.sell_signals@,
    {
        &self.sell_signals
    }

    /// The latest source price sits above the latest stop.
    pub fn is_long(&self) -> (r: bool)
        ensures
            r == (self.source_values@.len() > 0 && self.trailing_stop@.len() > 0
                && self.source_values@.last() > self.trailing_stop@.last()),
    {
        if self.source_values.len() > 0 && self.trailing_stop.len() > 0 {
            self.source_values[self.source_values.len() - 1]
                > self.trailing_stop[self.trailing_stop.len() - 1]
        } else {
            false
        }
    }

    /// The latest source price sits below the latest stop.
    pub fn is_short(&self) -> (r: bool)
        ensures
            r == (self.source_values@.len() > 0 && self.trailing_stop@.len() > 0
                && self.source_values@.last() < self.trailing_stop@.last()),
    {
        if self.source_values.len() > 0 && self.trailing_stop.len() > 0 {
            self.source_values[self.source_values.len() - 1]
                < self.trailing_stop[self.trailing_stop.len() - 1]
        } else {
            false
        }
    }

    /// Long and short are mutually exclusive, and exactly one of them
    /// holds whenever the latest source differs from the latest stop.
    pub proof fn lemma_long_short_exclusive(&self)
        ensures
            !(self.source_values@.len() > 0 && self.trailing_stop@.len() > 0
                && self.source_values@.last() > self.trailing_stop@.last()
                && self.source_values@.last() < self.trailing_stop@.last()),
            self.source_values@.len() > 0 && self.trailing_stop@.len() > 0
                && self.source_values@.last() != self.trailing_stop@.last()
                ==> ((self.source_values@.last() > self.trailing_stop@.last())
                    != (self.source_values@.last() < self.trailing_stop@.last())),
    {
    }
}

} // verus!

//! Moving average convergence/divergence.
//!
//! Fast and slow EMAs are seeded with the plain average of the first
//! `period` closes and then follow the standard recurrence; the signal
//! line is a simple moving average of the MACD line, left-padded with
//! zeros; the histogram is their difference.  Crossings of the MACD
//! line through the signal line yield buy and sell flags.

use vstd::prelude::*;
use crate::candle::{Candle, candles_ok};
use crate::fixed::{
    div_trunc, div_i64, iabs, lemma_abs_mul, lemma_div_trunc_abs_le, lemma_div_trunc_sign,
    lemma_mul_abs_bound, LEN_MAX, PERIOD_MAX, PRICE_MAX,
};

verus! {

/// A price series the moving averages accept.
pub open spec fn prices_ok(ps: Seq<i64>) -> bool {
    &&& ps.len() <= LEN_MAX
    &&& forall|i: int| 0 <= i < ps.len() ==> 0 <= #[trigger] ps[i] <= PRICE_MAX
}

/// The closes of a candle sequence.
pub open spec fn closes(cs: Seq<Candle>) -> Seq<i64> {
    Seq::new(cs.len(), |i: int| cs[i].close)
}

/// Sum of the first `k` prices.
pub open spec fn psum(ps: Seq<i64>, k: int) -> int
    decreases k,
{
    if k <= 0 {
        0
    } else {
        psum(ps, k - 1) + ps[k - 1]
    }
}

pub proof fn lemma_psum_bound(ps: Seq<i64>, k: int)
    requires
        prices_ok(ps),
        0 <= k <= ps.len(),
    ensures
        0 <= psum(ps, k) <= k * PRICE_MAX,
    decreases k,
{
    if k > 0 {
        lemma_psum_bound(ps, k - 1);
        assert((k - 1) * (PRICE_MAX as int) + PRICE_MAX == k * PRICE_MAX) by {
            vstd::arithmetic::mul::lemma_mul_is_distributive_sub_other_way(
                PRICE_MAX as int, k, 1);
        }
    }
}

/// The smaller of two integers.
pub open spec fn imin(a: int, b: int) -> int {
    if a <= b {
        a
    } else {
        b
    }
}

/// EMA over a price series: seeded with the average of the first
/// `p` prices (divided by `p` even when fewer exist), then
/// `prev + (price - prev) * 2 / (p + 1)`.
pub open spec fn pema_at(ps: Seq<i64>, p: int, i: int) -> int
    decreases i,
{
    if i <= 0 {
        div_trunc(psum(ps, imin(p, ps.len() as int)), p)
    } else {
        let prev = pema_at(ps, p, i - 1);
        prev + div_trunc((ps[i] - prev) * 2, p + 1)
    }
}

/// Every EMA value stays inside the price range.
pub proof fn lemma_pema_bound(ps: Seq<i64>, p: int, i: int)
    requires
        prices_ok(ps),
        1 <= p <= PERIOD_MAX,
        0 <= i < ps.len(),
    ensures
        0 <= pema_at(ps, p, i) <= PRICE_MAX,
    decreases i,
{
    if i == 0 {
        let m = imin(p, ps.len() as int);
        lemma_psum_bound(ps, m);
        vstd::arithmetic::mul::lemma_mul_inequality(m, p, PRICE_MAX as int);
        vstd::arithmetic::mul::lemma_mul_is_commutative(m, PRICE_MAX as int);
        vstd::arithmetic::mul::lemma_mul_is_commutative(p, PRICE_MAX as int);
        lemma_div_trunc_abs_le(psum(ps, m), p, PRICE_MAX as int);
        lemma_div_trunc_sign(psum(ps, m), p);
    } else {
        lemma_pema_bound(ps, p, i - 1);
        let prev = pema_at(ps, p, i - 1);
        let d = ps[i] - prev;
        lemma_ema_step_toward(prev, ps[i] as int, p);
    }
}

/// One EMA step lands between the previous value and the new price.
pub proof fn lemma_ema_step_toward(prev: int, price: int, p: int)
    requires
        1 <= p,
    ensures
        price >= prev ==> prev <= prev + div_trunc((price - prev) * 2, p + 1) <= price,
        price < prev ==> price <= prev + div_trunc((price - prev) * 2, p + 1) <= prev,
{
    let d = price - prev;
    lemma_abs_mul(d, 2);
    vstd::arithmetic::mul::lemma_mul_inequality(2, p + 1, iabs(d));
    vstd::arithmetic::mul::lemma_mul_is_commutative(iabs(d), 2);
    vstd::arithmetic::mul::lemma_mul_is_commutative(iabs(d), p + 1);
    lemma_div_trunc_abs_le(d * 2, p + 1, iabs(d));
    lemma_div_trunc_sign(d * 2, p + 1);
}

/// MACD line: fast EMA minus slow EMA.
pub open spec fn macd_at(ps: Seq<i64>, f: int, s: int, i: int) -> int {
    pema_at(ps, f, i) - pema_at(ps, s, i)
}

/// Sum of MACD values over the inclusive index range `lo..=hi`.
pub open spec fn macd_wsum(ps: Seq<i64>, f: int, s: int, lo: int, hi: int) -> int
    decreases hi - lo + 1,
{
    if hi < lo {
        0
    } else {
        macd_wsum(ps, f, s, lo, hi - 1) + macd_at(ps, f, s, hi)
    }
}

pub proof fn lemma_macd_wsum_bound(ps: Seq<i64>, f: int, s: int, lo: int, hi: int)
    requires
        prices_ok(ps),
        1 <= f <= PERIOD_MAX,
        1 <= s <= PERIOD_MAX,
        0 <= lo,
        hi < ps.len(),
    ensures
        iabs(macd_wsum(ps, f, s, lo, hi)) <= (hi - lo + 1) * PRICE_MAX || hi < lo,
    decreases hi - lo + 1,
{
    if hi >= lo {
        lemma_macd_wsum_bound(ps, f, s, lo, hi - 1);
        lemma_pema_bound(ps, f, hi);
        lemma_pema_bound(ps, s, hi);
        assert((hi - 1 - lo + 1) * (PRICE_MAX as int) + PRICE_MAX == (hi - lo + 1) * PRICE_MAX)
            by {
            vstd::arithmetic::mul::lemma_mul_is_distributive_sub_other_way(
                PRICE_MAX as int, hi - lo + 1, 1);
        }
    }
}

/// Signal line: simple moving average of the MACD line over `sp`
/// indices, zero before the window fills.
pub open spec fn signal_at(ps: Seq<i64>, f: int, s: int, sp: int, i: int) -> int {
    if i < sp - 1 {
        0
    } else {
        div_trunc(macd_wsum(ps, f, s, i + 1 - sp, i), sp)
    }
}

/// Histogram: MACD line minus signal line.
pub open spec fn hist_at(ps: Seq<i64>, f: int, s: int, sp: int, i: int) -> int {
    macd_at(ps, f, s, i) - signal_at(ps, f, s, sp, i)
}

/// The histogram is exactly the MACD line minus the signal line at
/// every index.
pub proof fn lemma_hist_identity(ps: Seq<i64>, f: int, s: int, sp: int, i: int)
    ensures
        hist_at(ps, f, s, sp, i) == macd_at(ps, f, s, i) - signal_at(ps, f, s, sp, i),
{
}

/// Buy flag: the MACD line moves from below the signal line to at or
/// above it.
pub open spec fn buy_at(ps: Seq<i64>, f: int, s: int, sp: int, i: int) -> bool {
    &&& i >= 1
    &&& macd_at(ps, f, s, i - 1) < signal_at(ps, f, s, sp, i - 1)
    &&& macd_at(ps, f, s, i) >= signal_at(ps, f, s, sp, i)
}

/// Sell flag: the MACD line moves from above the signal line to at or
/// below it.
pub open spec fn sell_at(ps: Seq<i64>, f: int, s: int, sp: int, i: int) -> bool {
    &&& i >= 1
    &&& macd_at(ps, f, s, i - 1) > signal_at(ps, f, s, sp, i - 1)
    &&& macd_at(ps, f, s, i) <= signal_at(ps, f, s, sp, i)
}

/// A buy flag and a sell flag never fire on the same index.
pub proof fn lemma_buy_sell_exclusive(ps: Seq<i64>, f: int, s: int, sp: int, i: int)
    ensures
        !(buy_at(ps, f, s, sp, i) && sell_at(ps, f, s, sp, i)),
{
}

#[derive(Clone, Copy, Debug, PartialEq, Eq, Structural)]
pub enum MacdColor {
    Lime,
    Red,
    Yellow,
}

#[derive(Clone, Copy, Debug, PartialEq, Eq, Structural)]
pub enum HistColor {
    Aqua,
    Blue,
    Red,
    Maroon,
    Yellow,
    Gray,
}

/// MACD calculator state.  Every `calculate` call recomputes the three
/// series over the whole supplied window.
pub struct MACD {
    pub fast_length: usize,
    pub slow_length: usize,
    pub signal_length: usize,
    pub macd_line: Vec<i64>,
    pub signal_line: Vec<i64>,
    pub histogram: Vec<i64>,
    pub show_macd_signal: bool,
    pub show_dots: bool,
    pub show_histogram: bool,
    pub macd_color_change: bool,
    pub hist_color_change: bool,
}

impl MACD {
    pub open spec fn periods_ok(&self) -> bool {
        &&& 1 <= self.fast_length <= PERIOD_MAX
        &&& 1 <= self.slow_length <= PERIOD_MAX
        &&& 1 <= self.signal_length <= PERIOD_MAX
    }

    pub fn new(fast_length: usize, slow_length: usize, signal_length: usize) -> (r: Self)
        requires
            1 <= fast_length <= PERIOD_MAX,
            1 <= slow_length <= PERIOD_MAX,
            1 <= signal_length <= PERIOD_MAX,
        ensures
            r.fast_length == fast_length,
            r.slow_length == slow_length,
            r.signal_length == signal_length,
            r.macd_line@.len() == 0,
            r.signal_line@.len() == 0,
            r.histogram@.len() == 0,
            r.show_macd_signal && r.show_dots && r.show_histogram,
            r.macd_color_change && r.hist_color_change,
    {
        MACD {
            fast_length,
            slow_length,
            signal_length,
            macd_line: Vec::new(),
            signal_line: Vec::new(),
            histogram: Vec::new(),
            show_macd_signal: true,
            show_dots: true,
            show_histogram: true,
            macd_color_change: true,
            hist_color_change: true,
        }
    }

    pub fn set_display_options(
        &mut self,
        show_macd_signal: bool,
        show_dots: bool,
        show_histogram: bool,
        macd_color_change: bool,
        hist_color_change: bool,
    )
        ensures
            final(self).fast_length == old(self).fast_length,
            final(self).slow_length == old(self).slow_length,
            final(self).signal_length == old(self).signal_length,
            final(self).macd_line@ == old(self).macd_line@,
            final(self).signal_line@ == old(self).signal_line@,
            final(self).histogram@ == old(self).histogram@,
            final(self).show_macd_signal == show_macd_signal,
            final(self).show_dots == show_dots,
            final(self).show_histogram == show_histogram,
            final(self).macd_color_change == macd_color_change,
            final(self).hist_color_change == hist_color_change,
    {
        self.show_macd_signal = show_macd_signal;
        self.show_dots = show_dots;
        self.show_histogram = show_histogram;
        self.macd_color_change = macd_color_change;
        self.hist_color_change = hist_color_change;
    }

    /// The MACD, signal and histogram series over the window, and the
    /// buy/sell crossing flags.  The histogram is exactly the MACD line
    /// minus the signal line, and the two flags never fire together.
    pub fn calculate(&mut self, candles: &[Candle]) -> (r: (Vec<bool>, Vec<bool>))
        requires
            candles_ok(candles@),
            old(self).periods_ok(),
        ensures
            final(self).fast_length == old(self).fast_length,
            final(self).slow_length == old(self).slow_length,
            final(self).signal_length == old(self).signal_length,
            final(self).show_macd_signal == old(self).show_macd_signal,
            final(self).show_dots == old(self).show_dots,
            final(self).show_histogram == old(self).show_histogram,
            final(self).macd_color_change == old(self).macd_color_change,
            final(self).hist_color_change == old(self).hist_color_change,
            candles@.len() == 0 ==> final(self).macd_line@ == old(self).macd_line@
                && final(self).signal_line@ == old(self).signal_line@
                && final(self).histogram@ == old(self).histogram@
                && r.0@.len() == 0 && r.1@.len() == 0,
            candles@.len() > 0 ==> {
                let ps = closes(candles@);
                let n = candles@.len() as int;
                let f = old(self).fast_length as int;
                let s = old(self).slow_length as int;
                let sp = old(self).signal_length as int;
                &&& final(self).macd_line@.len() == n
                &&& final(self).signal_line@.len() == (if sp - 1 > n { sp - 1 } else { n })
                &&& final(self).histogram@.len() == n
                &&& forall|i: int| 0 <= i < n
                    ==> final(self).macd_line@[i] as int == macd_at(ps, f, s, i)
                &&& forall|i: int| 0 <= i < final(self).signal_line@.len()
                    ==> final(self).signal_line@[i] as int == signal_at(ps, f, s, sp, i)
                &&& forall|i: int| 0 <= i < n
                    ==> final(self).histogram@[i] as int == hist_at(ps, f, s, sp, i)
                &&& forall|i: int| 0 <= i < n
                    ==> final(self).histogram@[i]
                        == final(self).macd_line@[i] - final(self).signal_line@[i]
                &&& r.0@.len() == n && r.1@.len() == n
                &&& forall|i: int| 0 <= i < n ==> r.0@[i] == buy_at(ps, f, s, sp, i)
                &&& forall|i: int| 0 <= i < n ==> r.1@[i] == sell_at(ps, f, s, sp, i)
                &&& forall|i: int| 0 <= i < n ==> !(r.0@[i] && r.1@[i])
            },
    {
        if candles.len() == 0 {
            return (Vec::new(), Vec::new());
        }

        let ghost f = self.fast_length as int;
        let ghost s = self.slow_length as int;
        let ghost sp = self.signal_length as int;

        let n = candles.len();
        let mut prices: Vec<i64> = Vec::new();
        let mut i: usize = 0;
        while i < n
            invariant
                candles_ok(candles@),
                n == candles@.len(),
                i <= n,
                prices@.len() == i,
                forall|j: int| 0 <= j < i ==> prices@[j] == closes(candles@)[j],
            decreases n - i,
        {
            prices.push(candles[i].close);
            i = i + 1;
        }
        proof {
            assert(prices@ =~= closes(candles@));
        }

        let fast_ma = Self::calculate_ema(&prices, self.fast_length);
        let slow_ma = Self::calculate_ema(&prices, self.slow_length);

        let mut macd_line: Vec<i64> = Vec::new();
        let mut i: usize = 0;
        while i < n
            invariant
                prices_ok(prices@),
                prices@ == closes(candles@),
                n == prices@.len(),
                1 <= self.fast_length <= PERIOD_MAX,
                1 <= self.slow_length <= PERIOD_MAX,
                f == self.fast_length as int,
                s == self.slow_length as int,
                fast_ma@.len() == n,
                slow_ma@.len() == n,
                forall|j: int| 0 <= j < n
                    ==> fast_ma@[j] as int == pema_at(prices@, f, j)
                        && 0 <= fast_ma@[j] <= PRICE_MAX,
                forall|j: int| 0 <= j < n
                    ==> slow_ma@[j] as int == pema_at(prices@, s, j)
                        && 0 <= slow_ma@[j] <= PRICE_MAX,
                i <= n,
                macd_line@.len() == i,
                forall|j: int| 0 <= j < i
                    ==> macd_line@[j] as int == macd_at(prices@, f, s, j)
                        && iabs(#[trigger] macd_line@[j] as int) <= PRICE_MAX,
            decreases n - i,
        {
            macd_line.push(fast_ma[i] - slow_ma[i]);
            i = i + 1;
        }
        self.macd_line = macd_line;
        proof {
            assert(forall|j: int| 0 <= j < n
                ==> iabs(#[trigger] self.macd_line@[j] as int) <= PRICE_MAX);
        }

        self.signal_line = Self::calculate_sma(&self.macd_line, self.signal_length);

        proof {
            assert forall|j: int| 0 <= j < self.signal_line@.len()
                implies self.signal_line@[j] as int == signal_at(prices@, f, s, sp, j) by {
                if j >= sp - 1 {
                    assert(macd_wsum_matches(self.macd_line@, prices@, f, s, j + 1 - sp, j))
                        by {
                        lemma_wsum_matches(self.macd_line@, prices@, f, s, j + 1 - sp, j);
                    }
                }
            }
        }

        let mut histogram: Vec<i64> = Vec::new();
        let sig_len = self.signal_line.len();
        let hist_n = if n < sig_len {
            n
        } else {
            sig_len
        };
        let mut i: usize = 0;
        while i < hist_n
            invariant
                prices_ok(prices@),
                n == prices@.len(),
                f == self.fast_length as int,
                s == self.slow_length as int,
                sp == self.signal_length as int,
                1 <= f <= PERIOD_MAX,
                1 <= s <= PERIOD_MAX,
                1 <= sp <= PERIOD_MAX,
                self.macd_line@.len() == n,
                forall|j: int| 0 <= j < n
                    ==> self.macd_line@[j] as int == macd_at(prices@, f, s, j),
                self.signal_line@.len() == sig_len,
                hist_n <= n,
                hist_n <= sig_len,
                forall|j: int| 0 <= j < sig_len
                    ==> self.signal_line@[j] as int == signal_at(prices@, f, s, sp, j),
                i <= hist_n,
                histogram@.len() == i,
                forall|j: int| 0 <= j < i
                    ==> histogram@[j] as int == hist_at(prices@, f, s, sp, j),
                forall|j: int| 0 <= j < i
                    ==> histogram@[j] == self.macd_line@[j] - self.signal_line@[j],
            decreases hist_n - i,
        {
            proof {
                lemma_pema_bound(prices@, f, i as int);
                lemma_pema_bound(prices@, s, i as int);
                lemma_signal_bound(prices@, f, s, sp, i as int);
            }
            histogram.push(self.macd_line[i] - self.signal_line[i]);
            i = i + 1;
        }
        self.histogram = histogram;

        let mut buy_signals: Vec<bool> = Vec::new();
        let mut sell_signals: Vec<bool> = Vec::new();
        let mut i: usize = 0;
        while i < n
            invariant
                prices_ok(prices@),
                n == prices@.len(),
                f == self.fast_length as int,
                s == self.slow_length as int,
                sp == self.signal_length as int,
                self.macd_line@.len() == n,
                forall|j: int| 0 <= j < n
                    ==> self.macd_line@[j] as int == macd_at(prices@, f, s, j),
                self.signal_line@.len() == sig_len,
                n <= sig_len || sig_len == n,
                forall|j: int| 0 <= j < sig_len
                    ==> self.signal_line@[j] as int == signal_at(prices@, f, s, sp, j),
                i <= n,
                n <= sig_len,
                buy_signals@.len() == i,
                sell_signals@.len() == i,
                forall|j: int| 0 <= j < i ==> buy_signals@[j] == buy_at(prices@, f, s, sp, j),
                forall|j: int| 0 <= j < i ==> sell_signals@[j] == sell_at(prices@, f, s, sp, j),
            decreases n - i,
        {
            if i == 0 {
                buy_signals.push(false);
                sell_signals.push(false);
            } else {
                let buy = self.macd_line[i - 1] < self.signal_line[i - 1]
                    && self.macd_line[i] >= self.signal_line[i];
                let sell = self.macd_line[i - 1] > self.signal_line[i - 1]
                    && self.macd_line[i] <= self.signal_line[i];
                buy_signals.push(buy);
                sell_signals.push(sell);
            }
            i = i + 1;
        }

        (buy_signals, sell_signals)
    }

    /// EMA over a price series; empty input gives an empty series.
    pub fn calculate_ema(prices: &Vec<i64>, period: usize) -> (r: Vec<i64>)
        requires
            prices_ok(prices@),
            1 <= period <= PERIOD_MAX,
        ensures
            r@.len() == prices@.len(),
            forall|i: int| 0 <= i < r@.len()
                ==> r@[i] as int == pema_at(prices@, period as int, i)
                    && 0 <= #[trigger] r@[i] <= PRICE_MAX,
    {
        if prices.len() == 0 {
            return Vec::new();
        }

        let ghost p = period as int;
        let n = prices.len();
        let mut ema: Vec<i64> = Vec::new();

        let bound = if period < n {
            period
        } else {
            n
        };
        let mut sum: i64 = 0;
        let mut i: usize = 0;
        while i < bound
            invariant
                prices_ok(prices@),
                n == prices@.len(),
                bound == imin(p, n as int),
                i <= bound,
                sum as int == psum(prices@, i as int),
                0 <= sum as int <= i * PRICE_MAX,
            decreases bound - i,
        {
            proof {
                lemma_psum_bound(prices@, i + 1);
            }
            sum = sum + prices[i];
            i = i + 1;
        }

        proof {
            lemma_pema_bound(prices@, p, 0);
        }
        let first_ema = div_i64(sum, period as i64);
        ema.push(first_ema);

        let mut i: usize = 1;
        while i < n
            invariant
                prices_ok(prices@),
                n == prices@.len(),
                1 <= p <= PERIOD_MAX,
                p == period as int,
                1 <= i <= n,
                ema@.len() == i,
                forall|j: int| 0 <= j < i
                    ==> ema@[j] as int == pema_at(prices@, p, j)
                        && 0 <= #[trigger] ema@[j] <= PRICE_MAX,
            decreases n - i,
        {
            let prev = ema[i - 1];
            proof {
                lemma_pema_bound(prices@, p, i as int);
                lemma_ema_step_toward(prev as int, prices@[i as int] as int, p);
            }
            let cur = prev + div_i64((prices[i] - prev) * 2, period as i64 + 1);
            ema.push(cur);
            i = i + 1;
        }

        ema
    }

    /// Simple moving average with zero padding before the window fills;
    /// empty input gives an empty series.
    pub fn calculate_sma(values: &Vec<i64>, period: usize) -> (r: Vec<i64>)
        requires
            values@.len() <= LEN_MAX,
            forall|i: int| 0 <= i < values@.len()
                ==> iabs(#[trigger] values@[i] as int) <= PRICE_MAX,
            1 <= period <= PERIOD_MAX,
        ensures
            values@.len() == 0 ==> r@.len() == 0,
            values@.len() > 0 ==> r@.len()
                == (if period - 1 > values@.len() { (period - 1) as int } else {
                    values@.len() as int
                }),
            forall|i: int| 0 <= i < r@.len()
                ==> r@[i] as int == sma_at(values@, period as int, i),
    {
        if values.len() == 0 {
            return Vec::new();
        }

        let ghost p = period as int;
        let n = values.len();
        let mut sma: Vec<i64> = Vec::new();

        let mut i: usize = 0;
        while i < period - 1
            invariant
                i <= period - 1,
                sma@.len() == i,
                p == period as int,
                forall|j: int| 0 <= j < i ==> sma@[j] as int == sma_at(values@, p, j),
            decreases period - 1 - i,
        {
            sma.push(0);
            i = i + 1;
        }

        let mut i: usize = period - 1;
        while i < n
            invariant
                values@.len() == n,
                n <= LEN_MAX,
                forall|k: int| 0 <= k < n ==> iabs(#[trigger] values@[k] as int) <= PRICE_MAX,
                1 <= p <= PERIOD_MAX,
                p == period as int,
                period - 1 <= i,
                i <= n || i == period - 1,
                sma@.len() == i,
                forall|j: int| 0 <= j < i ==> sma@[j] as int == sma_at(values@, p, j),
            decreases n - i,
        {
            let start = i + 1 - period;
            let mut sum: i64 = 0;
            let mut j: usize = 0;
            while j < period
                invariant
                    values@.len() == n,
                    forall|k: int| 0 <= k < n
                        ==> iabs(#[trigger] values@[k] as int) <= PRICE_MAX,
                    1 <= p <= PERIOD_MAX,
                    p == period as int,
                    start == i + 1 - period,
                    start + period <= n,
                    j <= period,
                    sum as int == vwsum(values@, start as int, start + j - 1),
                    iabs(sum as int) <= j * PRICE_MAX,
                decreases period - j,
            {
                proof {
                    assert(j * (PRICE_MAX as int) + PRICE_MAX == (j + 1) * PRICE_MAX) by {
                        vstd::arithmetic::mul::lemma_mul_is_distributive_add_other_way(
                            PRICE_MAX as int, j as int, 1);
                    }
                }
                sum = sum + values[start + j];
                j = j + 1;
            }
            proof {
                vstd::arithmetic::mul::lemma_mul_inequality(
                    p, PERIOD_MAX as int, PRICE_MAX as int);
                vstd::arithmetic::mul::lemma_mul_is_commutative(p, PRICE_MAX as int);
                vstd::arithmetic::mul::lemma_mul_is_commutative(
                    PERIOD_MAX as int, PRICE_MAX as int);
            }
            sma.push(div_i64(sum, period as i64));
            i = i + 1;
        }

        sma
    }

    pub fn macd_line(&self) -> (r: &Vec<i64>)
        ensures
            r@ == self.macd_line@,
    {
        &self.macd_line
    }

    pub fn signal_line(&self) -> (r: &Vec<i64>)
        ensures
            r@ == self.signal_line@,
    {
        &self.signal_line
    }

    pub fn histogram(&self) -> (r: &Vec<i64>)
        ensures
            r@ == self.histogram@,
    {
        &self.histogram
    }

    /// Lime where the MACD line sits at or above the signal line, red
    /// below; all red when color change is off.
    pub fn macd_colors(&self) -> (r: Vec<MacdColor>)
        requires
            self.signal_line@.len() >= self.macd_line@.len(),
        ensures
            r@.len() == self.macd_line@.len(),
            !self.macd_color_change ==> forall|i: int| 0 <= i < r@.len()
                ==> r@[i] == MacdColor::Red,
            self.macd_color_change ==> forall|i: int| 0 <= i < r@.len()
                ==> r@[i] == (if self.macd_line@[i] >= self.signal_line@[i] {
                    MacdColor::Lime
                } else {
                    MacdColor::Red
                }),
    {
        let n = self.macd_line.len();
        let mut colors: Vec<MacdColor> = Vec::new();
        if !self.macd_color_change {
            let mut i: usize = 0;
            while i < n
                invariant
                    i <= n,
                    colors@.len() == i,
                    forall|j: int| 0 <= j < i ==> colors@[j] == MacdColor::Red,
                decreases n - i,
            {
                colors.push(MacdColor::Red);
                i = i + 1;
            }
            return colors;
        }
        let mut i: usize = 0;
        while i < n
            invariant
                n == self.macd_line@.len(),
                self.signal_line@.len() >= n,
                i <= n,
                colors@.len() == i,
                forall|j: int| 0 <= j < i
                    ==> colors@[j] == (if self.macd_line@[j] >= self.signal_line@[j] {
                        MacdColor::Lime
                    } else {
                        MacdColor::Red
                    }),
            decreases n - i,
        {
            if self.macd_line[i] >= self.signal_line[i] {
                colors.push(MacdColor::Lime);
            } else {
                colors.push(MacdColor::Red);
            }
            i = i + 1;
        }
        colors
    }

    /// Aqua/blue for a positive histogram rising/falling, red/maroon
    /// for the rest; all gray when color change is off.
    pub fn histogram_colors(&self) -> (r: Vec<HistColor>)
        ensures
            r@.len() == self.histogram@.len(),
            !self.hist_color_change ==> forall|i: int| 0 <= i < r@.len()
                ==> r@[i] == HistColor::Gray,
            self.hist_color_change ==> forall|i: int| 0 <= i < r@.len() ==> r@[i] == ({
                let prev: i64 = if i > 0 { self.histogram@[i - 1] } else { 0 };
                if self.histogram@[i] > 0 {
                    if self.histogram@[i] > prev {
                        HistColor::Aqua
                    } else {
                        HistColor::Blue
                    }
                } else {
                    if self.histogram@[i] < prev {
                        HistColor::Red
                    } else {
                        HistColor::Maroon
                    }
                }
            }),
    {
        let n = self.histogram.len();
        let mut colors: Vec<HistColor> = Vec::new();
        if !self.hist_color_change {
            let mut i: usize = 0;
            while i < n
                invariant
                    i <= n,
                    colors@.len() == i,
                    forall|j: int| 0 <= j < i ==> colors@[j] == HistColor::Gray,
                decreases n - i,
            {
                colors.push(HistColor::Gray);
                i = i + 1;
            }
            return colors;
        }
        let mut i: usize = 0;
        while i < n
            invariant
                n == self.histogram@.len(),
                i <= n,
                colors@.len() == i,
                forall|j: int| 0 <= j < i ==> colors@[j] == ({
                    let prev: i64 = if j > 0 { self.histogram@[j - 1] } else { 0 };
                    if self.histogram@[j] > 0 {
                        if self.histogram@[j] > prev {
                            HistColor::Aqua
                        } else {
                            HistColor::Blue
                        }
                    } else {
                        if self.histogram@[j] < prev {
                            HistColor::Red
                        } else {
                            HistColor::Maroon
                        }
                    }
                }),
            decreases n - i,
        {
            let hist = self.histogram[i];
            let prev: i64 = if i > 0 {
                self.histogram[i - 1]
            } else {
                0
            };
            let color = if hist > 0 {
                if hist > prev {
                    HistColor::Aqua
                } else {
                    HistColor::Blue
                }
            } else {
                if hist < prev {
                    HistColor::Red
                } else {
                    HistColor::Maroon
                }
            };
            colors.push(color);
            i = i + 1;
        }
        colors
    }

    /// True at every index where the two lines cross in either
    /// direction; all false when dots are off.
    pub fn cross_points(&self) -> (r: Vec<bool>)
        requires
            self.signal_line@.len() >= self.macd_line@.len(),
        ensures
            r@.len() == self.macd_line@.len(),
            !self.show_dots ==> forall|i: int| 0 <= i < r@.len() ==> !r@[i],
            self.show_dots ==> forall|i: int| 0 <= i < r@.len() ==> r@[i] == (i >= 1 && {
                let pm = self.macd_line@[i - 1];
                let psg = self.signal_line@[i - 1];
                let cm = self.macd_line@[i];
                let csg = self.signal_line@[i];
                (pm > psg && cm <= csg) || (pm < psg && cm >= csg)
            }),
    {
        let n = self.macd_line.len();
        let mut crosses: Vec<bool> = Vec::new();
        if !self.show_dots {
            let mut i: usize = 0;
            while i < n
                invariant
                    i <= n,
                    crosses@.len() == i,
                    forall|j: int| 0 <= j < i ==> !crosses@[j],
                decreases n - i,
            {
                crosses.push(false);
                i = i + 1;
            }
            return crosses;
        }
        let mut i: usize = 0;
        while i < n
            invariant
                n == self.macd_line@.len(),
                self.signal_line@.len() >= n,
                i <= n,
                crosses@.len() == i,
                forall|j: int| 0 <= j < i ==> crosses@[j] == (j >= 1 && {
                    let pm = self.macd_line@[j - 1];
                    let psg = self.signal_line@[j - 1];
                    let cm = self.macd_line@[j];
                    let csg = self.signal_line@[j];
                    (pm > psg && cm <= csg) || (pm < psg && cm >= csg)
                }),
            decreases n - i,
        {
            if i == 0 {
                crosses.push(false);
            } else {
                let pm = self.macd_line[i - 1];
                let psg = self.signal_line[i - 1];
                let cm = self.macd_line[i];
                let csg = self.signal_line[i];
                crosses.push((pm > psg && cm <= csg) || (pm < psg && cm >= csg));
            }
            i = i + 1;
        }
        crosses
    }
}

/// Sum of stored values over the inclusive index range `lo..=hi`.
pub open spec fn vwsum(vs: Seq<i64>, lo: int, hi: int) -> int
    decreases hi - lo + 1,
{
    if hi < lo {
        0
    } else {
        vwsum(vs, lo, hi - 1) + vs[hi]
    }
}

/// SMA of a stored series with zero padding.
pub open spec fn sma_at(vs: Seq<i64>, p: int, i: int) -> int {
    if i < p - 1 {
        0
    } else {
        div_trunc(vwsum(vs, i + 1 - p, i), p)
    }
}

/// When a vector holds the MACD line pointwise, its window sums agree
/// with the MACD window sums.
pub open spec fn macd_wsum_matches(vs: Seq<i64>, ps: Seq<i64>, f: int, s: int, lo: int,
    hi: int) -> bool {
    vwsum(vs, lo, hi) == macd_wsum(ps, f, s, lo, hi)
}

pub proof fn lemma_wsum_matches(vs: Seq<i64>, ps: Seq<i64>, f: int, s: int, lo: int, hi: int)
    requires
        vs.len() == ps.len(),
        0 <= lo,
        hi < vs.len(),
        forall|j: int| 0 <= j < vs.len() ==> vs[j] as int == macd_at(ps, f, s, j),
    ensures
        macd_wsum_matches(vs, ps, f, s, lo, hi),
    decreases hi - lo + 1,
{
    if hi >= lo {
        lemma_wsum_matches(vs, ps, f, s, lo, hi - 1);
    }
}

/// The signal line never exceeds the price bound in magnitude.
pub proof fn lemma_signal_bound(ps: Seq<i64>, f: int, s: int, sp: int, i: int)
    requires
        prices_ok(ps),
        1 <= f <= PERIOD_MAX,
        1 <= s <= PERIOD_MAX,
        1 <= sp <= PERIOD_MAX,
        0 <= i < ps.len(),
    ensures
        iabs(signal_at(ps, f, s, sp, i)) <= PRICE_MAX,
{
    if i >= sp - 1 {
        lemma_macd_wsum_bound(ps, f, s, i + 1 - sp, i);
        lemma_div_trunc_abs_le(macd_wsum(ps, f, s, i + 1 - sp, i), sp, PRICE_MAX as int);
        vstd::arithmetic::mul::lemma_mul_is_commutative(sp, PRICE_MAX as int);
    }
}

} // verus!

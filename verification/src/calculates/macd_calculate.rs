//! MACD signal calculator with the short (5, 10, 5) parameters: scans
//! the last three bars for a crossing or a sustained trend.

use vstd::prelude::*;
use crate::calculates::base_calculate::BaseCalculate;
use crate::candle::{Candle, candles_ok};
use crate::indicators::macd::{MACD, buy_at, closes, macd_at, sell_at, signal_at};

verus! {

/// The vote one bar casts, in priority order: a buy crossing, a sell
/// crossing, the line holding above the signal, the line holding
/// below.  The first bar casts no vote: it has no previous bar.
pub open spec fn macd_step(ps: Seq<i64>, i: int) -> int {
    if i < 1 {
        0
    } else if buy_at(ps, 5, 10, 5, i) {
        1
    } else if sell_at(ps, 5, 10, 5, i) {
        -1
    } else if macd_at(ps, 5, 10, i - 1) > signal_at(ps, 5, 10, 5, i - 1)
        && macd_at(ps, 5, 10, i) > signal_at(ps, 5, 10, 5, i) {
        1
    } else if macd_at(ps, 5, 10, i - 1) < signal_at(ps, 5, 10, 5, i - 1)
        && macd_at(ps, 5, 10, i) < signal_at(ps, 5, 10, 5, i) {
        -1
    } else {
        0
    }
}

/// The MACD vote over a candle window: the first non-zero vote among
/// the trailing three bars; 0 for windows shorter than three bars.
pub open spec fn macd_signal(cs: Seq<Candle>) -> int {
    if cs.len() < 3 {
        0
    } else {
        let ps = closes(cs);
        let l = cs.len() as int;
        let a = macd_step(ps, l - 3);
        let b = macd_step(ps, l - 2);
        let c = macd_step(ps, l - 1);
        if a != 0 {
            a
        } else if b != 0 {
            b
        } else {
            c
        }
    }
}

/// A window shorter than the trailing three bars votes exactly
/// neutral.
pub proof fn lemma_macd_short_window(cs: Seq<Candle>)
    ensures
        cs.len() < 3 ==> macd_signal(cs) == 0,
{
}

pub struct MacdCalculate {
    pub candles: Vec<Candle>,
}

impl BaseCalculate for MacdCalculate {
    open spec fn wf(&self) -> bool {
        candles_ok(self.candles@)
    }

    open spec fn signal_spec(&self) -> int {
        macd_signal(self.candles@)
    }

    open spec fn name_spec(&self) -> Seq<char> {
        "MACD"@
    }

    open spec fn description_spec(&self) -> Seq<char> {
        "MACD indicator"@
    }

    proof fn lemma_signal_range(&self) {
    }

    fn calculate(&self) -> (r: i64) {
        let mut macd = MACD::new(5, 10, 5);
        macd.set_display_options(true, true, true, true, true);

        let (buy_signals, sell_signals) = macd.calculate(self.candles.as_slice());

        let l = self.candles.len();
        if l < 3 {
            return 0;
        }

        let ghost ps = closes(self.candles@);
        let mut i: usize = l - 3;
        while i < l
            invariant
                candles_ok(self.candles@),
                3 <= l == self.candles@.len(),
                ps == closes(self.candles@),
                l - 3 <= i <= l,
                macd.macd_line@.len() == l,
                macd.signal_line@.len() >= l,
                forall|j: int| 0 <= j < l ==> macd.macd_line@[j] as int == macd_at(ps, 5, 10, j),
                forall|j: int| 0 <= j < macd.signal_line@.len()
                    ==> macd.signal_line@[j] as int == signal_at(ps, 5, 10, 5, j),
                buy_signals@.len() == l,
                sell_signals@.len() == l,
                forall|j: int| 0 <= j < l ==> buy_signals@[j] == buy_at(ps, 5, 10, 5, j),
                forall|j: int| 0 <= j < l ==> sell_signals@[j] == sell_at(ps, 5, 10, 5, j),
                forall|j: int| l - 3 <= j < i ==> macd_step(ps, j) == 0,
            decreases l - i,
        {
            // The first bar of the window has no previous bar to compare.
            if i >= 1 {
                if buy_signals[i] {
                    return 1;
                }
                if sell_signals[i] {
                    return -1;
                }
                if macd.macd_line[i - 1] > macd.signal_line[i - 1]
                    && macd.macd_line[i] > macd.signal_line[i] {
                    return 1;
                }
                if macd.macd_line[i - 1] < macd.signal_line[i - 1]
                    && macd.macd_line[i] < macd.signal_line[i] {
                    return -1;
                }
            }
            i = i + 1;
        }
        0
    }

    fn get_name(&self) -> (r: String) {
        "MACD".to_owned()
    }

    fn get_description(&self) -> (r: String) {
        "MACD indicator".to_owned()
    }
}

} // verus!

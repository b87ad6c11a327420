//! CYC signal calculator with the (5, 13, 34) lookbacks and a 5%
//! over/oversold threshold.

use vstd::prelude::*;
use crate::calculates::base_calculate::BaseCalculate;
use crate::candle::{Candle, candles_ok};
use crate::indicators::cyc::{CYC, cyc_at};

verus! {

/// The CYC vote over a candle window: +1 on a golden cross of the
/// short line over the long one, or a confirmed rebound from more than
/// 5% below the long line; -1 on the mirror conditions; else 0.
/// Windows shorter than the long lookback give the neutral 0.
pub open spec fn cyc_signal(cs: Seq<Candle>) -> int {
    if cs.len() < 34 {
        0
    } else {
        let n = cs.len() as int;
        let price = cs[n - 1].close as int;
        let s_prev = cyc_at(cs, 5, n - 2);
        let s_last = cyc_at(cs, 5, n - 1);
        let l_prev = cyc_at(cs, 34, n - 2);
        let l_last = cyc_at(cs, 34, n - 1);
        let gc = s_prev <= l_prev && s_last > l_last;
        let dc = s_prev >= l_prev && s_last < l_last;
        let os = price * 100 < l_last * 95;
        let ob = price * 100 > l_last * 105;
        if gc || (os && s_last > s_prev) {
            1
        } else if dc || (ob && s_last < s_prev) {
            -1
        } else {
            0
        }
    }
}

/// A window shorter than the long lookback votes exactly neutral.
pub proof fn lemma_cyc_short_window(cs: Seq<Candle>)
    ensures
        cs.len() < 34 ==> cyc_signal(cs) == 0,
{
}

pub struct CycCalculate {
    pub candles: Vec<Candle>,
}

impl BaseCalculate for CycCalculate {
    open spec fn wf(&self) -> bool {
        candles_ok(self.candles@)
    }

    open spec fn signal_spec(&self) -> int {
        cyc_signal(self.candles@)
    }

    open spec fn name_spec(&self) -> Seq<char> {
        "KDJ"@
    }

    open spec fn description_spec(&self) -> Seq<char> {
        "KDJ indicator"@
    }

    proof fn lemma_signal_range(&self) {
    }

    fn calculate(&self) -> (r: i64) {
        let mut cyc = CYC::default();
        let (_short_cyc, _mid_cyc, _long_cyc) = cyc.calculate(self.candles.as_slice());
        // A window too short to carry any line votes neutral.
        if self.candles.len() == 0 {
            return 0;
        }
        let current_price = self.candles[self.candles.len() - 1].close;
        let threshold: i64 = 5;
        cyc.generate_signal(current_price, threshold)
    }

    fn get_name(&self) -> (r: String) {
        "KDJ".to_owned()
    }

    fn get_description(&self) -> (r: String) {
        "KDJ indicator".to_owned()
    }
}

} // verus!

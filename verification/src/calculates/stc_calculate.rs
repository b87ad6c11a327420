//! STC signal calculator with the (12, 26, 50) parameters: votes on
//! the latest bar's red or green signal.

use vstd::prelude::*;
use crate::calculates::base_calculate::BaseCalculate;
use crate::candle::{Candle, candles_ok};
use crate::indicators::macd::closes;
use crate::indicators::schaff_trend_cycle::{
    SchaffTrendCycle, STC_GREEN, STC_RED, green_at, red_at, stc_at,
};

verus! {

/// The STC vote over a candle window: -1 when the latest bar shows a
/// red peak above 75, +1 on a green trough below 25, else 0.  Windows
/// shorter than the slow period give the neutral 0.
pub open spec fn stc_signal(cs: Seq<Candle>) -> int {
    if cs.len() < 50 {
        0
    } else {
        let ps = closes(cs);
        let n = cs.len() as int;
        let v = stc_at(ps, 12, 26, 50, n - 1);
        if red_at(ps, 12, 26, 50, n - 1) && v > STC_RED {
            -1
        } else if green_at(ps, 12, 26, 50, n - 1) && v < STC_GREEN {
            1
        } else {
            0
        }
    }
}

/// A window shorter than the slow period votes exactly neutral.
pub proof fn lemma_stc_short_window(cs: Seq<Candle>)
    ensures
        cs.len() < 50 ==> stc_signal(cs) == 0,
{
}

pub struct STCCalculate {
    pub candles: Vec<Candle>,
}

impl BaseCalculate for STCCalculate {
    open spec fn wf(&self) -> bool {
        candles_ok(self.candles@)
    }

    open spec fn signal_spec(&self) -> int {
        stc_signal(self.candles@)
    }

    open spec fn name_spec(&self) -> Seq<char> {
        "STC"@
    }

    open spec fn description_spec(&self) -> Seq<char> {
        "STC indicator"@
    }

    proof fn lemma_signal_range(&self) {
    }

    fn calculate(&self) -> (r: i64) {
        let mut stc = SchaffTrendCycle::new(12, 26, 50);
        let signals = stc.calculate(self.candles.as_slice());
        if signals.len() == 0 {
            return 0;
        }
        let (stc_value, red_signal, green_signal) = signals[signals.len() - 1];
        if red_signal && stc_value > STC_RED {
            return -1;
        }
        if green_signal && stc_value < STC_GREEN {
            return 1;
        }
        0
    }

    fn get_name(&self) -> (r: String) {
        "STC".to_owned()
    }

    fn get_description(&self) -> (r: String) {
        "STC indicator".to_owned()
    }
}

} // verus!

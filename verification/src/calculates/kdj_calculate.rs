//! KDJ signal calculator: golden cross or oversold vote buy, death
//! cross or overbought vote sell.

use vstd::prelude::*;
use crate::calculates::base_calculate::BaseCalculate;
use crate::candle::{Candle, candles_ok};
use crate::indicators::kdj::{KDJ, d_at, k_at};

verus! {

/// The fixed-point oversold threshold 20.0.
pub const KDJ_OVERSOLD: i64 = 200_000;

/// The fixed-point overbought threshold 80.0.
pub const KDJ_OVERBOUGHT: i64 = 800_000;

/// The KDJ vote over a candle window, with the conventional periods
/// (9, 3, 3): +1 on a golden cross or when K and D sit below 20, -1 on
/// a death cross or when both sit above 80, else 0.  Windows shorter
/// than the lookback give the neutral 0.
pub open spec fn kdj_signal(cs: Seq<Candle>) -> int {
    if cs.len() < 9 {
        0
    } else {
        let n = cs.len() as int;
        let k_prev = k_at(cs, 9, 3, n - 2);
        let d_prev = d_at(cs, 9, 3, n - 2);
        let k_last = k_at(cs, 9, 3, n - 1);
        let d_last = d_at(cs, 9, 3, n - 1);
        if k_prev < d_prev && k_last > d_last {
            1
        } else if k_last < KDJ_OVERSOLD && d_last < KDJ_OVERSOLD {
            1
        } else if k_prev > d_prev && k_last < d_last {
            -1
        } else if k_last > KDJ_OVERBOUGHT && d_last > KDJ_OVERBOUGHT {
            -1
        } else {
            0
        }
    }
}

/// A window shorter than the KDJ lookback votes exactly neutral.
pub proof fn lemma_kdj_short_window(cs: Seq<Candle>)
    ensures
        cs.len() < 9 ==> kdj_signal(cs) == 0,
{
}

pub struct KdjCalculate {
    pub candles: Vec<Candle>,
}

impl BaseCalculate for KdjCalculate {
    open spec fn wf(&self) -> bool {
        candles_ok(self.candles@)
    }

    open spec fn signal_spec(&self) -> int {
        kdj_signal(self.candles@)
    }

    open spec fn name_spec(&self) -> Seq<char> {
        "KDJ"@
    }

    open spec fn description_spec(&self) -> Seq<char> {
        "KDJ indicator"@
    }

    proof fn lemma_signal_range(&self) {
    }

    fn calculate(&self) -> (r: i64) {
        let mut kdj = KDJ::default();
        kdj.calculate(self.candles.as_slice());
        if kdj.is_golden_cross() {
            return 1;
        }
        if kdj.is_oversold(KDJ_OVERSOLD) {
            return 1;
        }
        if kdj.is_death_cross() {
            return -1;
        }
        if kdj.is_overbought(KDJ_OVERBOUGHT) {
            return -1;
        }
        0
    }

    fn get_name(&self) -> (r: String) {
        "KDJ".to_owned()
    }

    fn get_description(&self) -> (r: String) {
        "KDJ indicator".to_owned()
    }
}

} // verus!

//! Technical-rating adapter: a strong vote when any of the three
//! graded recommendations leans firmly one way.

use vstd::prelude::*;
use crate::calculates::base_calculate::BaseCalculate;
use crate::indicators::tradingview_technicals::TradingTechnicals;

verus! {

/// The technical-rating vote: +3 when any grade reaches +1, else -3
/// when any grade reaches -1, else 0.
pub open spec fn technicals_signal(t: TradingTechnicals) -> int {
    let (a, b, c) = t.grades_spec();
    if a >= 1 || b >= 1 || c >= 1 {
        3
    } else if a <= -1 || b <= -1 || c <= -1 {
        -3
    } else {
        0
    }
}

pub struct TechnicalsCalculate {
    pub technicals: TradingTechnicals,
}

impl BaseCalculate for TechnicalsCalculate {
    open spec fn wf(&self) -> bool {
        true
    }

    open spec fn signal_spec(&self) -> int {
        technicals_signal(self.technicals)
    }

    open spec fn name_spec(&self) -> Seq<char> {
        "Tradingview Technicals"@
    }

    open spec fn description_spec(&self) -> Seq<char> {
        "Tradingview Technicals indicator"@
    }

    proof fn lemma_signal_range(&self) {
    }

    fn calculate(&self) -> (r: i64) {
        let mut technicals = TradingTechnicals { values: self.technicals.values };
        let (summary_signal, ma_signal, osc_signal) = technicals.calculate();
        if summary_signal >= 1 || ma_signal >= 1 || osc_signal >= 1 {
            3
        } else if summary_signal <= -1 || ma_signal <= -1 || osc_signal <= -1 {
            -3
        } else {
            0
        }
    }

    fn get_name(&self) -> (r: String) {
        "Tradingview Technicals".to_owned()
    }

    fn get_description(&self) -> (r: String) {
        "Tradingview Technicals indicator".to_owned()
    }
}

} // verus!

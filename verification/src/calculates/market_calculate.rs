//! Market temperature adapter: maps an externally supplied market
//! snapshot to a strong vote through fixed threshold bands, first
//! match winning.

use vstd::prelude::*;
use crate::calculates::base_calculate::BaseCalculate;

verus! {

/// The aggregate market snapshot the adapter reads: three integer
/// gauges supplied by an outside market-data collaborator.
#[derive(Clone, Copy, Debug, PartialEq, Eq, Structural)]
pub struct MarketTemperature {
    pub temperature: i32,
    pub valuation: i32,
    pub sentiment: i32,
}

/// The market-temperature vote: the first matching band wins.
pub open spec fn market_signal(m: MarketTemperature) -> int {
    if m.sentiment > 70 {
        -2
    } else if m.sentiment < 24 {
        2
    } else if m.temperature < 30 {
        2
    } else if m.temperature > 55 {
        -2
    } else if m.valuation > 50 {
        -2
    } else if m.valuation < 30 {
        2
    } else {
        0
    }
}

pub struct MarketCalculate {
    pub market: MarketTemperature,
}

impl BaseCalculate for MarketCalculate {
    open spec fn wf(&self) -> bool {
        true
    }

    open spec fn signal_spec(&self) -> int {
        market_signal(self.market)
    }

    open spec fn name_spec(&self) -> Seq<char> {
        "Market Temperature"@
    }

    open spec fn description_spec(&self) -> Seq<char> {
        "Market Temperature indicator"@
    }

    proof fn lemma_signal_range(&self) {
    }

    fn calculate(&self) -> (r: i64) {
        if self.market.sentiment > 70 {
            return -2;
        }
        if self.market.sentiment < 24 {
            return 2;
        }
        if self.market.temperature < 30 {
            return 2;
        }
        if self.market.temperature > 55 {
            return -2;
        }
        if self.market.valuation > 50 {
            return -2;
        }
        if self.market.valuation < 30 {
            return 2;
        }
        0
    }

    fn get_name(&self) -> (r: String) {
        "Market Temperature".to_owned()
    }

    fn get_description(&self) -> (r: String) {
        "Market Temperature indicator".to_owned()
    }
}

} // verus!

//! The aggregator: a list of calculators and one rule.  The
//! calculator list is a tagged union of the concrete calculators, so
//! the whole reduction stays a pure function of their state.

use vstd::prelude::*;
use crate::calculates::base_calculate::BaseCalculate;
use crate::calculates::cyc_calculate::CycCalculate;
use crate::calculates::kdj_calculate::KdjCalculate;
use crate::calculates::macd_calculate::MacdCalculate;
use crate::calculates::market_calculate::MarketCalculate;
use crate::calculates::stc_calculate::STCCalculate;
use crate::calculates::technicals_calculate::TechnicalsCalculate;
use crate::calculates::utbot_calculate::UTBotCalculate;
use crate::computes::defult_rules::CulRules;

verus! {

/// One calculator of the aggregator's list.
pub enum Calculator {
    Kdj(KdjCalculate),
    Macd(MacdCalculate),
    Stc(STCCalculate),
    UtBot(UTBotCalculate),
    Cyc(CycCalculate),
    Market(MarketCalculate),
    Technicals(TechnicalsCalculate),
}

impl BaseCalculate for Calculator {
    open spec fn wf(&self) -> bool {
        match self {
            Calculator::Kdj(c) => c.wf(),
            Calculator::Macd(c) => c.wf(),
            Calculator::Stc(c) => c.wf(),
            Calculator::UtBot(c) => c.wf(),
            Calculator::Cyc(c) => c.wf(),
            Calculator::Market(c) => c.wf(),
            Calculator::Technicals(c) => c.wf(),
        }
    }

    open spec fn signal_spec(&self) -> int {
        match self {
            Calculator::Kdj(c) => c.signal_spec(),
            Calculator::Macd(c) => c.signal_spec(),
            Calculator::Stc(c) => c.signal_spec(),
            Calculator::UtBot(c) => c.signal_spec(),
            Calculator::Cyc(c) => c.signal_spec(),
            Calculator::Market(c) => c.signal_spec(),
            Calculator::Technicals(c) => c.signal_spec(),
        }
    }

    open spec fn name_spec(&self) -> Seq<char> {
        match self {
            Calculator::Kdj(c) => c.name_spec(),
            Calculator::Macd(c) => c.name_spec(),
            Calculator::Stc(c) => c.name_spec(),
            Calculator::UtBot(c) => c.name_spec(),
            Calculator::Cyc(c) => c.name_spec(),
            Calculator::Market(c) => c.name_spec(),
            Calculator::Technicals(c) => c.name_spec(),
        }
    }

    open spec fn description_spec(&self) -> Seq<char> {
        match self {
            Calculator::Kdj(c) => c.description_spec(),
            Calculator::Macd(c) => c.description_spec(),
            Calculator::Stc(c) => c.description_spec(),
            Calculator::UtBot(c) => c.description_spec(),
            Calculator::Cyc(c) => c.description_spec(),
            Calculator::Market(c) => c.description_spec(),
            Calculator::Technicals(c) => c.description_spec(),
        }
    }

    proof fn lemma_signal_range(&self) {
        match self {
            Calculator::Kdj(c) => c.lemma_signal_range(),
            Calculator::Macd(c) => c.lemma_signal_range(),
            Calculator::Stc(c) => c.lemma_signal_range(),
            Calculator::UtBot(c) => c.lemma_signal_range(),
            Calculator::Cyc(c) => c.lemma_signal_range(),
            Calculator::Market(c) => c.lemma_signal_range(),
            Calculator::Technicals(c) => c.lemma_signal_range(),
        }
    }

    fn calculate(&self) -> (r: i64) {
        match self {
            Calculator::Kdj(c) => c.calculate(),
            Calculator::Macd(c) => c.calculate(),
            Calculator::Stc(c) => c.calculate(),
            Calculator::UtBot(c) => c.calculate(),
            Calculator::Cyc(c) => c.calculate(),
            Calculator::Market(c) => c.calculate(),
            Calculator::Technicals(c) => c.calculate(),
        }
    }

    fn get_name(&self) -> (r: String) {
        match self {
            Calculator::Kdj(c) => c.get_name(),
            Calculator::Macd(c) => c.get_name(),
            Calculator::Stc(c) => c.get_name(),
            Calculator::UtBot(c) => c.get_name(),
            Calculator::Cyc(c) => c.get_name(),
            Calculator::Market(c) => c.get_name(),
            Calculator::Technicals(c) => c.get_name(),
        }
    }

    fn get_description(&self) -> (r: String) {
        match self {
            Calculator::Kdj(c) => c.get_description(),
            Calculator::Macd(c) => c.get_description(),
            Calculator::Stc(c) => c.get_description(),
            Calculator::UtBot(c) => c.get_description(),
            Calculator::Cyc(c) => c.get_description(),
            Calculator::Market(c) => c.get_description(),
            Calculator::Technicals(c) => c.get_description(),
        }
    }
}

/// The aggregator.
pub struct Calculate<R: CulRules> {
    pub calculators: Vec<Calculator>,
    pub rules: R,
}

impl<R: CulRules> Calculate<R> {
    /// The signal vector the rule is applied to: one signal per
    /// calculator, in list order.
    pub open spec fn signals_spec(&self) -> Seq<i64> {
        Seq::new(self.calculators@.len(), |i: int| self.calculators@[i].signal_spec() as i64)
    }

    pub open spec fn wf(&self) -> bool {
        forall|i: int| 0 <= i < self.calculators@.len()
            ==> (#[trigger] self.calculators@[i]).wf()
    }

    pub fn new(rules: R) -> (r: Self)
        ensures
            r.calculators@.len() == 0,
            r.rules == rules,
    {
        Self { calculators: Vec::new(), rules }
    }

    pub fn add_calculator(&mut self, calculator: Calculator)
        ensures
            final(self).calculators@ == old(self).calculators@.push(calculator),
            final(self).rules == old(self).rules,
    {
        self.calculators.push(calculator);
    }

    /// Runs every calculator and reduces the signal vector with the
    /// rule: the result is exactly the rule's decision over the
    /// calculators' signals.
    pub fn execute_rules(&self) -> (r: i64)
        requires
            self.wf(),
        ensures
            r as int == self.rules.rule_spec(self.signals_spec()),
    {
        let n = self.calculators.len();
        let mut cul_res: Vec<i64> = Vec::new();
        let mut i: usize = 0;
        while i < n
            invariant
                self.wf(),
                n == self.calculators@.len(),
                i <= n,
                cul_res@.len() == i,
                forall|j: int| 0 <= j < i
                    ==> cul_res@[j] as int == (#[trigger] self.calculators@[j]).signal_spec(),
            decreases n - i,
        {
            proof {
                self.calculators@[i as int].lemma_signal_range();
            }
            let cul = self.calculators[i].calculate();
            cul_res.push(cul);
            i = i + 1;
        }
        proof {
            assert(cul_res@ =~= self.signals_spec());
        }
        self.rules.cul_rules(cul_res)
    }
}

} // verus!

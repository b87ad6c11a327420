//! The replaceable aggregation rule, and the default threshold-sum
//! rule: sum all signals; at or above +3 vote 1, at or below -3 vote
//! -1, else 0.

use vstd::prelude::*;
use crate::fixed::iabs;

verus! {

/// Sum of the first `k` signals.
pub open spec fn isum(s: Seq<i64>, k: int) -> int
    decreases k,
{
    if k <= 0 {
        0
    } else {
        isum(s, k - 1) + s[k - 1]
    }
}

/// An aggregation rule.  `rule_spec` pins the decision down as a
/// mathematical function of the signal vector; `cul_rules` computes
/// exactly that value for every input vector.
pub trait CulRules {
    /// The decision, as a function of the signal vector.
    spec fn rule_spec(&self, res: Seq<i64>) -> int;

    fn create(&self) -> Self where Self: Sized;

    fn cul_rules(&self, res: Vec<i64>) -> (r: i64)
        ensures
            r as int == self.rule_spec(res@),
    ;
}

/// The default threshold-sum rule.
pub struct DefultRules {}

/// The decision of the default rule over a signal vector.
pub open spec fn default_rule(res: Seq<i64>) -> int {
    let total = isum(res, res.len() as int);
    if total >= 3 {
        1
    } else if total <= -3 {
        -1
    } else {
        0
    }
}

/// A signal vector summing to at least 3 decides 1 (buy), one summing
/// to at most -3 decides -1 (sell), and any other decides 0.
pub proof fn lemma_default_rule_thresholds(res: Seq<i64>)
    ensures
        isum(res, res.len() as int) >= 3 ==> default_rule(res) == 1,
        isum(res, res.len() as int) <= -3 ==> default_rule(res) == -1,
        -3 < isum(res, res.len() as int) < 3 ==> default_rule(res) == 0,
{
}

impl CulRules for DefultRules {
    open spec fn rule_spec(&self, res: Seq<i64>) -> int {
        default_rule(res)
    }

    fn create(&self) -> Self {
        DefultRules {  }
    }

    fn cul_rules(&self, res: Vec<i64>) -> (r: i64) {
        let n = res.len();
        let mut cul_res: i128 = 0;
        let mut i: usize = 0;
        while i < n
            invariant
                n == res@.len(),
                i <= n,
                cul_res as int == isum(res@, i as int),
                iabs(cul_res as int) <= i * 0x8000_0000_0000_0000,
            decreases n - i,
        {
            proof {
                assert(i * 0x8000_0000_0000_0000int + 0x8000_0000_0000_0000
                    == (i + 1) * 0x8000_0000_0000_0000) by {
                    vstd::arithmetic::mul::lemma_mul_is_distributive_add_other_way(
                        0x8000_0000_0000_0000int, i as int, 1);
                }
                vstd::arithmetic::mul::lemma_mul_inequality(
                    i + 1 as int, 0x1_0000_0000_0000_0000int, 0x8000_0000_0000_0000int);
            }
            cul_res = cul_res + res[i] as i128;
            i = i + 1;
        }

        if cul_res >= 3 {
            return 1;
        }
        if cul_res <= -3 {
            return -1;
        }
        0
    }
}

} // verus!

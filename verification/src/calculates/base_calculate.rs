//! The capability every signal calculator offers: reduce its input to
//! one small signed signal, and name itself.

use vstd::prelude::*;

verus! {

/// A signal calculator.  `signal_spec` pins the signal down as a
/// mathematical function of the calculator's state; `calculate`
/// computes exactly that value, which always lies in `-3..=3`.
pub trait BaseCalculate {
    /// The inputs the calculator accepts (bounded candles, in-range
    /// snapshot values).
    spec fn wf(&self) -> bool;

    /// The signal, as a function of the calculator's state.
    spec fn signal_spec(&self) -> int;

    /// The calculator's name.
    spec fn name_spec(&self) -> Seq<char>;

    /// The calculator's description.
    spec fn description_spec(&self) -> Seq<char>;

    /// Every signal is a small vote: between -3 and 3.
    proof fn lemma_signal_range(&self)
        ensures
            -3 <= self.signal_spec() <= 3,
    ;

    fn calculate(&self) -> (r: i64)
        requires
            self.wf(),
        ensures
            r as int == self.signal_spec(),
    ;

    fn get_name(&self) -> (r: String)
        ensures
            r@ == self.name_spec(),
    ;

    fn get_description(&self) -> (r: String)
        ensures
            r@ == self.description_spec(),
    ;
}

} // verus!

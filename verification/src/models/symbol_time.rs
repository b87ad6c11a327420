//! Per-symbol evaluation cadence: the candle interval and the next
//! time the symbol becomes eligible for evaluation.

use vstd::prelude::*;

verus! {

/// One symbol's evaluation-time state, in unix seconds.
#[derive(Clone, Debug)]
pub struct SymbolTimeData {
    pub symbol: String,
    pub interval_time: u64,
    pub next_time: u64,
    pub last_time: u64,
}

impl SymbolTimeData {
    /// The empty state: no symbol, everything zero.
    pub fn new() -> (r: Self)
        ensures
            r.symbol@.len() == 0,
            r.interval_time == 0,
            r.next_time == 0,
            r.last_time == 0,
    {
        SymbolTimeData {
            symbol: String::new(),
            interval_time: 0,
            next_time: 0,
            last_time: 0,
        }
    }
}

} // verus!

//! One market tick: the quote snapshot a price event delivers.

use vstd::prelude::*;

verus! {

/// A quote event for one symbol.  Prices are fixed point (see
/// [`crate::fixed`]); `ts` is the event time in unix seconds.
#[derive(Clone, Debug)]
pub struct MarketData {
    pub symbol: String,
    pub price: i64,
    pub change: i64,
    pub volume: i64,
    pub high: i64,
    pub low: i64,
    pub open: i64,
    pub close: i64,
    pub ts: i64,
}

} // verus!

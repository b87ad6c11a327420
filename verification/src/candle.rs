//! The OHLCV unit every calculator consumes.
//!
//! Prices and volumes are fixed-point integers (see [`crate::fixed`]).
//! A candle sequence is supplied by the caller, ordered by timestamp,
//! and is never mutated by a calculator.

use vstd::prelude::*;
use crate::fixed::{LEN_MAX, PRICE_MAX, VOLUME_MAX};

verus! {

/// One candle: timestamp in seconds, scaled OHLC prices, scaled
/// volume.
#[derive(Clone, Copy, Debug)]
pub struct Candle {
    pub timestamp: u64,
    pub open: i64,
    pub high: i64,
    pub low: i64,
    pub close: i64,
    pub volume: i64,
}

/// Prices and volume lie in the machine range the calculators accept.
pub open spec fn candle_ok(c: Candle) -> bool {
    &&& 0 <= c.open <= PRICE_MAX
    &&& 0 <= c.high <= PRICE_MAX
    &&& 0 <= c.low <= PRICE_MAX
    &&& 0 <= c.close <= PRICE_MAX
    &&& 0 <= c.volume <= VOLUME_MAX
}

/// A candle window the calculators accept: bounded length, every
/// candle in range.
pub open spec fn candles_ok(cs: Seq<Candle>) -> bool {
    &&& cs.len() <= LEN_MAX
    &&& forall|i: int| 0 <= i < cs.len() ==> candle_ok(#[trigger] cs[i])
}

} // verus!

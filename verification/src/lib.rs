//! Streaming technical-indicator calculators, a pluggable signal
//! aggregator, and the order-gating decision logic of a candle-driven
//! trading strategy.  All numeric state is fixed-point (see [`fixed`]);
//! the surrounding process converts broker quantities at the boundary.

pub mod calculates;
pub mod candle;
pub mod computes;
pub mod config;
pub mod fixed;
pub mod indicators;
pub mod models;
pub mod strategys;

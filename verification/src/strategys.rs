//! The strategy decision state machine: per-symbol cadence gating,
//! order throttling, profit taking and order sizing.

pub mod vecor_v1;

//! The streaming indicator implementations.

pub mod kdj;
pub mod macd;
pub mod schaff_trend_cycle;
pub mod tradingview_technicals;
pub mod cyc;
pub mod utbot;

//! The per-indicator signal calculators behind the common
//! [`base_calculate::BaseCalculate`] capability.

pub mod base_calculate;
pub mod cyc_calculate;
pub mod kdj_calculate;
pub mod macd_calculate;
pub mod market_calculate;
pub mod stc_calculate;
pub mod technicals_calculate;
pub mod utbot_calculate;

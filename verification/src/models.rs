//! Plain data carried between the collaborators and the strategy.

pub mod market;
pub mod symbol_time;

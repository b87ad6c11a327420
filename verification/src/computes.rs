//! The rule engine: collects one signal per calculator and reduces the
//! vector to a single decision value through a replaceable rule.

pub mod calculate;
pub mod defult_rules;

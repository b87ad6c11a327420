//! Per-symbol strategy configuration.  Loading it from a file is the
//! surrounding process's concern; the library only holds the values.

use vstd::prelude::*;

verus! {

/// One symbol's configuration.  `volume` is the position fraction in
/// fixed point (see [`crate::fixed::SCALE`]); `tp_ratio` and
/// `sl_ratio` are take-profit and stop-loss percentages.
#[derive(Clone, Debug)]
pub struct SymbolConfig {
    pub symbol: String,
    pub symbol_type: String,
    pub volume: i64,
    pub period: String,
    pub tp_ratio: i32,
    pub sl_ratio: i32,
}

impl SymbolConfig {
    /// The empty configuration: no symbol, everything zero.
    pub fn new() -> (r: Self)
        ensures
            r.symbol@.len() == 0,
            r.symbol_type@.len() == 0,
            r.volume == 0,
            r.period@.len() == 0,
            r.tp_ratio == 0,
            r.sl_ratio == 0,
    {
        SymbolConfig {
            symbol: String::new(),
            symbol_type: String::new(),
            volume: 0,
            period: String::new(),
            tp_ratio: 0,
            sl_ratio: 0,
        }
    }
}

/// The full configuration: one entry per traded symbol.
#[derive(Clone, Debug)]
pub struct Configs {
    pub symbols: Vec<SymbolConfig>,
}

/// Database connection settings.
#[derive(Clone, Debug)]
pub struct DatabaseConfig {
    pub url: String,
}

/// Logging settings.
#[derive(Clone, Debug)]
pub struct LoggingConfig {
    pub level: String,
}

} // verus!

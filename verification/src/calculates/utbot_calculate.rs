//! UT Bot signal calculator: votes with the current long/short state,
//! falling back to the latest crossing signal.

use vstd::prelude::*;
use crate::calculates::base_calculate::BaseCalculate;
use crate::candle::{Candle, candles_ok};
use crate::fixed::SCALE;
use crate::indicators::utbot::{UTBot, buy_sig_at, sell_sig_at, src_at, stop_at};

verus! {

/// The UT Bot vote over a candle window, with sensitivity 1.0 and ATR
/// period 10: +1 when the latest source sits above the stop or the
/// latest bar fired a buy signal, -1 symmetrically, else 0.  Windows
/// shorter than the ATR period give the neutral 0.
pub open spec fn utbot_signal(cs: Seq<Candle>) -> int {
    if cs.len() < 10 {
        0
    } else {
        let n = cs.len() as int;
        let kv = SCALE as int;
        if src_at(cs, false, n - 1) > stop_at(cs, kv, 10, false, n - 1) {
            1
        } else if src_at(cs, false, n - 1) < stop_at(cs, kv, 10, false, n - 1) {
            -1
        } else if buy_sig_at(cs, kv, 10, false, n - 1) {
            1
        } else if sell_sig_at(cs, kv, 10, false, n - 1) {
            -1
        } else {
            0
        }
    }
}

/// A window shorter than the ATR period votes exactly neutral.
pub proof fn lemma_utbot_short_window(cs: Seq<Candle>)
    ensures
        cs.len() < 10 ==> utbot_signal(cs) == 0,
{
}

pub struct UTBotCalculate {
    pub candles: Vec<Candle>,
}

impl BaseCalculate for UTBotCalculate {
    open spec fn wf(&self) -> bool {
        candles_ok(self.candles@)
    }

    open spec fn signal_spec(&self) -> int {
        utbot_signal(self.candles@)
    }

    open spec fn name_spec(&self) -> Seq<char> {
        "UTBOT"@
    }

    open spec fn description_spec(&self) -> Seq<char> {
        "UTBOT indicator"@
    }

    proof fn lemma_signal_range(&self) {
    }

    fn calculate(&self) -> (r: i64) {
        let mut ubot = UTBot::new(SCALE, 10, false);
        ubot.calculate(self.candles.as_slice());

        if ubot.is_long() {
            return 1;
        } else if ubot.is_short() {
            return -1;
        }
        let buy_signals = ubot.buy_signals();
        if buy_signals.len() > 0 {
            if buy_signals[buy_signals.len() - 1] {
                return 1;
            }
        }
        let sell_signals = ubot.sell_signals();
        if sell_signals.len() > 0 {
            if sell_signals[sell_signals.len() - 1] {
                return -1;
            }
        }
        0
    }

    fn get_name(&self) -> (r: String) {
        "UTBOT".to_owned()
    }

    fn get_description(&self) -> (r: String) {
        "UTBOT indicator".to_owned()
    }
}

} // verus!

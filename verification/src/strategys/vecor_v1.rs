//! The candle-vector strategy: one decision per qualifying tick.
//!
//! On each tick the strategy checks that the newest candle has closed,
//! tries the take-profit exit first, otherwise aggregates the
//! indicator votes into a decision, suppresses entries too close to
//! the existing cost basis, sizes the order from the available cash,
//! and gates it against the day's order history.

use vstd::prelude::*;
use crate::calculates::cyc_calculate::{CycCalculate, cyc_signal};
use crate::calculates::kdj_calculate::{KdjCalculate, kdj_signal};
use crate::calculates::macd_calculate::{MacdCalculate, macd_signal};
use crate::calculates::stc_calculate::{STCCalculate, stc_signal};
use crate::calculates::technicals_calculate::{TechnicalsCalculate, technicals_signal};
use crate::calculates::utbot_calculate::{UTBotCalculate, utbot_signal};
use crate::candle::{Candle, candles_ok};
use crate::computes::calculate::{Calculate, Calculator};
use crate::computes::defult_rules::{CulRules, DefultRules, default_rule};
use crate::config::SymbolConfig;
use crate::fixed::{div_trunc, div_i64, div_i128, PRICE_MAX};
use crate::indicators::tradingview_technicals::TradingTechnicals;
use crate::models::market::MarketData;
use crate::models::symbol_time::SymbolTimeData;

verus! {

/// Largest timestamp the strategy accepts, in unix seconds.
pub const TS_LIMIT: i64 = 0x1000_0000_0000_0000;

/// Largest scaled cash amount the strategy accepts.
pub const CASH_MAX: i64 = 1_000_000_000_000_000;

/// Largest position fraction the strategy accepts: 100.0 in fixed
/// point.
pub const VOLUME_FRACTION_MAX: i64 = 1_000_000;

/// Largest take-profit or stop-loss percentage the strategy accepts.
pub const RATIO_MAX: i32 = 10_000;

/// The default throttle window between orders for one symbol, in
/// seconds: two hours.
pub const DEFAULT_THROTTLE_WINDOW: i64 = 7_200;

/// The direction of an order, or no direction at all.
#[derive(Clone, Copy, Debug, PartialEq, Eq, Structural)]
pub enum OrderSide {
    Buy,
    Sell,
    Unknown,
}

/// The lifecycle state of a submitted order.
#[derive(Clone, Copy, Debug, PartialEq, Eq, Structural)]
pub enum OrderStatus {
    New,
    WaitToNew,
    PartialFilled,
    NotReported,
    Filled,
    Canceled,
    Rejected,
    Expired,
    Unknown,
}

/// One order of the day's history.
#[derive(Clone, Debug)]
pub struct OrderInfo {
    pub symbol: String,
    pub status: OrderStatus,
    pub submitted_at: i64,
    pub order_id: String,
}

/// One stock position.
#[derive(Clone, Debug)]
pub struct StockPosition {
    pub symbol: String,
    pub quantity: i64,
    pub available_quantity: i64,
    pub cost_price: i64,
}

/// One account channel's positions.
#[derive(Clone, Debug)]
pub struct StockPositionChannel {
    pub positions: Vec<StockPosition>,
}

/// Cash held in one currency.
#[derive(Clone, Debug)]
pub struct CashInfo {
    pub currency: String,
    pub available_cash: i64,
    pub withdraw_cash: i64,
}

/// One account's balances.
#[derive(Clone, Debug)]
pub struct AccountBalance {
    pub cash_infos: Vec<CashInfo>,
}

/// What the order-history gate decides for this cycle.
#[derive(Clone, Debug)]
pub enum OrderGate {
    /// No blocking order: an order may be submitted.
    Proceed,
    /// An order for the symbol was submitted inside the throttle
    /// window: submit nothing.
    Throttled,
    /// An order for the symbol sits in a non-terminal state: request
    /// its cancellation and submit nothing this cycle.
    CancelOrder(String),
}

/// The single action one tick may produce.
#[derive(Clone, Debug)]
pub enum OrderIntent {
    /// Do nothing this tick.
    NoOp,
    /// Submit one order.
    Submit { side: OrderSide, price: i64, quantity: i64 },
    /// Cancel one existing order and submit nothing.
    Cancel { order_id: String },
}

/// Index of the last configuration whose symbol matches, or -1.
pub open spec fn sym_cfg_match(cfgs: Seq<SymbolConfig>, sym: Seq<char>) -> int
    decreases cfgs.len(),
{
    if cfgs.len() == 0 {
        -1
    } else if cfgs.last().symbol@ == sym {
        cfgs.len() - 1
    } else {
        sym_cfg_match(cfgs.drop_last(), sym)
    }
}

/// Index of the last time entry whose symbol matches, or -1.
pub open spec fn sym_time_match(list: Seq<SymbolTimeData>, sym: Seq<char>) -> int
    decreases list.len(),
{
    if list.len() == 0 {
        -1
    } else if list.last().symbol@ == sym {
        list.len() - 1
    } else {
        sym_time_match(list.drop_last(), sym)
    }
}

/// Index of the last position whose symbol matches, or -1.
pub open spec fn pos_match_in(ps: Seq<StockPosition>, sym: Seq<char>) -> int
    decreases ps.len(),
{
    if ps.len() == 0 {
        -1
    } else if ps.last().symbol@ == sym {
        ps.len() - 1
    } else {
        pos_match_in(ps.drop_last(), sym)
    }
}

/// Channel and position index of the winning match, or (-1, -1): the
/// last matching position of the last channel that has one.
pub open spec fn pos_match(chs: Seq<StockPositionChannel>, sym: Seq<char>) -> (int, int)
    decreases chs.len(),
{
    if chs.len() == 0 {
        (-1int, -1int)
    } else {
        let pi = pos_match_in(chs.last().positions@, sym);
        if pi >= 0 {
            (chs.len() - 1, pi)
        } else {
            pos_match(chs.drop_last(), sym)
        }
    }
}

/// An order in one of these states blocks and is asked to cancel.
pub open spec fn nonterminal(st: OrderStatus) -> bool {
    st == OrderStatus::New || st == OrderStatus::WaitToNew
        || st == OrderStatus::PartialFilled || st == OrderStatus::NotReported
}

/// The order-history gate, scanning from index `k`: (0, -1) to
/// proceed, (1, i) when order `i` throttles, (2, i) when order `i` is
/// to be cancelled.
pub open spec fn gate_from(orders: Seq<OrderInfo>, sym: Seq<char>, now: int, window: int,
    k: int) -> (int, int)
    decreases orders.len() - k,
{
    if k < 0 || k >= orders.len() {
        (0int, -1int)
    } else if orders[k].symbol@ == sym {
        if orders[k].submitted_at > now - window {
            (1int, k)
        } else if nonterminal(orders[k].status) {
            (2int, k)
        } else {
            gate_from(orders, sym, now, window, k + 1)
        }
    } else {
        gate_from(orders, sym, now, window, k + 1)
    }
}

/// The order-history gate over the whole history.
pub open spec fn order_gate(orders: Seq<OrderInfo>, sym: Seq<char>, now: int,
    window: int) -> (int, int) {
    gate_from(orders, sym, now, window, 0)
}

/// A recent entry in the history for this name forces a block; when
/// every entry names something else, the scan ends open.
pub proof fn lemma_order_gate(orders: Seq<OrderInfo>, sym: Seq<char>, now: int, window: int)
    ensures
        (exists|i: int| 0 <= i < orders.len() && (#[trigger] orders[i]).symbol@ == sym
            && orders[i].submitted_at > now - window)
            ==> order_gate(orders, sym, now, window).0 != 0,
        (forall|i: int| 0 <= i < orders.len() ==> (#[trigger] orders[i]).symbol@ != sym)
            ==> order_gate(orders, sym, now, window) == (0int, -1int),
{
    lemma_gate_from(orders, sym, now, window, 0);
}

/// The scan's first component is always one of its three outcomes,
/// and a blocking outcome carries a valid index.
pub proof fn lemma_gate_kind(orders: Seq<OrderInfo>, sym: Seq<char>, now: int, window: int,
    k: int)
    requires
        0 <= k <= orders.len(),
    ensures
        ({
            let g = gate_from(orders, sym, now, window, k);
            &&& g.0 == 0 || g.0 == 1 || g.0 == 2
            &&& g.0 != 0 ==> 0 <= g.1 < orders.len()
        }),
    decreases orders.len() - k,
{
    if k < orders.len() {
        lemma_gate_kind(orders, sym, now, window, k + 1);
    }
}

proof fn lemma_gate_from(orders: Seq<OrderInfo>, sym: Seq<char>, now: int, window: int, k: int)
    requires
        0 <= k <= orders.len(),
    ensures
        (exists|i: int| k <= i < orders.len() && (#[trigger] orders[i]).symbol@ == sym
            && orders[i].submitted_at > now - window)
            ==> gate_from(orders, sym, now, window, k).0 != 0,
        (forall|i: int| k <= i < orders.len() ==> (#[trigger] orders[i]).symbol@ != sym)
            ==> gate_from(orders, sym, now, window, k) == (0int, -1int),
    decreases orders.len() - k,
{
    if k < orders.len() {
        lemma_gate_from(orders, sym, now, window, k + 1);
    }
}

/// The take-profit exit: the pre-pullback close shows a gain past the
/// configured ratio, and the newest bar pulls back more than 0.1%
/// from it.  The gain is judged at the peak, before the retrace.
pub open spec fn close_position_spec(tp_ratio: int, cs: Seq<Candle>, available_quantity: int,
    cost_price: int) -> bool {
    &&& cs.len() >= 3
    &&& available_quantity != 0
    &&& (100 + tp_ratio) * cost_price < 100 * (cs[cs.len() - 2].close as int)
    &&& 1000 * (cs[cs.len() - 2].close - cs.last().close) > cs[cs.len() - 2].close as int
}

/// The signal vector the aggregation works on: KDJ, MACD, STC, UT Bot,
/// CYC, then the technical rating.
pub open spec fn indicator_signals(cs: Seq<Candle>, t: TradingTechnicals) -> Seq<i64> {
    seq![
        kdj_signal(cs) as i64,
        macd_signal(cs) as i64,
        stc_signal(cs) as i64,
        utbot_signal(cs) as i64,
        cyc_signal(cs) as i64,
        technicals_signal(t) as i64,
    ]
}

/// A decision value read as a side.
pub open spec fn side_of(v: int) -> OrderSide {
    if v > 0 {
        OrderSide::Buy
    } else if v < 0 {
        OrderSide::Sell
    } else {
        OrderSide::Unknown
    }
}

/// The aggregated side over a candle window and a technical snapshot.
pub open spec fn indicators_side(cs: Seq<Candle>, t: TradingTechnicals) -> OrderSide {
    side_of(default_rule(indicator_signals(cs, t)))
}

/// A signal vector summing to at least 3 decides Buy, one summing to
/// at most -3 decides Sell, and any other decides Unknown.
pub proof fn lemma_aggregator_decision(cs: Seq<Candle>, t: TradingTechnicals)
    ensures
        crate::computes::defult_rules::isum(indicator_signals(cs, t), 6) >= 3
            ==> indicators_side(cs, t) == OrderSide::Buy,
        crate::computes::defult_rules::isum(indicator_signals(cs, t), 6) <= -3
            ==> indicators_side(cs, t) == OrderSide::Sell,
        -3 < crate::computes::defult_rules::isum(indicator_signals(cs, t), 6) < 3
            ==> indicators_side(cs, t) == OrderSide::Unknown,
{
}


/// Largest position quantity the strategy accepts.
pub const QTY_MAX: i64 = 1_000_000_000_000_000;

/// Magnitude bound on the scaled cash a buy may commit:
/// `CASH_MAX * VOLUME_FRACTION_MAX / SCALE`.
pub const BUY_CASH_BOUND: i64 = 100_000_000_000_000_000;

/// Per-symbol configurations the strategy accepts.
pub open spec fn configs_ok(cfgs: Seq<SymbolConfig>) -> bool {
    forall|i: int| 0 <= i < cfgs.len()
        ==> 0 <= (#[trigger] cfgs[i]).volume <= VOLUME_FRACTION_MAX
            && 0 <= cfgs[i].tp_ratio <= RATIO_MAX && 0 <= cfgs[i].sl_ratio <= RATIO_MAX
}

/// Position lists the strategy accepts.
pub open spec fn positions_ok(chs: Seq<StockPositionChannel>) -> bool {
    forall|c: int, p: int| 0 <= c < chs.len()
        && 0 <= p < (#[trigger] chs[c]).positions@.len() ==> {
        let q = #[trigger] chs[c].positions@[p];
        &&& 0 <= q.cost_price <= PRICE_MAX
        &&& 0 <= q.quantity <= QTY_MAX
        &&& 0 <= q.available_quantity <= QTY_MAX
    }
}

/// Balance lists the strategy accepts.
pub open spec fn balances_ok(bals: Seq<AccountBalance>) -> bool {
    forall|b: int, c: int| 0 <= b < bals.len()
        && 0 <= c < (#[trigger] bals[b]).cash_infos@.len() ==> {
        let ci = #[trigger] bals[b].cash_infos@[c];
        &&& 0 <= ci.available_cash <= CASH_MAX
        &&& 0 <= ci.withdraw_cash <= CASH_MAX
    }
}

/// Order histories the strategy accepts.
pub open spec fn orders_ok(orders: Seq<OrderInfo>) -> bool {
    forall|i: int| 0 <= i < orders.len()
        ==> 0 <= (#[trigger] orders[i]).submitted_at <= TS_LIMIT
}

/// Index of the last USD entry, or -1.
pub open spec fn cash_match_in(cis: Seq<CashInfo>) -> int
    decreases cis.len(),
{
    if cis.len() == 0 {
        -1
    } else if cis.last().currency@ == "USD"@ {
        cis.len() - 1
    } else {
        cash_match_in(cis.drop_last())
    }
}

/// Balance and entry index of the winning USD match, or (-1, -1).
pub open spec fn cash_match(bals: Seq<AccountBalance>) -> (int, int)
    decreases bals.len(),
{
    if bals.len() == 0 {
        (-1int, -1int)
    } else {
        let ci = cash_match_in(bals.last().cash_infos@);
        if ci >= 0 {
            (bals.len() - 1, ci)
        } else {
            cash_match(bals.drop_last())
        }
    }
}

/// The USD balances read off the account: (withdrawable, available),
/// zero when no USD entry exists.
pub open spec fn usd_balances(bals: Seq<AccountBalance>) -> (int, int) {
    let (b, c) = cash_match(bals);
    if b < 0 {
        (0int, 0int)
    } else {
        (bals[b].cash_infos@[c].withdraw_cash as int, bals[b].cash_infos@[c].available_cash as int)
    }
}

/// Ceiling division for non-negative operands.
pub open spec fn ceil_div(a: int, b: int) -> int {
    div_trunc(a + b - 1, b)
}

/// The cash a buy commits: the available cash times the position
/// fraction.
pub open spec fn buy_cash(total: int, volume: int) -> int {
    div_trunc(total * volume, crate::fixed::SCALE as int)
}

/// The buy quantity: the committed cash divided by the price, rounded
/// up, provided the withdrawable balance covers the cash with a 5%
/// margin; zero otherwise.
pub open spec fn buy_quantity(usd: int, total: int, volume: int, px: int) -> int {
    if usd > 0 && 20 * usd >= 21 * buy_cash(total, volume) {
        ceil_div(buy_cash(total, volume), px)
    } else {
        0
    }
}

/// The quantity of the order a decision sizes.
pub open spec fn trade_quantity(side: OrderSide, usd: int, total: int, volume: int, px: int,
    pos_avail: int) -> int {
    if side == OrderSide::Buy {
        buy_quantity(usd, total, volume, px)
    } else if side == OrderSide::Sell && pos_avail != 0 {
        pos_avail
    } else {
        0
    }
}

/// The next eligible evaluation time recorded for a symbol, zero when
/// none is.
pub open spec fn next_of(list: Seq<SymbolTimeData>, sym: Seq<char>) -> int {
    let m = sym_time_match(list, sym);
    if m < 0 {
        0
    } else {
        list[m].next_time as int
    }
}

/// The decision one qualifying tick produces, as
/// `(kind, side, quantity, cancel index)`: kind 0 is no action, kind 1
/// submits `quantity` at the tick's price on `side`, kind 2 cancels
/// the order at the index.  The take-profit exit comes first and
/// bypasses the aggregator; a surviving decision is suppressed near
/// the existing cost basis, sized from the balances, and gated
/// against the order history.
pub open spec fn evaluate_decision(cs: Seq<Candle>, tech: TradingTechnicals, tp: int, vol: int,
    cost: int, avail: int, bals: Seq<AccountBalance>, orders: Seq<OrderInfo>, sym: Seq<char>,
    now: int, px: int) -> (int, OrderSide, int, int) {
    if close_position_spec(tp, cs, avail, cost) {
        (1int, OrderSide::Sell, avail, -1int)
    } else {
        let inds = indicators_side(cs, tech);
        if inds == OrderSide::Buy && cost != 0 && 99 * cost <= 100 * px {
            (0int, inds, 0int, -1int)
        } else if inds == OrderSide::Sell && cost != 0 && 100 * cost >= 99 * px {
            (0int, inds, 0int, -1int)
        } else if inds == OrderSide::Unknown {
            (0int, inds, 0int, -1int)
        } else if bals.len() == 0 {
            (0int, inds, 0int, -1int)
        } else {
            let (usd, total) = usd_balances(bals);
            let qty = trade_quantity(inds, usd, total, vol, px, avail);
            if qty == 0 {
                (0int, inds, 0int, -1int)
            } else {
                let g = order_gate(orders, sym, now, DEFAULT_THROTTLE_WINDOW as int);
                if g.0 == 0 {
                    (1int, inds, qty, -1int)
                } else if g.0 == 1 {
                    (0int, inds, 0int, -1int)
                } else {
                    (2int, inds, 0int, g.1)
                }
            }
        }
    }
}

/// When a position shows a gain past the configured take-profit ratio
/// at the pre-pullback close and the newest bar pulls back more than
/// 0.1% from it, the tick's decision is an unconditional sell of the
/// whole available quantity, whatever the aggregator would have said.
pub proof fn lemma_take_profit_exit(cs: Seq<Candle>, tech: TradingTechnicals, tp: int,
    vol: int, cost: int, avail: int, bals: Seq<AccountBalance>, orders: Seq<OrderInfo>,
    sym: Seq<char>, now: int, px: int)
    requires
        cs.len() >= 3,
        avail != 0,
        (100 + tp) * cost < 100 * (cs[cs.len() - 2].close as int),
        1000 * (cs[cs.len() - 2].close - cs.last().close) > cs[cs.len() - 2].close as int,
    ensures
        evaluate_decision(cs, tech, tp, vol, cost, avail, bals, orders, sym, now, px)
            == (1int, OrderSide::Sell, avail, -1int),
{
}

/// The canonical take-profit scene: with cost `P` and ratio `tp`, the
/// pre-pullback close sits one percent past the take-profit price
/// (`c2 = P * (1 + tp/100) * 1.01`, stated as an exact integer
/// identity) and the newest close retraces two percent
/// (`c1 = c2 * 0.98`).  The decision is the unconditional sell.
pub proof fn lemma_take_profit_scenario(cs: Seq<Candle>, tech: TradingTechnicals, tp: int,
    vol: int, cost: int, avail: int, bals: Seq<AccountBalance>, orders: Seq<OrderInfo>,
    sym: Seq<char>, now: int, px: int)
    requires
        cs.len() >= 3,
        avail != 0,
        cs[cs.len() - 2].close > 0,
        10000 * (cs[cs.len() - 2].close as int) == 101 * ((100 + tp) * cost),
        100 * (cs.last().close as int) == 98 * (cs[cs.len() - 2].close as int),
    ensures
        evaluate_decision(cs, tech, tp, vol, cost, avail, bals, orders, sym, now, px)
            == (1int, OrderSide::Sell, avail, -1int),
{
    let c2 = cs[cs.len() - 2].close as int;
    let c1 = cs.last().close as int;
    assert(101 * ((100 + tp) * cost) < 101 * (100 * c2));
    assert(100 * (1000 * (c2 - c1)) == 1000 * (100 * c2) - 1000 * (100 * c1));
    lemma_take_profit_exit(cs, tech, tp, vol, cost, avail, bals, orders, sym, now, px);
}

/// The recorded next eligible time for a symbol never moves
/// backwards: every recorded entry has the shape
/// `next_time == last_time + 2 * interval_time`, and once the candle
/// feed moves forward — the fresh reference candle no older than the
/// recorded one and the candle interval no shorter — the freshly
/// computed next eligible time is at least the recorded one.
pub proof fn lemma_next_time_monotonic(entry: SymbolTimeData, cs: Seq<Candle>)
    requires
        cs.len() >= 3,
        entry.next_time == entry.last_time + 2 * entry.interval_time,
        entry.last_time <= cs[cs.len() - 2].timestamp,
        entry.interval_time
            <= cs[cs.len() - 2].timestamp - cs[cs.len() - 3].timestamp,
    ensures
        entry.next_time <= cs[cs.len() - 2].timestamp
            + (cs[cs.len() - 2].timestamp - cs[cs.len() - 3].timestamp) * 2,
{
}

/// The strategy's own state: the per-symbol configuration and the
/// per-symbol evaluation cadence.
pub struct VecorStrategy {
    pub sym_config: Vec<SymbolConfig>,
    pub next_run_time: Vec<SymbolTimeData>,
}

impl VecorStrategy {
    /// A strategy over the given configuration, with no cadence state
    /// yet.
    pub fn create(sym_config: Vec<SymbolConfig>) -> (r: Self)
        ensures
            r.sym_config@ == sym_config@,
            r.next_run_time@.len() == 0,
    {
        VecorStrategy { sym_config, next_run_time: Vec::new() }
    }

    /// The configuration of the given symbol: the last matching entry,
    /// or the empty configuration.
    pub fn get_sym_info(sym_config: Vec<SymbolConfig>, symbol: String) -> (r: SymbolConfig)
        ensures
            ({
                let m = sym_cfg_match(sym_config@, symbol@);
                if m < 0 {
                    r.symbol@.len() == 0 && r.symbol_type@.len() == 0 && r.volume == 0
                        && r.period@.len() == 0 && r.tp_ratio == 0 && r.sl_ratio == 0
                } else {
                    r.symbol@ == sym_config@[m].symbol@
                        && r.symbol_type@ == sym_config@[m].symbol_type@
                        && r.volume == sym_config@[m].volume
                        && r.period@ == sym_config@[m].period@
                        && r.tp_ratio == sym_config@[m].tp_ratio
                        && r.sl_ratio == sym_config@[m].sl_ratio
                }
            }),
    {
        Self::sym_info_scan(&sym_config, &symbol)
    }

    /// The scan behind [`Self::get_sym_info`].
    fn sym_info_scan(sym_config: &Vec<SymbolConfig>, symbol: &String) -> (r: SymbolConfig)
        ensures
            ({
                let m = sym_cfg_match(sym_config@, symbol@);
                if m < 0 {
                    r.symbol@.len() == 0 && r.symbol_type@.len() == 0 && r.volume == 0
                        && r.period@.len() == 0 && r.tp_ratio == 0 && r.sl_ratio == 0
                } else {
                    r.symbol@ == sym_config@[m].symbol@
                        && r.symbol_type@ == sym_config@[m].symbol_type@
                        && r.volume == sym_config@[m].volume
                        && r.period@ == sym_config@[m].period@
                        && r.tp_ratio == sym_config@[m].tp_ratio
                        && r.sl_ratio == sym_config@[m].sl_ratio
                }
            }),
    {
        let mut sym = SymbolConfig::new();
        let n = sym_config.len();
        let mut i: usize = 0;
        while i < n
            invariant
                n == sym_config@.len(),
                i <= n,
                ({
                    let m = sym_cfg_match(sym_config@.take(i as int), symbol@);
                    if m < 0 {
                        sym.symbol@.len() == 0 && sym.symbol_type@.len() == 0
                            && sym.volume == 0 && sym.period@.len() == 0 && sym.tp_ratio == 0
                            && sym.sl_ratio == 0
                    } else {
                        sym.symbol@ == sym_config@[m].symbol@
                            && sym.symbol_type@ == sym_config@[m].symbol_type@
                            && sym.volume == sym_config@[m].volume
                            && sym.period@ == sym_config@[m].period@
                            && sym.tp_ratio == sym_config@[m].tp_ratio
                            && sym.sl_ratio == sym_config@[m].sl_ratio
                    }
                }),
            decreases n - i,
        {
            let cfg = &sym_config[i];
            proof {
                assert(sym_config@.take(i + 1).drop_last() =~= sym_config@.take(i as int));
                assert(sym_config@.take(i + 1).last() == sym_config@[i as int]);
            }
            if cfg.symbol == *symbol {
                sym = SymbolConfig {
                    symbol: cfg.symbol.clone(),
                    symbol_type: cfg.symbol_type.clone(),
                    volume: cfg.volume,
                    period: cfg.period.clone(),
                    tp_ratio: cfg.tp_ratio,
                    sl_ratio: cfg.sl_ratio,
                };
            }
            i = i + 1;
        }
        proof {
            assert(sym_config@.take(n as int) =~= sym_config@);
        }
        sym
    }

    /// Reads the cadence off the last three candles: the next eligible
    /// time is two intervals past the second-newest candle; the tick is
    /// deferred when the newest gap falls short of the previous one by
    /// more than ten seconds, meaning the newest candle is still
    /// forming.
    pub fn timestamp_to_time(cs: Vec<Candle>, symbol: String) -> (r: (SymbolTimeData, bool))
        requires
            cs@.len() >= 3,
            forall|i: int| 0 <= i < cs@.len()
                ==> (#[trigger] cs@[i]).timestamp <= TS_LIMIT as u64,
            cs@[cs@.len() - 3].timestamp <= cs@[cs@.len() - 2].timestamp,
            cs@[cs@.len() - 2].timestamp <= cs@[cs@.len() - 1].timestamp,
        ensures
            ({
                let le = cs@.len() as int;
                let pts = cs@[le - 2].timestamp - cs@[le - 3].timestamp;
                let lts = cs@[le - 1].timestamp - cs@[le - 2].timestamp;
                &&& r.0.symbol@ == symbol@
                &&& r.0.interval_time == pts
                &&& r.0.next_time == cs@[le - 2].timestamp + pts * 2
                &&& r.0.last_time == cs@[le - 2].timestamp
                &&& r.1 == !(pts - lts > 10)
            }),
    {
        let le = cs.len();
        let cs1 = cs[le - 1].timestamp;
        let cs2 = cs[le - 2].timestamp;
        let cs3 = cs[le - 3].timestamp;

        let pts = cs2 - cs3;
        let lts = cs1 - cs2;

        let symts = SymbolTimeData {
            symbol,
            interval_time: pts,
            next_time: cs2 + pts * 2,
            last_time: cs2,
        };

        if pts > lts + 10 {
            return (symts, false);
        }
        (symts, true)
    }

    /// The cadence entry of the given symbol: the last matching entry
    /// or the empty one, together with its index in the list (0 when
    /// no entry matches), so that the caller updates the matched
    /// symbol's own slot.
    pub fn get_sym_time_info(sym_config: Vec<SymbolTimeData>, symbol: String) -> (r: (
        usize,
        SymbolTimeData,
    ))
        ensures
            ({
                let m = sym_time_match(sym_config@, symbol@);
                r.0 == (if m < 0 { 0int } else { m })
            }),
            ({
                let m = sym_time_match(sym_config@, symbol@);
                if m < 0 {
                    r.1.symbol@.len() == 0 && r.1.interval_time == 0 && r.1.next_time == 0
                        && r.1.last_time == 0
                } else {
                    r.1.symbol@ == sym_config@[m].symbol@
                        && r.1.interval_time == sym_config@[m].interval_time
                        && r.1.next_time == sym_config@[m].next_time
                        && r.1.last_time == sym_config@[m].last_time
                }
            }),
    {
        Self::sym_time_scan(&sym_config, &symbol)
    }

    /// The scan behind [`Self::get_sym_time_info`].
    fn sym_time_scan(sym_config: &Vec<SymbolTimeData>, symbol: &String) -> (r: (
        usize,
        SymbolTimeData,
    ))
        ensures
            ({
                let m = sym_time_match(sym_config@, symbol@);
                r.0 == (if m < 0 { 0int } else { m })
            }),
            ({
                let m = sym_time_match(sym_config@, symbol@);
                if m < 0 {
                    r.1.symbol@.len() == 0 && r.1.interval_time == 0 && r.1.next_time == 0
                        && r.1.last_time == 0
                } else {
                    r.1.symbol@ == sym_config@[m].symbol@
                        && r.1.interval_time == sym_config@[m].interval_time
                        && r.1.next_time == sym_config@[m].next_time
                        && r.1.last_time == sym_config@[m].last_time
                }
            }),
    {
        let mut sym = SymbolTimeData::new();
        let mut index: usize = 0;
        let n = sym_config.len();
        let mut i: usize = 0;
        while i < n
            invariant
                n == sym_config@.len(),
                i <= n,
                ({
                    let m = sym_time_match(sym_config@.take(i as int), symbol@);
                    index == (if m < 0 { 0int } else { m })
                }),
                ({
                    let m = sym_time_match(sym_config@.take(i as int), symbol@);
                    if m < 0 {
                        sym.symbol@.len() == 0 && sym.interval_time == 0 && sym.next_time == 0
                            && sym.last_time == 0
                    } else {
                        sym.symbol@ == sym_config@[m].symbol@
                            && sym.interval_time == sym_config@[m].interval_time
                            && sym.next_time == sym_config@[m].next_time
                            && sym.last_time == sym_config@[m].last_time
                    }
                }),
            decreases n - i,
        {
            let cfg = &sym_config[i];
            proof {
                assert(sym_config@.take(i + 1).drop_last() =~= sym_config@.take(i as int));
                assert(sym_config@.take(i + 1).last() == sym_config@[i as int]);
            }
            if cfg.symbol == *symbol {
                index = i;
                sym = SymbolTimeData {
                    symbol: cfg.symbol.clone(),
                    interval_time: cfg.interval_time,
                    next_time: cfg.next_time,
                    last_time: cfg.last_time,
                };
            }
            i = i + 1;
        }
        proof {
            assert(sym_config@.take(n as int) =~= sym_config@);
        }
        (index, sym)
    }

    /// The order-history gate: blocks when an order for the symbol was
    /// submitted inside the throttle window, asks to cancel the first
    /// matching order found in a non-terminal state, and proceeds only
    /// past a history with no blocking order.
    pub fn handler_orders(orders: Vec<OrderInfo>, symbol: String, now_ts: i64,
        throttle_window: i64) -> (r: OrderGate)
        requires
            0 <= now_ts <= TS_LIMIT,
            0 <= throttle_window <= TS_LIMIT,
        ensures
            ({
                let g = order_gate(orders@, symbol@, now_ts as int, throttle_window as int);
                &&& g.0 == 0 ==> r is Proceed
                &&& g.0 == 1 ==> r is Throttled
                &&& g.0 == 2 ==> (r matches OrderGate::CancelOrder(id)
                    && id@ == orders@[g.1].order_id@)
            }),
    {
        let n = orders.len();
        let mut i: usize = 0;
        while i < n
            invariant
                n == orders@.len(),
                i <= n,
                0 <= now_ts <= TS_LIMIT,
                0 <= throttle_window <= TS_LIMIT,
                order_gate(orders@, symbol@, now_ts as int, throttle_window as int)
                    == gate_from(orders@, symbol@, now_ts as int, throttle_window as int,
                        i as int),
            decreases n - i,
        {
            let o = &orders[i];
            if o.symbol == symbol {
                if o.submitted_at > now_ts - throttle_window {
                    return OrderGate::Throttled;
                }
                if o.status == OrderStatus::New || o.status == OrderStatus::WaitToNew
                    || o.status == OrderStatus::PartialFilled
                    || o.status == OrderStatus::NotReported {
                    return OrderGate::CancelOrder(o.order_id.clone());
                }
            }
            i = i + 1;
        }
        OrderGate::Proceed
    }

    /// The position held in the given symbol: the winning match across
    /// all channels, or the empty position.
    pub fn handler_positions(positions: Vec<StockPositionChannel>, symbol: String) -> (r:
        StockPosition)
        ensures
            ({
                let (ci, pi) = pos_match(positions@, symbol@);
                if ci < 0 {
                    r.symbol@.len() == 0 && r.quantity == 0 && r.available_quantity == 0
                        && r.cost_price == 0
                } else {
                    let p = positions@[ci].positions@[pi];
                    r.symbol@ == p.symbol@ && r.quantity == p.quantity
                        && r.available_quantity == p.available_quantity
                        && r.cost_price == p.cost_price
                }
            }),
    {
        let mut sym_position = StockPosition {
            symbol: String::new(),
            quantity: 0,
            available_quantity: 0,
            cost_price: 0,
        };

        let n = positions.len();
        let mut c: usize = 0;
        while c < n
            invariant
                n == positions@.len(),
                c <= n,
                ({
                    let (ci, pi) = pos_match(positions@.take(c as int), symbol@);
                    if ci < 0 {
                        sym_position.symbol@.len() == 0 && sym_position.quantity == 0
                            && sym_position.available_quantity == 0
                            && sym_position.cost_price == 0
                    } else {
                        let p = positions@[ci].positions@[pi];
                        sym_position.symbol@ == p.symbol@ && sym_position.quantity == p.quantity
                            && sym_position.available_quantity == p.available_quantity
                            && sym_position.cost_price == p.cost_price
                    }
                }),
            decreases n - c,
        {
            let pchannel = &positions[c];
            let m = pchannel.positions.len();
            let ghost prev_position = sym_position;
            let mut k: usize = 0;
            while k < m
                invariant
                    n == positions@.len(),
                    c < n,
                    pchannel.positions@ == positions@[c as int].positions@,
                    m == positions@[c as int].positions@.len(),
                    k <= m,
                    ({
                        let pi = pos_match_in(
                            positions@[c as int].positions@.take(k as int), symbol@);
                        if pi < 0 {
                            sym_position == prev_position
                        } else {
                            let p = positions@[c as int].positions@[pi];
                            sym_position.symbol@ == p.symbol@
                                && sym_position.quantity == p.quantity
                                && sym_position.available_quantity == p.available_quantity
                                && sym_position.cost_price == p.cost_price
                        }
                    }),
                decreases m - k,
            {
                let p = &pchannel.positions[k];
                proof {
                    assert(positions@[c as int].positions@.take(k + 1).drop_last()
                        =~= positions@[c as int].positions@.take(k as int));
                    assert(positions@[c as int].positions@.take(k + 1).last()
                        == positions@[c as int].positions@[k as int]);
                }
                if p.symbol == symbol {
                    sym_position = StockPosition {
                        symbol: p.symbol.clone(),
                        quantity: p.quantity,
                        available_quantity: p.available_quantity,
                        cost_price: p.cost_price,
                    };
                }
                k = k + 1;
            }
            proof {
                assert(positions@[c as int].positions@.take(m as int)
                    =~= positions@[c as int].positions@);
                assert(positions@.take(c + 1).drop_last() =~= positions@.take(c as int));
                assert(positions@.take(c + 1).last() == positions@[c as int]);
                lemma_pos_match_prefix(positions@, symbol@, c as int);
            }
            c = c + 1;
        }
        proof {
            assert(positions@.take(n as int) =~= positions@);
        }
        sym_position
    }

    /// Whether the position has reached the take-profit exit.
    pub fn handler_close_position(sym: SymbolConfig, candle: Vec<Candle>, stock: StockPosition)
        -> (r: bool)
        requires
            candles_ok(candle@),
            0 <= sym.tp_ratio <= RATIO_MAX,
            0 <= stock.cost_price <= PRICE_MAX,
        ensures
            r == close_position_spec(sym.tp_ratio as int, candle@,
                stock.available_quantity as int, stock.cost_price as int),
    {
        if candle.len() < 3 || stock.available_quantity == 0 {
            return false;
        }

        let cur_price = candle[candle.len() - 1].close;
        let prev_price = candle[candle.len() - 2].close;
        let cost_price = stock.cost_price;

        proof {
            crate::fixed::lemma_mul_abs_bound(
                100 + sym.tp_ratio as int, cost_price as int, PRICE_MAX as int);
        }
        if (100 + sym.tp_ratio as i64) * cost_price < 100 * prev_price {
            if 1000 * (prev_price - cur_price) > prev_price {
                return true;
            }
        }
        false
    }

    /// Aggregates the six indicator votes over the candle window and
    /// the technical snapshot into one side.
    pub fn handler_indicators(candles: Vec<Candle>, technicals: TradingTechnicals) -> (r:
        OrderSide)
        requires
            candles_ok(candles@),
        ensures
            r == indicators_side(candles@, technicals),
    {
        let defult_rules = DefultRules {  };
        let rules = defult_rules.create();
        let mut calculate = Calculate::new(rules);
        let kdj = Calculator::Kdj(KdjCalculate { candles: copy_candles(&candles) });
        let macd = Calculator::Macd(MacdCalculate { candles: copy_candles(&candles) });
        let ut_bot = Calculator::UtBot(UTBotCalculate { candles: copy_candles(&candles) });
        let stc = Calculator::Stc(STCCalculate { candles: copy_candles(&candles) });
        let cyc = Calculator::Cyc(CycCalculate { candles: copy_candles(&candles) });
        let techs = Calculator::Technicals(TechnicalsCalculate {
            technicals: TradingTechnicals { values: technicals.values },
        });

        calculate.add_calculator(kdj);
        calculate.add_calculator(macd);
        calculate.add_calculator(stc);
        calculate.add_calculator(ut_bot);
        calculate.add_calculator(cyc);
        calculate.add_calculator(techs);

        proof {
            assert(calculate.signals_spec() =~= indicator_signals(candles@, technicals));
        }
        let res = calculate.execute_rules();
        if res > 0 {
            return OrderSide::Buy;
        }
        if res < 0 {
            return OrderSide::Sell;
        }
        OrderSide::Unknown
    }

    /// The USD balances read off the account: (withdrawable,
    /// available).
    fn cash_scan(balances: &Vec<AccountBalance>) -> (r: (i64, i64))
        requires
            balances_ok(balances@),
        ensures
            r.0 as int == usd_balances(balances@).0,
            r.1 as int == usd_balances(balances@).1,
            0 <= r.0 <= CASH_MAX,
            0 <= r.1 <= CASH_MAX,
    {
        let usd_str = "USD".to_owned();
        let mut usd_bal: i64 = 0;
        let mut total_cash: i64 = 0;
        let n = balances.len();
        let mut b: usize = 0;
        while b < n
            invariant
                balances_ok(balances@),
                n == balances@.len(),
                b <= n,
                usd_str@ == "USD"@,
                usd_bal as int == usd_balances(balances@.take(b as int)).0,
                total_cash as int == usd_balances(balances@.take(b as int)).1,
                0 <= usd_bal <= CASH_MAX,
                0 <= total_cash <= CASH_MAX,
            decreases n - b,
        {
            let channel = &balances[b];
            let m = channel.cash_infos.len();
            let ghost prev_usd = usd_bal;
            let ghost prev_total = total_cash;
            let mut c: usize = 0;
            while c < m
                invariant
                    balances_ok(balances@),
                    n == balances@.len(),
                    b < n,
                    channel.cash_infos@ == balances@[b as int].cash_infos@,
                    m == balances@[b as int].cash_infos@.len(),
                    c <= m,
                    usd_str@ == "USD"@,
                    0 <= prev_usd <= CASH_MAX,
                    0 <= prev_total <= CASH_MAX,
                    0 <= usd_bal <= CASH_MAX,
                    0 <= total_cash <= CASH_MAX,
                    ({
                        let ci = cash_match_in(
                            balances@[b as int].cash_infos@.take(c as int));
                        if ci < 0 {
                            usd_bal == prev_usd && total_cash == prev_total
                        } else {
                            let e = balances@[b as int].cash_infos@[ci];
                            usd_bal == e.withdraw_cash && total_cash == e.available_cash
                        }
                    }),
                decreases m - c,
            {
                let ci = &channel.cash_infos[c];
                proof {
                    assert(balances@[b as int].cash_infos@.take(c + 1).drop_last()
                        =~= balances@[b as int].cash_infos@.take(c as int));
                    assert(balances@[b as int].cash_infos@.take(c + 1).last()
                        == balances@[b as int].cash_infos@[c as int]);
                }
                if ci.currency == usd_str {
                    usd_bal = ci.withdraw_cash;
                    total_cash = ci.available_cash;
                }
                c = c + 1;
            }
            proof {
                assert(balances@[b as int].cash_infos@.take(m as int)
                    =~= balances@[b as int].cash_infos@);
                lemma_cash_match_prefix(balances@, b as int);
                lemma_cash_match_valid(balances@.take(b as int));
                lemma_cash_match_valid(balances@.take(b + 1));
                assert(forall|j: int| 0 <= j < b + 1
                    ==> #[trigger] balances@.take(b + 1)[j] == balances@[j]);
                assert(forall|j: int| 0 <= j < b
                    ==> #[trigger] balances@.take(b as int)[j] == balances@[j]);
            }
            b = b + 1;
        }
        proof {
            assert(balances@.take(n as int) =~= balances@);
        }
        (usd_bal, total_cash)
    }

    /// The one operation the strategy exposes: judge one tick against
    /// the cadence gate, the take-profit rule, the aggregated
    /// indicator votes, the cost-basis suppression, the balances and
    /// the order throttle, record the symbol's cadence, and hand back
    /// at most one order intent.
    #[verifier::rlimit(100)]
    pub fn evaluate(&mut self, event: &MarketData, candles: Vec<Candle>,
        positions: Vec<StockPositionChannel>, balances: Vec<AccountBalance>,
        orders: Vec<OrderInfo>, technicals: TradingTechnicals, now_ts: i64) -> (r: OrderIntent)
        requires
            candles_ok(candles@),
            candles@.len() == 0 || candles@.len() >= 3,
            forall|i: int| 0 <= i < candles@.len()
                ==> (#[trigger] candles@[i]).timestamp <= TS_LIMIT as u64,
            candles@.len() >= 3
                ==> candles@[candles@.len() - 3].timestamp
                    <= candles@[candles@.len() - 2].timestamp
                    && candles@[candles@.len() - 2].timestamp
                        <= candles@[candles@.len() - 1].timestamp,
            0 <= event.price <= PRICE_MAX,
            0 <= event.ts <= TS_LIMIT,
            0 <= now_ts <= TS_LIMIT,
            configs_ok(old(self).sym_config@),
            positions_ok(positions@),
            balances_ok(balances@),
            orders_ok(orders@),
        ensures
            final(self).sym_config@ == old(self).sym_config@,
            ({
                let nt = next_of(old(self).next_run_time@, event.symbol@);
                let open = (nt == 0 || nt < event.ts as int) && event.price != 0;
                &&& !open ==> (r is NoOp
                    && final(self).next_run_time@ == old(self).next_run_time@)
                &&& (open && candles@.len() == 0) ==> (r is NoOp
                    && final(self).next_run_time@ == old(self).next_run_time@)
                &&& (open && candles@.len() >= 3) ==> ({
                    let le = candles@.len() as int;
                    let pts = candles@[le - 2].timestamp - candles@[le - 3].timestamp;
                    let lts = candles@[le - 1].timestamp - candles@[le - 2].timestamp;
                    let is_next = !(pts - lts > 10);
                    &&& nt == 0 ==> ({
                        let olen = old(self).next_run_time@.len() as int;
                        &&& final(self).next_run_time@.len() == olen + 1
                        &&& forall|j: int| 0 <= j < olen
                            ==> final(self).next_run_time@[j] == old(self).next_run_time@[j]
                        &&& final(self).next_run_time@.last().symbol@ == event.symbol@
                        &&& final(self).next_run_time@.last().interval_time == pts
                        &&& final(self).next_run_time@.last().next_time
                            == candles@[le - 2].timestamp + pts * 2
                        &&& final(self).next_run_time@.last().last_time
                            == candles@[le - 2].timestamp
                    })
                    &&& nt != 0 ==> ({
                        let olen = old(self).next_run_time@.len() as int;
                        let idx = sym_time_match(old(self).next_run_time@, event.symbol@);
                        &&& final(self).next_run_time@.len() == olen
                        &&& forall|j: int| 0 <= j < olen && j != idx
                            ==> final(self).next_run_time@[j] == old(self).next_run_time@[j]
                        &&& final(self).next_run_time@[idx].symbol@ == event.symbol@
                        &&& final(self).next_run_time@[idx].interval_time == pts
                        &&& final(self).next_run_time@[idx].next_time
                            == candles@[le - 2].timestamp + pts * 2
                        &&& final(self).next_run_time@[idx].last_time
                            == candles@[le - 2].timestamp
                    })
                    &&& (nt == 0 && is_next) ==> r is NoOp
                    &&& !(nt == 0 && is_next) ==> ({
                        let mc = sym_cfg_match(old(self).sym_config@, event.symbol@);
                        let tp = if mc < 0 {
                            0int
                        } else {
                            old(self).sym_config@[mc].tp_ratio as int
                        };
                        let vol = if mc < 0 {
                            0int
                        } else {
                            old(self).sym_config@[mc].volume as int
                        };
                        let pm = pos_match(positions@, event.symbol@);
                        let cost = if pm.0 < 0 {
                            0int
                        } else {
                            positions@[pm.0].positions@[pm.1].cost_price as int
                        };
                        let avail = if pm.0 < 0 {
                            0int
                        } else {
                            positions@[pm.0].positions@[pm.1].available_quantity as int
                        };
                        let d = evaluate_decision(candles@, technicals, tp, vol, cost, avail,
                            balances@, orders@, event.symbol@, now_ts as int,
                            event.price as int);
                        &&& d.0 == 0 ==> r is NoOp
                        &&& d.0 == 1 ==> (r matches OrderIntent::Submit {
                            side, price, quantity } && side == d.1 && price == event.price
                            && quantity as int == d.2)
                        &&& d.0 == 2 ==> (r matches OrderIntent::Cancel { order_id }
                            && order_id@ == orders@[d.3].order_id@)
                    })
                })
            }),
    {
        let ts = event.ts;
        let market_px = event.price;
        let (index, next_times) = Self::sym_time_scan(&self.next_run_time, &event.symbol);

        if !((next_times.next_time == 0 || next_times.next_time < ts as u64)
            && market_px != 0) {
            return OrderIntent::NoOp;
        }

        let sym = Self::sym_info_scan(&self.sym_config, &event.symbol);
        if candles.len() == 0 {
            return OrderIntent::NoOp;
        }

        let (symts, is_next) = Self::timestamp_to_time(
            copy_candles(&candles), event.symbol.clone());
        if next_times.next_time == 0 {
            self.next_run_time.push(symts);
            if is_next {
                return OrderIntent::NoOp;
            }
        } else {
            proof {
                lemma_sym_time_match_valid(self.next_run_time@, event.symbol@);
            }
            self.next_run_time[index] = symts;
        }

        proof {
            lemma_sym_cfg_match_valid(self.sym_config@, event.symbol@);
            lemma_pos_match_valid(positions@, event.symbol@);
        }
        let sym_position = Self::handler_positions(positions, event.symbol.clone());

        Self::decide_intent(&sym, &sym_position, &candles, &balances, orders, technicals,
            &event.symbol, now_ts, market_px)
    }

    /// The per-tick decision once the cadence gate has passed and the
    /// cadence state is recorded.
    fn decide_intent(sym: &SymbolConfig, sym_position: &StockPosition, candles: &Vec<Candle>,
        balances: &Vec<AccountBalance>, orders: Vec<OrderInfo>, technicals: TradingTechnicals,
        symbol: &String, now_ts: i64, market_px: i64) -> (r: OrderIntent)
        requires
            candles_ok(candles@),
            0 <= sym.tp_ratio <= RATIO_MAX,
            0 <= sym.volume <= VOLUME_FRACTION_MAX,
            0 <= sym_position.cost_price <= PRICE_MAX,
            0 <= sym_position.quantity <= QTY_MAX,
            0 <= sym_position.available_quantity <= QTY_MAX,
            balances_ok(balances@),
            orders_ok(orders@),
            0 < market_px <= PRICE_MAX,
            0 <= now_ts <= TS_LIMIT,
        ensures
            ({
                let d = evaluate_decision(candles@, technicals, sym.tp_ratio as int,
                    sym.volume as int, sym_position.cost_price as int,
                    sym_position.available_quantity as int, balances@, orders@, symbol@,
                    now_ts as int, market_px as int);
                &&& d.0 == 0 ==> r is NoOp
                &&& d.0 == 1 ==> (r matches OrderIntent::Submit { side, price, quantity }
                    && side == d.1 && price == market_px && quantity as int == d.2)
                &&& d.0 == 2 ==> (r matches OrderIntent::Cancel { order_id }
                    && order_id@ == orders@[d.3].order_id@)
            }),
    {
        let close_cfg = SymbolConfig {
            symbol: String::new(),
            symbol_type: String::new(),
            volume: sym.volume,
            period: String::new(),
            tp_ratio: sym.tp_ratio,
            sl_ratio: sym.sl_ratio,
        };
        let close_pos = StockPosition {
            symbol: String::new(),
            quantity: sym_position.quantity,
            available_quantity: sym_position.available_quantity,
            cost_price: sym_position.cost_price,
        };
        if Self::handler_close_position(close_cfg, copy_candles(candles), close_pos) {
            return OrderIntent::Submit {
                side: OrderSide::Sell,
                price: market_px,
                quantity: sym_position.available_quantity,
            };
        }

        let inds = Self::handler_indicators(copy_candles(candles), technicals);
        if inds == OrderSide::Buy && sym_position.cost_price != 0
            && 99 * sym_position.cost_price <= 100 * market_px {
            return OrderIntent::NoOp;
        }
        if inds == OrderSide::Sell && sym_position.cost_price != 0
            && 100 * sym_position.cost_price >= 99 * market_px {
            return OrderIntent::NoOp;
        }
        if inds == OrderSide::Unknown {
            return OrderIntent::NoOp;
        }

        if balances.len() == 0 {
            return OrderIntent::NoOp;
        }
        let (usd_bal, total_cash) = Self::cash_scan(balances);

        let mut quantity: i64 = 0;
        if usd_bal > 0 && inds == OrderSide::Buy {
            let volume = sym.volume;
            proof {
                crate::fixed::lemma_mul_abs_bound(
                    total_cash as int, volume as int, VOLUME_FRACTION_MAX as int);
                assert((BUY_CASH_BOUND as int) * (crate::fixed::SCALE as int)
                    == (CASH_MAX as int) * (VOLUME_FRACTION_MAX as int))
                    by (nonlinear_arith);
                crate::fixed::lemma_div_trunc_abs_le(
                    (total_cash as int) * (volume as int), crate::fixed::SCALE as int,
                    BUY_CASH_BOUND as int);
                crate::fixed::lemma_div_trunc_sign(
                    (total_cash as int) * (volume as int), crate::fixed::SCALE as int);
                vstd::arithmetic::mul::lemma_mul_nonnegative(
                    total_cash as int, volume as int);
            }
            let cash128 = div_i128(
                (total_cash as i128) * (volume as i128), crate::fixed::SCALE as i128);
            let cash = cash128 as i64;
            if 20 * usd_bal >= 21 * cash {
                quantity = div_i64(cash + market_px - 1, market_px);
                proof {
                    crate::fixed::lemma_div_trunc_sign(
                        cash + market_px - 1, market_px as int);
                }
            }
        }
        if sym_position.available_quantity != 0 && inds == OrderSide::Sell {
            quantity = sym_position.available_quantity;
        }

        if quantity == 0 {
            return OrderIntent::NoOp;
        }

        proof {
            lemma_gate_kind(orders@, symbol@, now_ts as int, DEFAULT_THROTTLE_WINDOW as int, 0);
        }
        let order_status = Self::handler_orders(
            orders, symbol.clone(), now_ts, DEFAULT_THROTTLE_WINDOW);
        match order_status {
            OrderGate::Proceed => OrderIntent::Submit {
                side: inds,
                price: market_px,
                quantity,
            },
            OrderGate::Throttled => OrderIntent::NoOp,
            OrderGate::CancelOrder(order_id) => OrderIntent::Cancel { order_id },
        }
    }
}

/// A fresh vector holding the same candles.
fn copy_candles(cs: &Vec<Candle>) -> (r: Vec<Candle>)
    ensures
        r@ == cs@,
{
    let mut r: Vec<Candle> = Vec::new();
    let n = cs.len();
    let mut i: usize = 0;
    while i < n
        invariant
            n == cs@.len(),
            i <= n,
            r@.len() == i,
            forall|j: int| 0 <= j < i ==> r@[j] == cs@[j],
        decreases n - i,
    {
        r.push(cs[i]);
        i = i + 1;
    }
    proof {
        assert(r@ =~= cs@);
    }
    r
}

/// A found cadence match lies inside the list.
proof fn lemma_sym_time_match_valid(list: Seq<SymbolTimeData>, sym: Seq<char>)
    ensures
        sym_time_match(list, sym) >= 0 ==> sym_time_match(list, sym) < list.len(),
    decreases list.len(),
{
    if list.len() > 0 {
        lemma_sym_time_match_valid(list.drop_last(), sym);
    }
}

/// A found configuration match lies inside the list.
proof fn lemma_sym_cfg_match_valid(cfgs: Seq<SymbolConfig>, sym: Seq<char>)
    ensures
        sym_cfg_match(cfgs, sym) >= 0 ==> sym_cfg_match(cfgs, sym) < cfgs.len(),
    decreases cfgs.len(),
{
    if cfgs.len() > 0 {
        lemma_sym_cfg_match_valid(cfgs.drop_last(), sym);
    }
}

/// A found position match lies inside the lists.
proof fn lemma_pos_match_valid(chs: Seq<StockPositionChannel>, sym: Seq<char>)
    ensures
        ({
            let (c, p) = pos_match(chs, sym);
            c >= 0 ==> 0 <= c < chs.len() && 0 <= p < chs[c].positions@.len()
        }),
    decreases chs.len(),
{
    if chs.len() > 0 {
        lemma_pos_match_in_valid(chs.last().positions@, sym);
        lemma_pos_match_valid(chs.drop_last(), sym);
        let (c, p) = pos_match(chs.drop_last(), sym);
        if pos_match_in(chs.last().positions@, sym) < 0 && c >= 0 {
            assert(chs.drop_last()[c] == chs[c]);
        }
    }
}

/// A found position lies inside the list.
proof fn lemma_pos_match_in_valid(ps: Seq<StockPosition>, sym: Seq<char>)
    ensures
        pos_match_in(ps, sym) >= 0 ==> pos_match_in(ps, sym) < ps.len(),
    decreases ps.len(),
{
    if ps.len() > 0 {
        lemma_pos_match_in_valid(ps.drop_last(), sym);
    }
}

/// A found USD entry lies inside the list.
proof fn lemma_cash_match_in_valid(cis: Seq<CashInfo>)
    ensures
        cash_match_in(cis) >= 0 ==> cash_match_in(cis) < cis.len(),
    decreases cis.len(),
{
    if cis.len() > 0 {
        lemma_cash_match_in_valid(cis.drop_last());
    }
}

/// A found USD match lies inside the lists.
proof fn lemma_cash_match_valid(bals: Seq<AccountBalance>)
    ensures
        ({
            let (b, c) = cash_match(bals);
            b >= 0 ==> 0 <= b < bals.len() && 0 <= c < bals[b].cash_infos@.len()
        }),
    decreases bals.len(),
{
    if bals.len() > 0 {
        lemma_cash_match_in_valid(bals.last().cash_infos@);
        lemma_cash_match_valid(bals.drop_last());
        let (b, c) = cash_match(bals.drop_last());
        if cash_match_in(bals.last().cash_infos@) < 0 && b >= 0 {
            assert(bals.drop_last()[b] == bals[b]);
        }
    }
}

/// A prefix that already holds a USD entry keeps it when the next
/// balance has none.
proof fn lemma_cash_match_prefix(bals: Seq<AccountBalance>, b: int)
    requires
        0 <= b < bals.len(),
    ensures
        cash_match_in(bals[b].cash_infos@) >= 0
            ==> cash_match(bals.take(b + 1))
                == (b, cash_match_in(bals[b].cash_infos@)),
        cash_match_in(bals[b].cash_infos@) < 0
            ==> cash_match(bals.take(b + 1)) == cash_match(bals.take(b)),
{
    assert(bals.take(b + 1).drop_last() =~= bals.take(b));
    assert(bals.take(b + 1).last() == bals[b]);
}

/// A prefix that already holds a match keeps it when the next channel
/// has none.
proof fn lemma_pos_match_prefix(chs: Seq<StockPositionChannel>, sym: Seq<char>, c: int)
    requires
        0 <= c < chs.len(),
    ensures
        pos_match_in(chs[c].positions@, sym) >= 0
            ==> pos_match(chs.take(c + 1), sym)
                == (c, pos_match_in(chs[c].positions@, sym)),
        pos_match_in(chs[c].positions@, sym) < 0
            ==> pos_match(chs.take(c + 1), sym) == pos_match(chs.take(c), sym),
{
    assert(chs.take(c + 1).drop_last() =~= chs.take(c));
    assert(chs.take(c + 1).last() == chs[c]);
}

} // verus!

use aqt_stock::calculates::base_calculate::BaseCalculate;
use aqt_stock::calculates::cyc_calculate::CycCalculate;
use aqt_stock::calculates::kdj_calculate::KdjCalculate;
use aqt_stock::calculates::stc_calculate::STCCalculate;
use aqt_stock::candle::Candle;
use aqt_stock::config::SymbolConfig;
use aqt_stock::indicators::schaff_trend_cycle::SchaffTrendCycle;
use aqt_stock::indicators::tradingview_technicals::{TechnicalScores, TradingTechnicals};
use aqt_stock::models::market::MarketData;
use aqt_stock::models::symbol_time::SymbolTimeData;
use aqt_stock::strategys::vecor_v1::{AccountBalance, CashInfo, OrderIntent, VecorStrategy};

fn series(prices: &[f64]) -> Vec<Candle> {
    prices
        .iter()
        .enumerate()
        .map(|(i, &p)| {
            let open: f64 = if i > 0 { prices[i - 1] } else { p * 0.99 };
            let high = p * 1.01;
            let low = f64::min(open, p) * 0.99;
            Candle {
                timestamp: 1000 + 60 * i as u64,
                open: (open * 10000.0).round() as i64,
                high: (high * 10000.0).round() as i64,
                low: (low * 10000.0).round() as i64,
                close: (p * 10000.0).round() as i64,
                volume: 10_000_000,
            }
        })
        .collect()
}

fn with_tail(mut base: Vec<f64>, tail: &[f64]) -> Vec<f64> {
    for &d in tail {
        let next = base.last().unwrap() + d;
        base.push(next);
    }
    base
}

#[test]
fn kdj_oversold_votes_buy() {
    // A steady decline drives K and D under 20.
    let prices: Vec<f64> = (0..13).map(|i| 20.0 - 0.5 * i as f64).collect();
    let vote = KdjCalculate { candles: series(&prices) }.calculate();
    assert_eq!(vote, 1);
}

#[test]
fn stc_red_peak_votes_sell() {
    // A long climb, then a stumble two bars back with the trace still
    // above 75: the red signal fires on the last bar.
    let base: Vec<f64> = (0..50).map(|i| 100.0 + 0.5 * i as f64).collect();
    let prices = with_tail(base, &[-0.30, 2.50, -1.38, -2.96, 0.66, 2.95, 1.47, 0.40, -2.69,
        2.65]);
    let candles = series(&prices);

    let mut stc = SchaffTrendCycle::new(12, 26, 50);
    let signals = stc.calculate(&candles);
    let &(value, red, green) = signals.last().unwrap();
    assert!(red);
    assert!(!green);
    assert!(value > 750_000);

    let vote = STCCalculate { candles }.calculate();
    assert_eq!(vote, -1);
}

#[test]
fn stc_green_trough_votes_buy() {
    let base: Vec<f64> = (0..50).map(|i| 150.0 - 0.5 * i as f64).collect();
    let prices = with_tail(base, &[1.84, 2.04, -2.82, -2.28, 1.59, -0.69, 0.94, -0.48, 0.01,
        -0.77]);
    let candles = series(&prices);

    let mut stc = SchaffTrendCycle::new(12, 26, 50);
    let signals = stc.calculate(&candles);
    let &(value, red, green) = signals.last().unwrap();
    assert!(green);
    assert!(!red);
    assert!(value < 250_000);

    let vote = STCCalculate { candles }.calculate();
    assert_eq!(vote, 1);
}

#[test]
fn cyc_death_then_golden_cross() {
    let mut prices: Vec<f64> = (0..30).map(|i| 150.0 - i as f64).collect();
    prices.extend([121.0, 123.0, 126.0, 130.0, 135.0, 140.0, 146.0, 152.0, 158.0, 165.0]);
    let candles = series(&prices);

    // During the decline the short line crosses under the long one.
    let down: Vec<Candle> = candles.iter().take(34).cloned().collect();
    assert_eq!(CycCalculate { candles: down }.calculate(), -1);

    // The rebound drives it back above: a golden cross.
    let up: Vec<Candle> = candles.iter().take(37).cloned().collect();
    assert_eq!(CycCalculate { candles: up }.calculate(), 1);
}

fn config(symbol: &str) -> SymbolConfig {
    SymbolConfig {
        symbol: symbol.to_string(),
        symbol_type: "NASDAQ".to_string(),
        volume: 5_000,
        period: "15m".to_string(),
        tp_ratio: 5,
        sl_ratio: 5,
    }
}

fn event(symbol: &str, price: i64, ts: i64) -> MarketData {
    MarketData {
        symbol: symbol.to_string(),
        price,
        change: 0,
        volume: 0,
        high: price,
        low: price,
        open: price,
        close: price,
        ts,
    }
}

fn fixture14() -> Vec<Candle> {
    let raw = [
        (10.0, 12.0, 9.0, 11.0, 1000.0),
        (11.0, 14.0, 10.0, 13.0, 1500.0),
        (13.0, 15.0, 12.5, 14.0, 1200.0),
        (14.0, 14.5, 13.0, 13.5, 900.0),
        (13.5, 13.8, 12.0, 12.5, 1100.0),
        (12.5, 13.0, 11.5, 12.0, 800.0),
        (12.0, 12.8, 11.8, 12.5, 950.0),
        (12.5, 13.5, 12.2, 13.2, 1300.0),
        (13.2, 14.0, 13.0, 13.8, 1400.0),
        (13.8, 14.5, 13.5, 14.2, 1600.0),
        (14.2, 15.0, 14.0, 14.8, 1800.0),
        (14.8, 15.2, 14.5, 15.0, 2000.0),
        (15.0, 15.5, 14.8, 15.3, 1900.0),
        (15.3, 15.4, 14.0, 14.2, 2200.0),
    ];
    raw.iter()
        .enumerate()
        .map(|(i, &(o, h, l, c, v))| Candle {
            timestamp: 1000 + 60 * i as u64,
            open: (o * 10000.0) as i64,
            high: (h * 10000.0) as i64,
            low: (l * 10000.0) as i64,
            close: (c * 10000.0) as i64,
            volume: (v * 10000.0) as i64,
        })
        .collect()
}

fn seeded() -> VecorStrategy {
    let mut s = VecorStrategy::create(vec![config("X.US")]);
    s.next_run_time.push(SymbolTimeData {
        symbol: "X.US".to_string(),
        interval_time: 60,
        next_time: 1_780,
        last_time: 1_720,
    });
    s
}

fn usd_balance(withdraw: i64, available: i64) -> Vec<AccountBalance> {
    vec![AccountBalance {
        cash_infos: vec![CashInfo {
            currency: "USD".to_string(),
            available_cash: available,
            withdraw_cash: withdraw,
        }],
    }]
}

fn bullish() -> TradingTechnicals {
    TradingTechnicals {
        values: Some(TechnicalScores { summary: 8_000, ma: 0, oscillator: 0 }),
    }
}

#[test]
fn evaluate_suppresses_buy_near_cost_basis() {
    // The aggregated vote is buy, but the cost basis sits within 1% of
    // the market price: no pyramiding into the recent entry.  (Nothing
    // is available to sell, so the take-profit exit stays out of the
    // way.)
    let mut strategy = seeded();
    let intent = strategy.evaluate(
        &event("X.US", 142_000, 1_800),
        fixture14(),
        vec![aqt_stock::strategys::vecor_v1::StockPositionChannel {
            positions: vec![aqt_stock::strategys::vecor_v1::StockPosition {
                symbol: "X.US".to_string(),
                quantity: 10,
                available_quantity: 0,
                cost_price: 141_000,
            }],
        }],
        usd_balance(20_000_000, 10_000_000),
        Vec::new(),
        bullish(),
        100_000,
    );
    assert!(matches!(intent, OrderIntent::NoOp));
}

#[test]
fn evaluate_needs_withdrawable_margin() {
    // The buy vote survives, but the withdrawable balance does not
    // cover the committed cash with a 5% margin: nothing is sized.
    let mut strategy = seeded();
    let intent = strategy.evaluate(
        &event("X.US", 142_000, 1_800),
        fixture14(),
        Vec::new(),
        usd_balance(100_000, 10_000_000),
        Vec::new(),
        bullish(),
        100_000,
    );
    assert!(matches!(intent, OrderIntent::NoOp));
}

#[test]
fn evaluate_without_balances_does_nothing() {
    let mut strategy = seeded();
    let intent = strategy.evaluate(
        &event("X.US", 142_000, 1_800),
        fixture14(),
        Vec::new(),
        Vec::new(),
        Vec::new(),
        bullish(),
        100_000,
    );
    assert!(matches!(intent, OrderIntent::NoOp));
}

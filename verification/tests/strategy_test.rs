use aqt_stock::candle::Candle;
use aqt_stock::config::SymbolConfig;
use aqt_stock::indicators::tradingview_technicals::{TechnicalScores, TradingTechnicals};
use aqt_stock::models::market::MarketData;
use aqt_stock::models::symbol_time::SymbolTimeData;
use aqt_stock::strategys::vecor_v1::{
    AccountBalance, CashInfo, OrderGate, OrderInfo, OrderIntent, OrderSide, OrderStatus,
    StockPosition, StockPositionChannel, VecorStrategy, DEFAULT_THROTTLE_WINDOW,
};

fn candle(ts: u64, o: f64, h: f64, l: f64, c: f64, v: f64) -> Candle {
    Candle {
        timestamp: ts,
        open: (o * 10000.0).round() as i64,
        high: (h * 10000.0).round() as i64,
        low: (l * 10000.0).round() as i64,
        close: (c * 10000.0).round() as i64,
        volume: (v * 10000.0).round() as i64,
    }
}

fn fixture(n: usize) -> Vec<Candle> {
    let raw = [
        (10.0, 12.0, 9.0, 11.0, 1000.0),
        (11.0, 14.0, 10.0, 13.0, 1500.0),
        (13.0, 15.0, 12.5, 14.0, 1200.0),
        (14.0, 14.5, 13.0, 13.5, 900.0),
        (13.5, 13.8, 12.0, 12.5, 1100.0),
        (12.5, 13.0, 11.5, 12.0, 800.0),
        (12.0, 12.8, 11.8, 12.5, 950.0),
        (12.5, 13.5, 12.2, 13.2, 1300.0),
        (13.2, 14.0, 13.0, 13.8, 1400.0),
        (13.8, 14.5, 13.5, 14.2, 1600.0),
        (14.2, 15.0, 14.0, 14.8, 1800.0),
        (14.8, 15.2, 14.5, 15.0, 2000.0),
        (15.0, 15.5, 14.8, 15.3, 1900.0),
        (15.3, 15.4, 14.0, 14.2, 2200.0),
        (14.2, 14.3, 13.5, 13.8, 1700.0),
        (13.8, 14.0, 13.0, 13.2, 1500.0),
        (13.2, 13.5, 12.8, 13.0, 1400.0),
        (13.0, 13.2, 12.0, 12.3, 1300.0),
        (12.3, 12.5, 11.5, 12.0, 1100.0),
        (12.0, 13.0, 11.8, 12.8, 1400.0),
    ];
    raw.iter()
        .take(n)
        .enumerate()
        .map(|(i, &(o, h, l, c, v))| candle(1000 + 60 * i as u64, o, h, l, c, v))
        .collect()
}

fn config(symbol: &str) -> SymbolConfig {
    SymbolConfig {
        symbol: symbol.to_string(),
        symbol_type: "NASDAQ".to_string(),
        volume: 5_000,
        period: "15m".to_string(),
        tp_ratio: 5,
        sl_ratio: 5,
    }
}

fn event(symbol: &str, price: i64, ts: i64) -> MarketData {
    MarketData {
        symbol: symbol.to_string(),
        price,
        change: 0,
        volume: 0,
        high: price,
        low: price,
        open: price,
        close: price,
        ts,
    }
}

fn usd_balance(withdraw: i64, available: i64) -> Vec<AccountBalance> {
    vec![AccountBalance {
        cash_infos: vec![CashInfo {
            currency: "USD".to_string(),
            available_cash: available,
            withdraw_cash: withdraw,
        }],
    }]
}

fn technicals(summary: i64) -> TradingTechnicals {
    TradingTechnicals {
        values: Some(TechnicalScores { summary, ma: 0, oscillator: 0 }),
    }
}

#[test]
fn throttle_blocks_recent_order() {
    let orders = vec![OrderInfo {
        symbol: "X.US".to_string(),
        status: OrderStatus::Filled,
        submitted_at: 99_940,
        order_id: "a1".to_string(),
    }];
    let gate = VecorStrategy::handler_orders(
        orders, "X.US".to_string(), 100_000, DEFAULT_THROTTLE_WINDOW);
    assert!(matches!(gate, OrderGate::Throttled));
}

#[test]
fn throttle_ignores_other_symbols() {
    let orders = vec![
        OrderInfo {
            symbol: "Y.US".to_string(),
            status: OrderStatus::New,
            submitted_at: 99_940,
            order_id: "a1".to_string(),
        },
        OrderInfo {
            symbol: "Z.US".to_string(),
            status: OrderStatus::Filled,
            submitted_at: 99_990,
            order_id: "a2".to_string(),
        },
    ];
    let gate = VecorStrategy::handler_orders(
        orders, "X.US".to_string(), 100_000, DEFAULT_THROTTLE_WINDOW);
    assert!(matches!(gate, OrderGate::Proceed));
}

#[test]
fn throttle_cancels_stale_open_order() {
    let orders = vec![OrderInfo {
        symbol: "X.US".to_string(),
        status: OrderStatus::New,
        submitted_at: 90_000,
        order_id: "a9".to_string(),
    }];
    let gate = VecorStrategy::handler_orders(
        orders, "X.US".to_string(), 100_000, DEFAULT_THROTTLE_WINDOW);
    match gate {
        OrderGate::CancelOrder(id) => assert_eq!(id, "a9"),
        _ => panic!("expected a cancellation"),
    }
}

#[test]
fn close_position_triggers_on_gain_and_pullback() {
    // Cost 10.0, take-profit 5%: the previous close 11.0 is past the
    // threshold and the last close 10.9 pulls back about 0.9%.
    let mut candles = fixture(20);
    candles[18].close = 110_000;
    candles[19].close = 109_000;
    let stock = StockPosition {
        symbol: "X.US".to_string(),
        quantity: 100,
        available_quantity: 100,
        cost_price: 100_000,
    };
    assert!(VecorStrategy::handler_close_position(config("X.US"), candles, stock));
}

#[test]
fn close_position_needs_pullback() {
    // Still above the take-profit threshold but rising: no exit.
    let mut candles = fixture(20);
    candles[18].close = 109_000;
    candles[19].close = 110_000;
    let stock = StockPosition {
        symbol: "X.US".to_string(),
        quantity: 100,
        available_quantity: 100,
        cost_price: 100_000,
    };
    assert!(!VecorStrategy::handler_close_position(config("X.US"), candles, stock));
}

#[test]
fn evaluate_records_cadence_then_defers() {
    let mut strategy = VecorStrategy::create(vec![config("X.US")]);
    let intent = strategy.evaluate(
        &event("X.US", 142_000, 2_000),
        fixture(14),
        Vec::new(),
        usd_balance(20_000_000, 10_000_000),
        Vec::new(),
        technicals(8_000),
        100_000,
    );
    assert!(matches!(intent, OrderIntent::NoOp));
    assert_eq!(strategy.next_run_time.len(), 1);
    // Two intervals past the second-newest candle start (1720).
    assert_eq!(strategy.next_run_time[0].next_time, 1_840);
    assert_eq!(strategy.next_run_time[0].interval_time, 60);
}

#[test]
fn evaluate_submits_buy_when_votes_align() {
    let mut strategy = VecorStrategy::create(vec![config("X.US")]);
    strategy.next_run_time.push(SymbolTimeData {
        symbol: "X.US".to_string(),
        interval_time: 60,
        next_time: 1_780,
        last_time: 1_720,
    });
    // KDJ 0, MACD +1, STC 0, UT Bot +1, CYC 0, technicals +3: sum 5.
    let intent = strategy.evaluate(
        &event("X.US", 142_000, 1_800),
        fixture(14),
        Vec::new(),
        usd_balance(20_000_000, 10_000_000),
        Vec::new(),
        technicals(8_000),
        100_000,
    );
    match intent {
        OrderIntent::Submit { side, price, quantity } => {
            assert_eq!(side, OrderSide::Buy);
            assert_eq!(price, 142_000);
            // ceil(500.0 / 14.2) shares.
            assert_eq!(quantity, 36);
        },
        _ => panic!("expected a buy order"),
    }
}

#[test]
fn evaluate_submits_sell_and_respects_throttle() {
    let position = StockPositionChannel {
        positions: vec![StockPosition {
            symbol: "X.US".to_string(),
            quantity: 100,
            available_quantity: 100,
            cost_price: 100_000,
        }],
    };
    let seeded = || {
        let mut s = VecorStrategy::create(vec![config("X.US")]);
        s.next_run_time.push(SymbolTimeData {
            symbol: "X.US".to_string(),
            interval_time: 60,
            next_time: 2_140,
            last_time: 2_080,
        });
        s
    };
    // KDJ 0, MACD -1, STC 0, UT Bot -1, CYC 0, technicals -3: sum -5.
    let mut strategy = seeded();
    let intent = strategy.evaluate(
        &event("X.US", 128_000, 2_200),
        fixture(20),
        vec![StockPositionChannel { positions: position.positions.clone() }],
        usd_balance(20_000_000, 10_000_000),
        Vec::new(),
        technicals(-8_000),
        100_000,
    );
    match intent {
        OrderIntent::Submit { side, price, quantity } => {
            assert_eq!(side, OrderSide::Sell);
            assert_eq!(price, 128_000);
            assert_eq!(quantity, 100);
        },
        _ => panic!("expected a sell order"),
    }

    // The same tick with a fresh order in the history is throttled.
    let mut throttled = seeded();
    let intent = throttled.evaluate(
        &event("X.US", 128_000, 2_200),
        fixture(20),
        vec![StockPositionChannel { positions: position.positions.clone() }],
        usd_balance(20_000_000, 10_000_000),
        vec![OrderInfo {
            symbol: "X.US".to_string(),
            status: OrderStatus::Filled,
            submitted_at: 99_940,
            order_id: "a1".to_string(),
        }],
        technicals(-8_000),
        100_000,
    );
    assert!(matches!(intent, OrderIntent::NoOp));

    // A stale open order is cancelled instead.
    let mut cancelling = seeded();
    let intent = cancelling.evaluate(
        &event("X.US", 128_000, 2_200),
        fixture(20),
        vec![position],
        usd_balance(20_000_000, 10_000_000),
        vec![OrderInfo {
            symbol: "X.US".to_string(),
            status: OrderStatus::WaitToNew,
            submitted_at: 90_000,
            order_id: "a7".to_string(),
        }],
        technicals(-8_000),
        100_000,
    );
    match intent {
        OrderIntent::Cancel { order_id } => assert_eq!(order_id, "a7"),
        _ => panic!("expected a cancellation"),
    }
}

#[test]
fn evaluate_take_profit_overrides_aggregator() {
    // The position shows a 10% gain and the last bar pulls back 0.9%;
    // the bullish technicals would otherwise vote buy.
    let mut candles = fixture(20);
    candles[18].close = 110_000;
    candles[19].close = 109_000;
    let mut strategy = VecorStrategy::create(vec![config("X.US")]);
    strategy.next_run_time.push(SymbolTimeData {
        symbol: "X.US".to_string(),
        interval_time: 60,
        next_time: 2_140,
        last_time: 2_080,
    });
    let intent = strategy.evaluate(
        &event("X.US", 109_000, 2_200),
        candles,
        vec![StockPositionChannel {
            positions: vec![StockPosition {
                symbol: "X.US".to_string(),
                quantity: 100,
                available_quantity: 100,
                cost_price: 100_000,
            }],
        }],
        usd_balance(20_000_000, 10_000_000),
        Vec::new(),
        technicals(8_000),
        100_000,
    );
    match intent {
        OrderIntent::Submit { side, price, quantity } => {
            assert_eq!(side, OrderSide::Sell);
            assert_eq!(price, 109_000);
            assert_eq!(quantity, 100);
        },
        _ => panic!("expected the take-profit exit"),
    }
}

#[test]
fn evaluate_zero_price_is_ignored() {
    let mut strategy = VecorStrategy::create(vec![config("X.US")]);
    let intent = strategy.evaluate(
        &event("X.US", 0, 2_000),
        fixture(14),
        Vec::new(),
        Vec::new(),
        Vec::new(),
        TradingTechnicals { values: None },
        100_000,
    );
    assert!(matches!(intent, OrderIntent::NoOp));
    assert!(strategy.next_run_time.is_empty());
}

#[test]
fn sym_info_picks_last_match() {
    let mut cfg2 = config("X.US");
    cfg2.tp_ratio = 9;
    let found = VecorStrategy::get_sym_info(
        vec![config("Y.US"), config("X.US"), cfg2], "X.US".to_string());
    assert_eq!(found.tp_ratio, 9);
    let missing = VecorStrategy::get_sym_info(vec![config("Y.US")], "X.US".to_string());
    assert_eq!(missing.symbol, "");
    assert_eq!(missing.tp_ratio, 0);
}

#[test]
fn sym_time_info_returns_matched_slot() {
    let entries = vec![
        SymbolTimeData {
            symbol: "X.US".to_string(),
            interval_time: 60,
            next_time: 7,
            last_time: 1,
        },
        SymbolTimeData {
            symbol: "Y.US".to_string(),
            interval_time: 60,
            next_time: 9,
            last_time: 2,
        },
    ];
    let (index, data) = VecorStrategy::get_sym_time_info(entries, "X.US".to_string());
    assert_eq!(index, 0);
    assert_eq!(data.next_time, 7);
}

#[test]
fn evaluate_updates_only_the_matched_symbol_slot() {
    // Two symbols are tracked; a tick for the second leaves the
    // first's cadence untouched and its own next time never moves
    // backwards.
    let mut strategy =
        VecorStrategy::create(vec![config("W.US"), config("X.US")]);
    strategy.next_run_time.push(SymbolTimeData {
        symbol: "W.US".to_string(),
        interval_time: 60,
        next_time: 9_999,
        last_time: 9_939,
    });
    strategy.next_run_time.push(SymbolTimeData {
        symbol: "X.US".to_string(),
        interval_time: 60,
        next_time: 1_780,
        last_time: 1_660,
    });
    let intent = strategy.evaluate(
        &event("X.US", 142_000, 1_800),
        fixture(14),
        Vec::new(),
        usd_balance(20_000_000, 10_000_000),
        Vec::new(),
        technicals(8_000),
        100_000,
    );
    assert!(matches!(intent, OrderIntent::Submit { .. }));
    assert_eq!(strategy.next_run_time[0].symbol, "W.US");
    assert_eq!(strategy.next_run_time[0].next_time, 9_999);
    assert_eq!(strategy.next_run_time[1].symbol, "X.US");
    // The fresh candles give 1720 + 2 * 60.
    assert_eq!(strategy.next_run_time[1].next_time, 1_840);
    assert!(strategy.next_run_time[1].next_time >= 1_780);
}

#[test]
fn take_profit_scenario_sells_all() {
    // Cost 10.0, ratio 5%: the pre-pullback close sits one percent
    // past the take-profit price (10.6050) and the last close
    // retraces two percent (10.3929).  The exit fires although the
    // technicals vote buy.
    let mut candles = fixture(20);
    candles[18].close = 106_050;
    candles[19].close = 103_929;
    let mut strategy = VecorStrategy::create(vec![config("X.US")]);
    strategy.next_run_time.push(SymbolTimeData {
        symbol: "X.US".to_string(),
        interval_time: 60,
        next_time: 2_140,
        last_time: 2_080,
    });
    let intent = strategy.evaluate(
        &event("X.US", 103_929, 2_200),
        candles,
        vec![StockPositionChannel {
            positions: vec![StockPosition {
                symbol: "X.US".to_string(),
                quantity: 100,
                available_quantity: 100,
                cost_price: 100_000,
            }],
        }],
        usd_balance(20_000_000, 10_000_000),
        Vec::new(),
        technicals(8_000),
        100_000,
    );
    match intent {
        OrderIntent::Submit { side, quantity, .. } => {
            assert_eq!(side, OrderSide::Sell);
            assert_eq!(quantity, 100);
        },
        _ => panic!("expected the take-profit exit"),
    }
}

#[test]
fn timestamp_to_time_reads_cadence() {
    let candles =
        vec![candle(100, 1.0, 1.0, 1.0, 1.0, 1.0), candle(160, 1.0, 1.0, 1.0, 1.0, 1.0),
            candle(220, 1.0, 1.0, 1.0, 1.0, 1.0)];
    let (data, closed) = VecorStrategy::timestamp_to_time(candles, "X.US".to_string());
    assert_eq!(data.interval_time, 60);
    assert_eq!(data.next_time, 280);
    assert_eq!(data.last_time, 160);
    assert!(closed);
}

#[test]
fn handler_positions_picks_last_match() {
    let channels = vec![
        StockPositionChannel {
            positions: vec![StockPosition {
                symbol: "X.US".to_string(),
                quantity: 1,
                available_quantity: 1,
                cost_price: 10,
            }],
        },
        StockPositionChannel {
            positions: vec![
                StockPosition {
                    symbol: "Y.US".to_string(),
                    quantity: 2,
                    available_quantity: 2,
                    cost_price: 20,
                },
                StockPosition {
                    symbol: "X.US".to_string(),
                    quantity: 3,
                    available_quantity: 3,
                    cost_price: 30,
                },
            ],
        },
    ];
    let found = VecorStrategy::handler_positions(channels, "X.US".to_string());
    assert_eq!(found.quantity, 3);
    let none = VecorStrategy::handler_positions(Vec::new(), "X.US".to_string());
    assert_eq!(none.quantity, 0);
    assert_eq!(none.symbol, "");
}

use aqt_stock::candle::Candle;
use aqt_stock::indicators::utbot::UTBot;

fn candle(ts: u64, o: f64, h: f64, l: f64, c: f64, v: f64) -> Candle {
    Candle {
        timestamp: ts,
        open: (o * 10000.0).round() as i64,
        high: (h * 10000.0).round() as i64,
        low: (l * 10000.0).round() as i64,
        close: (c * 10000.0).round() as i64,
        volume: (v * 10000.0).round() as i64,
    }
}

fn fixture() -> Vec<Candle> {
    vec![
        candle(1, 10.0, 12.0, 9.0, 11.0, 1000.0),
        candle(2, 11.0, 14.0, 10.0, 13.0, 1500.0),
        candle(3, 13.0, 15.0, 12.5, 14.0, 1200.0),
        candle(4, 14.0, 14.5, 13.0, 13.5, 900.0),
        candle(5, 13.5, 13.8, 12.0, 12.5, 1100.0),
        candle(6, 12.5, 13.0, 11.5, 12.0, 800.0),
        candle(7, 12.0, 12.8, 11.8, 12.5, 950.0),
        candle(8, 12.5, 13.5, 12.2, 13.2, 1300.0),
        candle(9, 13.2, 14.0, 13.0, 13.8, 1400.0),
        candle(10, 13.8, 14.5, 13.5, 14.2, 1600.0),
        candle(11, 14.2, 15.0, 14.0, 14.8, 1800.0),
        candle(12, 14.8, 15.2, 14.5, 15.0, 2000.0),
        candle(13, 15.0, 15.5, 14.8, 15.3, 1900.0),
        candle(14, 15.3, 15.4, 14.0, 14.2, 2200.0),
        candle(15, 14.2, 14.3, 13.5, 13.8, 1700.0),
        candle(16, 13.8, 14.0, 13.0, 13.2, 1500.0),
        candle(17, 13.2, 13.5, 12.8, 13.0, 1400.0),
        candle(18, 13.0, 13.2, 12.0, 12.3, 1300.0),
        candle(19, 12.3, 12.5, 11.5, 12.0, 1100.0),
        candle(20, 12.0, 13.0, 11.8, 12.8, 1400.0),
    ]
}

#[test]
fn utbot_test() {
    let candles = fixture();

    let mut ubot = UTBot::new(10_000, 10, false);
    ubot.calculate(&candles);

    let stop = ubot.latest_stop().unwrap();
    assert_eq!(stop, 133_069);

    assert!(!ubot.is_long());
    assert!(ubot.is_short());

    let buy_signals = ubot.buy_signals();
    if let Some(&buy) = buy_signals.last() {
        assert!(!buy);
    }
    let sell_signals = ubot.sell_signals();
    if let Some(&sell) = sell_signals.last() {
        assert!(!sell);
    }

    let stops = ubot.trailing_stops();
    assert_eq!(stops.len(), candles.len());

    assert_eq!(ubot.latest_position().unwrap(), -1);

    for i in 0..candles.len() {
        println!(
            "{}\t{}\t{}\t{}\t{}\t{}",
            i + 1,
            candles[i].close,
            ubot.trailing_stops()[i],
            ubot.positions()[i],
            ubot.buy_signals()[i],
            ubot.sell_signals()[i]
        );
    }
}

#[test]
fn utbot_atr_warms_up_as_mean_of_true_ranges() {
    // True ranges of the first three bars: 3.0, 4.0 and 2.5; the ATR
    // warm-up is their cumulative mean.
    let candles = fixture();
    let mut ubot = UTBot::new(10_000, 10, false);
    ubot.calculate(&candles);
    assert_eq!(ubot.atr_values[0], 30_000);
    assert_eq!(ubot.atr_values[1], 35_000);
    assert_eq!(ubot.atr_values[2], 31_666);
}

#[test]
fn utbot_long_short_exclusive_on_every_window() {
    let candles = fixture();
    for n in 10..=candles.len() {
        let window: Vec<Candle> = candles.iter().take(n).cloned().collect();
        let mut ubot = UTBot::new(10_000, 10, false);
        ubot.calculate(&window);
        assert!(!(ubot.is_long() && ubot.is_short()));
        let src = window.last().unwrap().close;
        let stop = ubot.latest_stop().unwrap();
        if src != stop {
            assert!(ubot.is_long() != ubot.is_short());
        }
    }
}

#[test]
fn utbot_short_window_is_empty() {
    let candles: Vec<Candle> = fixture().into_iter().take(9).collect();
    let mut ubot = UTBot::new(10_000, 10, false);
    let (buy, sell) = ubot.calculate(&candles);
    assert!(buy.is_empty());
    assert!(sell.is_empty());
    assert!(ubot.latest_stop().is_none());
    assert!(!ubot.is_long());
    assert!(!ubot.is_short());
}

#[test]
fn utbot_heikin_ashi_stays_in_price_range() {
    let candles = fixture();
    let mut ubot = UTBot::new(10_000, 10, true);
    ubot.calculate(&candles);
    // The heikin-ashi source is an average of in-range prices.
    assert_eq!(ubot.trailing_stops().len(), candles.len());
    assert!(ubot.latest_stop().is_some());
}

use aqt_stock::calculates::base_calculate::BaseCalculate;
use aqt_stock::calculates::kdj_calculate::KdjCalculate;
use aqt_stock::calculates::macd_calculate::MacdCalculate;
use aqt_stock::calculates::utbot_calculate::UTBotCalculate;
use aqt_stock::candle::Candle;

fn candle(ts: u64, o: f64, h: f64, l: f64, c: f64, v: f64) -> Candle {
    Candle {
        timestamp: ts,
        open: (o * 10000.0).round() as i64,
        high: (h * 10000.0).round() as i64,
        low: (l * 10000.0).round() as i64,
        close: (c * 10000.0).round() as i64,
        volume: (v * 10000.0).round() as i64,
    }
}

/// The twenty-bar rising-then-falling series shared by the indicator
/// fixtures: up to a peak close at bar 13, down afterwards, a small
/// rebound on the last bar.
fn fixture(n: usize) -> Vec<Candle> {
    let raw = [
        (10.0, 12.0, 9.0, 11.0, 1000.0),
        (11.0, 14.0, 10.0, 13.0, 1500.0),
        (13.0, 15.0, 12.5, 14.0, 1200.0),
        (14.0, 14.5, 13.0, 13.5, 900.0),
        (13.5, 13.8, 12.0, 12.5, 1100.0),
        (12.5, 13.0, 11.5, 12.0, 800.0),
        (12.0, 12.8, 11.8, 12.5, 950.0),
        (12.5, 13.5, 12.2, 13.2, 1300.0),
        (13.2, 14.0, 13.0, 13.8, 1400.0),
        (13.8, 14.5, 13.5, 14.2, 1600.0),
        (14.2, 15.0, 14.0, 14.8, 1800.0),
        (14.8, 15.2, 14.5, 15.0, 2000.0),
        (15.0, 15.5, 14.8, 15.3, 1900.0),
        (15.3, 15.4, 14.0, 14.2, 2200.0),
        (14.2, 14.3, 13.5, 13.8, 1700.0),
        (13.8, 14.0, 13.0, 13.2, 1500.0),
        (13.2, 13.5, 12.8, 13.0, 1400.0),
        (13.0, 13.2, 12.0, 12.3, 1300.0),
        (12.3, 12.5, 11.5, 12.0, 1100.0),
        (12.0, 13.0, 11.8, 12.8, 1400.0),
    ];
    raw.iter()
        .take(n)
        .enumerate()
        .map(|(i, &(o, h, l, c, v))| candle(1 + i as u64, o, h, l, c, v))
        .collect()
}

#[test]
fn rising_then_falling_series_signals() {
    // On the uptrend segment (bar 14, right at the peak) MACD and UT
    // Bot both vote buy.
    let macd_buy = MacdCalculate { candles: fixture(14) }.calculate();
    assert_eq!(macd_buy, 1);
    let utbot_buy = UTBotCalculate { candles: fixture(14) }.calculate();
    assert_eq!(utbot_buy, 1);

    // KDJ stays above its D line through the whole uptrend, so no
    // golden cross fires there; its sell comes from the death cross
    // one bar past the peak.
    for n in 9..=14 {
        assert_eq!(KdjCalculate { candles: fixture(n) }.calculate(), 0);
    }
    let kdj_sell = KdjCalculate { candles: fixture(15) }.calculate();
    assert_eq!(kdj_sell, -1);

    // By the end of the downtrend MACD and UT Bot vote sell.
    assert_eq!(MacdCalculate { candles: fixture(20) }.calculate(), -1);
    assert_eq!(UTBotCalculate { candles: fixture(20) }.calculate(), -1);
}

#[test]
fn short_windows_vote_neutral() {
    // Any window shorter than a calculator's lookback votes exactly 0.
    for n in 0..9 {
        assert_eq!(KdjCalculate { candles: fixture(n) }.calculate(), 0);
    }
    for n in 0..3 {
        assert_eq!(MacdCalculate { candles: fixture(n) }.calculate(), 0);
    }
    for n in 0..10 {
        assert_eq!(UTBotCalculate { candles: fixture(n) }.calculate(), 0);
    }
}

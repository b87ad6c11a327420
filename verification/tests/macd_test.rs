use aqt_stock::candle::Candle;
use aqt_stock::indicators::macd::MACD;

fn candle(ts: u64, o: f64, h: f64, l: f64, c: f64, v: f64) -> Candle {
    Candle {
        timestamp: ts,
        open: (o * 10000.0).round() as i64,
        high: (h * 10000.0).round() as i64,
        low: (l * 10000.0).round() as i64,
        close: (c * 10000.0).round() as i64,
        volume: (v * 10000.0).round() as i64,
    }
}

fn fixture() -> Vec<Candle> {
    vec![
        candle(1, 10.0, 12.0, 9.0, 11.0, 1000.0),
        candle(2, 11.0, 14.0, 10.0, 13.0, 1500.0),
        candle(3, 13.0, 15.0, 12.5, 14.0, 1200.0),
        candle(4, 14.0, 14.5, 13.0, 13.5, 900.0),
        candle(5, 13.5, 13.8, 12.0, 12.5, 1100.0),
        candle(6, 12.5, 13.0, 11.5, 12.0, 800.0),
        candle(7, 12.0, 12.8, 11.8, 12.5, 950.0),
        candle(8, 12.5, 13.5, 12.2, 13.2, 1300.0),
        candle(9, 13.2, 14.0, 13.0, 13.8, 1400.0),
        candle(10, 13.8, 14.5, 13.5, 14.2, 1600.0),
        candle(11, 14.2, 15.0, 14.0, 14.8, 1800.0),
        candle(12, 14.8, 15.2, 14.5, 15.0, 2000.0),
        candle(13, 15.0, 15.5, 14.8, 15.3, 1900.0),
        candle(14, 15.3, 15.4, 14.0, 14.2, 2200.0),
        candle(15, 14.2, 14.3, 13.5, 13.8, 1700.0),
        candle(16, 13.8, 14.0, 13.0, 13.2, 1500.0),
        candle(17, 13.2, 13.5, 12.8, 13.0, 1400.0),
        candle(18, 13.0, 13.2, 12.0, 12.3, 1300.0),
        candle(19, 12.3, 12.5, 11.5, 12.0, 1100.0),
        candle(20, 12.0, 13.0, 11.8, 12.8, 1400.0),
    ]
}

#[test]
fn macd_test() {
    let candles = fixture();

    let mut macd = MACD::new(12, 26, 9);
    macd.set_display_options(true, true, true, true, true);

    let (buy_signals, sell_signals) = macd.calculate(&candles);

    assert_eq!(buy_signals.len(), candles.len());
    assert_eq!(sell_signals.len(), candles.len());

    for i in 0..candles.len() {
        if i < macd.macd_line().len() && i < macd.signal_line().len()
            && i < macd.histogram().len()
        {
            println!(
                "{}\t{}\t{}\t{}\t{}\t{}\t{}",
                i + 1,
                candles[i].close,
                macd.macd_line()[i],
                macd.signal_line()[i],
                macd.histogram()[i],
                buy_signals[i],
                sell_signals[i]
            );
        }
    }

    let n = candles.len();
    assert_eq!(macd.macd_line()[n - 1], 5_693);
    assert_eq!(macd.signal_line()[n - 1], 11_388);
    assert_eq!(macd.histogram()[n - 1], -5_695);
}

#[test]
fn macd_histogram_is_line_minus_signal() {
    let candles = fixture();
    let mut macd = MACD::new(12, 26, 9);
    let _ = macd.calculate(&candles);
    for i in 0..macd.histogram().len() {
        assert_eq!(macd.histogram()[i], macd.macd_line()[i] - macd.signal_line()[i]);
    }
}

#[test]
fn macd_buy_sell_flags_are_exclusive() {
    let candles = fixture();
    let mut macd = MACD::new(5, 10, 5);
    let (buy_signals, sell_signals) = macd.calculate(&candles);
    for i in 0..buy_signals.len() {
        assert!(!(buy_signals[i] && sell_signals[i]));
    }
}

#[test]
fn macd_empty_window_gives_empty_signals() {
    let candles: Vec<Candle> = Vec::new();
    let mut macd = MACD::new(12, 26, 9);
    let (buy_signals, sell_signals) = macd.calculate(&candles);
    assert!(buy_signals.is_empty());
    assert!(sell_signals.is_empty());
}

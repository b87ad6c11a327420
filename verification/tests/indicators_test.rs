use aqt_stock::calculates::base_calculate::BaseCalculate;
use aqt_stock::calculates::cyc_calculate::CycCalculate;
use aqt_stock::calculates::stc_calculate::STCCalculate;
use aqt_stock::candle::Candle;
use aqt_stock::indicators::cyc::CYC;
use aqt_stock::indicators::macd::{HistColor, MACD, MacdColor};

fn candle(ts: u64, o: f64, h: f64, l: f64, c: f64, v: f64) -> Candle {
    Candle {
        timestamp: ts,
        open: (o * 10000.0).round() as i64,
        high: (h * 10000.0).round() as i64,
        low: (l * 10000.0).round() as i64,
        close: (c * 10000.0).round() as i64,
        volume: (v * 10000.0).round() as i64,
    }
}

/// Fifty bars wandering between 90 and 115, as in the cycle fixture.
fn wave() -> Vec<Candle> {
    let prices = [
        100.0, 102.0, 104.0, 103.0, 105.0, 107.0, 109.0, 108.0, 106.0, 105.0, 103.0, 101.0,
        99.0, 98.0, 96.0, 95.0, 97.0, 99.0, 101.0, 103.0, 105.0, 107.0, 109.0, 111.0, 113.0,
        115.0, 114.0, 112.0, 110.0, 108.0, 106.0, 104.0, 102.0, 100.0, 98.0, 96.0, 94.0, 92.0,
        90.0, 92.0, 94.0, 96.0, 98.0, 100.0, 102.0, 104.0, 106.0, 108.0, 110.0, 112.0,
    ];
    prices
        .iter()
        .enumerate()
        .map(|(i, &p)| {
            let open: f64 = if i > 0 { prices[i - 1] } else { p * 0.99 };
            let high = p * 1.01;
            let low = f64::min(open, p) * 0.99;
            candle((i as u64) * 60000, open, high, low, p,
                1000.0 * (1.0 + (i as f64).sin()))
        })
        .collect()
}

#[test]
fn cyc_lines_are_volume_weighted_averages() {
    let candles = wave();
    let mut cyc = CYC::default();
    let (short_cyc, mid_cyc, long_cyc) = cyc.calculate(&candles);
    assert_eq!(short_cyc.len(), candles.len());
    assert_eq!(mid_cyc.len(), candles.len());
    assert_eq!(long_cyc.len(), candles.len());
    // Exact fixed-point values of the latest short and long lines.
    assert_eq!(short_cyc[49], 1_059_514);
    assert_eq!(long_cyc[49], 1_030_935);
    // Lines are zero before their window fills.
    assert_eq!(short_cyc[3], 0);
    assert_eq!(long_cyc[32], 0);
    // All values stay inside the price range.
    for &v in long_cyc.iter() {
        assert!(0 <= v && v <= 1_000_000_000);
    }
    let (s, m, l) = cyc.latest().unwrap();
    assert_eq!(s, 1_059_514);
    assert_eq!(m, mid_cyc[49]);
    assert_eq!(l, 1_030_935);
}

#[test]
fn cyc_signal_neutral_on_wave() {
    assert_eq!(CycCalculate { candles: wave() }.calculate(), 0);
}

#[test]
fn cyc_short_window_votes_neutral() {
    let candles: Vec<Candle> = wave().into_iter().take(33).collect();
    assert_eq!(CycCalculate { candles }.calculate(), 0);
    assert_eq!(CycCalculate { candles: Vec::new() }.calculate(), 0);
}

#[test]
fn cyc_zero_volume_gives_zero_line() {
    let candles: Vec<Candle> =
        (0..40).map(|i| candle(i, 10.0, 11.0, 9.0, 10.0, 0.0)).collect();
    let mut cyc = CYC::default();
    let (short_cyc, _, long_cyc) = cyc.calculate(&candles);
    assert_eq!(short_cyc[39], 0);
    assert_eq!(long_cyc[39], 0);
}

#[test]
fn stc_signal_neutral_on_wave() {
    assert_eq!(STCCalculate { candles: wave() }.calculate(), 0);
    let short: Vec<Candle> = wave().into_iter().take(49).collect();
    assert_eq!(STCCalculate { candles: short }.calculate(), 0);
}

#[test]
fn macd_colors_follow_the_lines() {
    let candles = wave();
    let mut macd = MACD::new(12, 26, 9);
    let _ = macd.calculate(&candles);
    let colors = macd.macd_colors();
    assert_eq!(colors.len(), macd.macd_line().len());
    for i in 0..colors.len() {
        let expected = if macd.macd_line()[i] >= macd.signal_line()[i] {
            MacdColor::Lime
        } else {
            MacdColor::Red
        };
        assert_eq!(colors[i], expected);
    }

    let hist_colors = macd.histogram_colors();
    assert_eq!(hist_colors.len(), macd.histogram().len());
    for i in 0..hist_colors.len() {
        let hist = macd.histogram()[i];
        let prev = if i > 0 { macd.histogram()[i - 1] } else { 0 };
        let expected = if hist > 0 {
            if hist > prev { HistColor::Aqua } else { HistColor::Blue }
        } else {
            if hist < prev { HistColor::Red } else { HistColor::Maroon }
        };
        assert_eq!(hist_colors[i], expected);
    }

    let crosses = macd.cross_points();
    assert_eq!(crosses.len(), macd.macd_line().len());
    assert!(!crosses[0]);
}

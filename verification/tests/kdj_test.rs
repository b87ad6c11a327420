use aqt_stock::candle::Candle;
use aqt_stock::indicators::kdj::KDJ;

fn candle(ts: u64, o: f64, h: f64, l: f64, c: f64, v: f64) -> Candle {
    Candle {
        timestamp: ts,
        open: (o * 10000.0).round() as i64,
        high: (h * 10000.0).round() as i64,
        low: (l * 10000.0).round() as i64,
        close: (c * 10000.0).round() as i64,
        volume: (v * 10000.0).round() as i64,
    }
}

fn fixture() -> Vec<Candle> {
    vec![
        candle(1, 10.0, 12.0, 9.0, 11.0, 1000.0),
        candle(2, 11.0, 14.0, 10.0, 13.0, 1500.0),
        candle(3, 13.0, 15.0, 12.5, 14.0, 1200.0),
        candle(4, 14.0, 14.5, 13.0, 13.5, 900.0),
        candle(5, 13.5, 13.8, 12.0, 12.5, 1100.0),
        candle(6, 12.5, 13.0, 11.5, 12.0, 800.0),
        candle(7, 12.0, 12.8, 11.8, 12.5, 950.0),
        candle(8, 12.5, 13.5, 12.2, 13.2, 1300.0),
        candle(9, 13.2, 14.0, 13.0, 13.8, 1400.0),
        candle(10, 13.8, 14.5, 13.5, 14.2, 1600.0),
        candle(11, 14.2, 15.0, 14.0, 14.8, 1800.0),
        candle(12, 14.8, 15.2, 14.5, 15.0, 2000.0),
        candle(13, 15.0, 15.5, 14.8, 15.3, 1900.0),
        candle(14, 15.3, 15.4, 14.0, 14.2, 2200.0),
        candle(15, 14.2, 14.3, 13.5, 13.8, 1700.0),
        candle(16, 13.8, 14.0, 13.0, 13.2, 1500.0),
        candle(17, 13.2, 13.5, 12.8, 13.0, 1400.0),
        candle(18, 13.0, 13.2, 12.0, 12.3, 1300.0),
        candle(19, 12.3, 12.5, 11.5, 12.0, 1100.0),
        candle(20, 12.0, 13.0, 11.8, 12.8, 1400.0),
    ]
}

#[test]
fn kdj_test() {
    let candles = fixture();

    let mut kdj = KDJ::default();
    let (k_values, d_values, j_values) = kdj.calculate(&candles);

    assert_eq!(k_values.len(), 20);
    assert_eq!(d_values.len(), 20);
    assert_eq!(j_values.len(), 20);

    if kdj.is_golden_cross() {
        println!("golden cross");
    }
    if kdj.is_oversold(200_000) {
        println!("oversold");
    }
    if kdj.is_death_cross() {
        println!("death cross");
    }
    if kdj.is_overbought(800_000) {
        println!("overbought");
    }

    let (k, d, j) = kdj.latest().unwrap();
    assert_eq!(k, 270_362);
    assert_eq!(d, 366_868);
    assert_eq!(j, 77_350);
}

#[test]
fn kdj_j_is_three_k_minus_two_d() {
    let candles = fixture();
    let mut kdj = KDJ::default();
    let (k_values, d_values, j_values) = kdj.calculate(&candles);
    for i in 0..k_values.len() {
        assert_eq!(j_values[i], 3 * k_values[i] - 2 * d_values[i]);
    }
}

#[test]
fn kdj_short_window_is_empty() {
    let candles: Vec<Candle> = fixture().into_iter().take(8).collect();
    let mut kdj = KDJ::default();
    let (k_values, d_values, j_values) = kdj.calculate(&candles);
    assert!(k_values.is_empty());
    assert!(d_values.is_empty());
    assert!(j_values.is_empty());
    assert!(kdj.latest().is_none());
    assert!(!kdj.is_golden_cross());
    assert!(!kdj.is_death_cross());
}

#[test]
fn kdj_flat_range_uses_midpoint() {
    // Nine identical candles: the high-low range is empty, so RSV and
    // K and D sit at the 50.0 midpoint.
    let candles: Vec<Candle> = (0..9).map(|i| candle(i, 10.0, 10.0, 10.0, 10.0, 1.0)).collect();
    let mut kdj = KDJ::default();
    let (k_values, d_values, _) = kdj.calculate(&candles);
    assert_eq!(k_values[8], 500_000);
    assert_eq!(d_values[8], 500_000);
}

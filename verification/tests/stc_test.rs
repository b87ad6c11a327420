use aqt_stock::candle::Candle;
use aqt_stock::indicators::schaff_trend_cycle::SchaffTrendCycle;

#[test]
fn stc_test() {
    let mut candles = Vec::new();
    let prices = vec![
        100.0, 102.0, 104.0, 103.0, 105.0, 107.0, 109.0, 108.0, 106.0, 105.0, 103.0, 101.0,
        99.0, 98.0, 96.0, 95.0, 97.0, 99.0, 101.0, 103.0, 105.0, 107.0, 109.0, 111.0, 113.0,
        115.0, 114.0, 112.0, 110.0, 108.0, 106.0, 104.0, 102.0, 100.0, 98.0, 96.0, 94.0, 92.0,
        90.0, 92.0, 94.0, 96.0, 98.0, 100.0, 102.0, 104.0, 106.0, 108.0, 110.0, 112.0,
    ];

    for (i, &price) in prices.iter().enumerate() {
        let open: f64 = if i > 0 { prices[i - 1] } else { price * 0.99 };
        let high = price * 1.01;
        let low: f64 = f64::min(open, price) * 0.99;
        candles.push(Candle {
            timestamp: (i as u64) * 60000,
            open: (open * 10000.0).round() as i64,
            high: (high * 10000.0).round() as i64,
            low: (low * 10000.0).round() as i64,
            close: (price * 10000.0).round() as i64,
            volume: (1000.0 * (1.0 + (i as f64).sin()) * 10000.0).round() as i64,
        });
    }

    let mut stc = SchaffTrendCycle::new(12, 26, 50);
    let signals = stc.calculate(&candles);

    assert_eq!(signals.len(), candles.len());

    for (i, (candle, (stc_value, red_signal, green_signal))) in
        candles.iter().zip(signals.iter()).enumerate()
    {
        println!("{}\t{}\t{}\t{}\t{}", i + 1, candle.close, stc_value, red_signal,
            green_signal);
        // The trace never leaves 0..=100.
        assert!(0 <= *stc_value && *stc_value <= 1_000_000);
    }

    let &(last_value, red_signal, green_signal) = signals.last().unwrap();
    assert_eq!(last_value, 946_591);
    assert!(!red_signal);
    assert!(!green_signal);
}

#[test]
fn stc_short_window_gives_empty_result() {
    let candles: Vec<Candle> = (0..49)
        .map(|i| Candle {
            timestamp: i,
            open: 1_000_000,
            high: 1_010_000,
            low: 990_000,
            close: 1_000_000,
            volume: 10_000,
        })
        .collect();
    let mut stc = SchaffTrendCycle::new(12, 26, 50);
    let signals = stc.calculate(&candles);
    assert!(signals.is_empty());
    assert!(stc.stc_values().is_empty());
}

use market_indicators::batch::{
    ColumnValues, EmaPartitionEvaluator, RsiPartitionEvaluator, SmaPartitionEvaluator,
};
use market_indicators::streaming::{
    MarketTick, SignalType, StreamingIndicatorValues, StreamingIndicators, StreamingProcessor,
    StreamingSignalDetector,
};

const SCALE: u64 = 1_000_000;

fn tick(price: u64, volume: u64) -> MarketTick {
    MarketTick {
        symbol: "AAPL".to_string(),
        timestamp: 1_700_000_000_000_000_000,
        price,
        volume,
        bid: Some(price - SCALE / 2),
        ask: Some(price + SCALE / 2),
    }
}

#[test]
fn test_streaming_indicators() {
    let mut indicators = StreamingIndicators::new("AAPL".to_string(), 10);
    let values = indicators.update(&tick(150 * SCALE, 1000));
    assert_eq!(values.symbol, "AAPL");
    assert_eq!(values.price, 150 * SCALE);
}

#[test]
fn test_signal_detection() {
    let indicators = StreamingIndicatorValues {
        symbol: "AAPL".to_string(),
        timestamp: 1_700_000_000_000_000_000,
        price: 150 * SCALE,
        volume: 1000,
        sma: Some(149 * SCALE),
        ema: Some(150 * SCALE + SCALE / 2),
        rsi: Some(25 * SCALE), // Oversold
        volume_sma: Some(500),
        volume_ratio: Some(2 * SCALE + SCALE / 2), // Volume spike
    };

    let detector = StreamingSignalDetector::new(indicators);
    let signals = detector.detect_signals();

    assert!(!signals.is_empty());
    assert!(signals.iter().any(|s| matches!(s.signal_type, SignalType::Oversold)));
    assert!(signals.iter().any(|s| matches!(s.signal_type, SignalType::VolumeSpike)));
}

#[test]
fn test_streaming_processor() {
    let mut processor = StreamingProcessor::new("AAPL".to_string(), 5);
    let signals = processor.process_tick(tick(150 * SCALE, 1000));
    // First tick typically doesn't generate signals due to insufficient data
    assert!(signals.is_empty() || !signals.is_empty());
}

#[test]
fn oversold_strength_at_rsi_twenty_five() {
    let indicators = StreamingIndicatorValues {
        symbol: "X".to_string(),
        timestamp: 7,
        price: 100,
        volume: 1,
        sma: None,
        ema: None,
        rsi: Some(25 * SCALE),
        volume_sma: None,
        volume_ratio: None,
    };
    let signals = StreamingSignalDetector::new(indicators).detect_signals();
    assert_eq!(signals.len(), 1);
    let s = &signals[0];
    assert!(matches!(s.signal_type, SignalType::Oversold));
    assert_eq!(s.price, 100);
    assert_eq!(s.timestamp, 7);
    // (30 - 25) / 30 = 0.166666..., truncated at the sixth decimal.
    assert_eq!(s.strength, 166_666);
    // Within 1e-4 of 0.1667.
    assert!((s.strength as i64 - 166_700).abs() <= 100);
    assert_eq!(s.description, "RSI oversold at 25.00");
}

#[test]
fn near_threshold_strengths_stay_positive() {
    let base = StreamingIndicatorValues {
        symbol: "X".to_string(),
        timestamp: 1,
        price: 100,
        volume: 1,
        sma: None,
        ema: None,
        rsi: None,
        volume_sma: None,
        volume_ratio: None,
    };

    // An RSI a hair under the oversold threshold: the exact quotient is
    // below one fixed-point unit and the strength floors up to it.
    let oversold = StreamingIndicatorValues { rsi: Some(30 * SCALE - 1), ..base.clone() };
    let signals = StreamingSignalDetector::new(oversold).detect_signals();
    assert_eq!(signals.len(), 1);
    assert!(matches!(signals[0].signal_type, SignalType::Oversold));
    assert_eq!(signals[0].strength, 1);
    assert_eq!(signals[0].description, "RSI oversold at 29.99");

    let overbought = StreamingIndicatorValues { rsi: Some(70 * SCALE + 1), ..base.clone() };
    let signals = StreamingSignalDetector::new(overbought).detect_signals();
    assert_eq!(signals.len(), 1);
    assert!(matches!(signals[0].signal_type, SignalType::Overbought));
    assert_eq!(signals[0].strength, 1);

    // A volume ratio a hair over 2: the spike still has positive strength.
    let spike = StreamingIndicatorValues { volume_ratio: Some(2 * SCALE + 1), ..base };
    let signals = StreamingSignalDetector::new(spike).detect_signals();
    assert_eq!(signals.len(), 1);
    assert!(matches!(signals[0].signal_type, SignalType::VolumeSpike));
    assert_eq!(signals[0].strength, 1);
}

#[test]
fn rsi_of_fifty_yields_no_signal() {
    let indicators = StreamingIndicatorValues {
        symbol: "X".to_string(),
        timestamp: 7,
        price: 100,
        volume: 1,
        sma: None,
        ema: None,
        rsi: Some(50 * SCALE),
        volume_sma: None,
        volume_ratio: None,
    };
    let signals = StreamingSignalDetector::new(indicators).detect_signals();
    assert!(signals.is_empty());
}

#[test]
fn volume_spike_strength_is_clamped() {
    let base = StreamingIndicatorValues {
        symbol: "X".to_string(),
        timestamp: 1,
        price: 10,
        volume: 100,
        sma: None,
        ema: None,
        rsi: None,
        volume_sma: Some(10),
        volume_ratio: Some(2 * SCALE + SCALE / 2),
    };
    let signals = StreamingSignalDetector::new(base.clone()).detect_signals();
    assert_eq!(signals.len(), 1);
    // (2.5 - 2) / 3 = 0.166666...
    assert_eq!(signals[0].strength, 166_666);

    let huge = StreamingIndicatorValues { volume_ratio: Some(100 * SCALE), ..base };
    let signals = StreamingSignalDetector::new(huge).detect_signals();
    assert_eq!(signals.len(), 1);
    assert_eq!(signals[0].strength, SCALE);
}

#[test]
fn crossover_dead_band_suppresses_near_equality() {
    let base = StreamingIndicatorValues {
        symbol: "X".to_string(),
        timestamp: 1,
        price: 100 * SCALE,
        volume: 1,
        sma: Some(100 * SCALE),
        ema: Some(100 * SCALE + 100_000), // 0.1% above: inside the band
        rsi: None,
        volume_sma: None,
        volume_ratio: None,
    };
    assert!(StreamingSignalDetector::new(base.clone()).detect_signals().is_empty());

    let bullish = StreamingIndicatorValues {
        ema: Some(100 * SCALE + 300_000), // 0.3% above
        ..base.clone()
    };
    let signals = StreamingSignalDetector::new(bullish).detect_signals();
    assert_eq!(signals.len(), 1);
    assert!(matches!(signals[0].signal_type, SignalType::BullishCrossover));
    // |ema - sma| / sma = 300000 * SCALE / 100000000 = 3000.
    assert_eq!(signals[0].strength, 3000);

    let bearish = StreamingIndicatorValues {
        ema: Some(100 * SCALE - 300_000), // 0.3% below
        ..base
    };
    let signals = StreamingSignalDetector::new(bearish).detect_signals();
    assert_eq!(signals.len(), 1);
    assert!(matches!(signals[0].signal_type, SignalType::BearishCrossover));
}

#[test]
fn streaming_matches_batch_at_every_tick() {
    let raw: Vec<u64> = [44u64, 47, 45, 50, 48, 52].iter().map(|x| x * SCALE).collect();
    let mut streaming = StreamingIndicators::new("AAPL".to_string(), 3);

    for k in 0..raw.len() {
        let values = streaming.update(&tick(raw[k], 1000));

        let prefix: Vec<Option<u64>> = raw[..=k].iter().map(|&p| Some(p)).collect();
        let rows = prefix.len();
        let args = vec![
            ColumnValues::Values(prefix.clone()),
            ColumnValues::Integers(vec![Some(3); rows]),
        ];

        let mut sma_ev = SmaPartitionEvaluator::new();
        let sma_out = sma_ev.evaluate_all(&args, rows).unwrap();
        assert_eq!(values.sma, sma_out[rows - 1]);

        let mut ema_ev = EmaPartitionEvaluator::new();
        let ema_out = ema_ev.evaluate_all(&args, rows).unwrap();
        assert_eq!(values.ema, ema_out[rows - 1]);

        let mut rsi_ev = RsiPartitionEvaluator::new();
        let rsi_out = rsi_ev.evaluate_all(&args, rows).unwrap();
        assert_eq!(values.rsi, rsi_out[rows - 1]);
    }
}

#[test]
fn streaming_window_values_are_exact() {
    let mut streaming = StreamingIndicators::new("AAPL".to_string(), 3);
    let prices = [44u64, 47, 45, 50, 48, 52];
    let mut last = None;
    for p in prices {
        last = Some(streaming.update(&tick(p * SCALE, 600)));
    }
    let values = last.unwrap();
    // Last window: 50, 48, 52 -> mean 50.
    assert_eq!(values.sma, Some(50 * SCALE));
    assert_eq!(values.ema, Some(49_906_250));
    assert_eq!(values.rsi, Some(77_272_741));
    // All volumes equal: ratio is exactly 1.
    assert_eq!(values.volume_sma, Some(600));
    assert_eq!(values.volume_ratio, Some(SCALE));
}

#[test]
fn volume_ratio_flags_a_spike() {
    let mut streaming = StreamingIndicators::new("AAPL".to_string(), 3);
    streaming.update(&tick(10 * SCALE, 100));
    streaming.update(&tick(10 * SCALE, 100));
    let values = streaming.update(&tick(10 * SCALE, 1000));
    // Window mean 400; ratio = 1000 / 400 = 2.5.
    assert_eq!(values.volume_sma, Some(400));
    assert_eq!(values.volume_ratio, Some(2 * SCALE + SCALE / 2));
    let signals = StreamingSignalDetector::new(values).detect_signals();
    assert!(signals.iter().any(|s| matches!(s.signal_type, SignalType::VolumeSpike)));
}

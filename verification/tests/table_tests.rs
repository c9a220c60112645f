use market_indicators::config::{DataSource, PolygonConfig};
use market_indicators::signals::{SignalDetector, SignalType};
use market_indicators::text::fmt_u64;
use market_indicators::types::{flat_file_key, flat_file_url, AssetClass, PolygonDataType};
use market_indicators::validator::{
    DayAggRow, MinuteAggRow, PolygonValidator, ValidationReport,
};

const SCALE: u64 = 1_000_000;

#[test]
fn rsi_buy_signals_on_a_falling_series() {
    let n = 16;
    let timestamps: Vec<i64> = (0..n).map(|i| i as i64 * 1_000).collect();
    let closes: Vec<Option<u64>> = (0..n).map(|i| Some((100 - i as u64) * SCALE)).collect();
    let signals = SignalDetector::detect_rsi_signals("AAPL", &timestamps, &closes);
    // The RSI needs 14 price changes, so rows 14 and 15 are classified;
    // with no gains at all the RSI is 0 and the confidence is full.
    assert_eq!(signals.len(), 2);
    assert!(matches!(signals[0].signal_type, SignalType::Buy));
    assert_eq!(signals[0].timestamp, 14_000);
    assert_eq!(signals[0].price, 86 * SCALE);
    assert_eq!(signals[0].confidence, SCALE);
    assert_eq!(signals[0].reason, "RSI oversold: 0.00");
    assert_eq!(signals[1].timestamp, 15_000);
}

#[test]
fn rsi_signals_quiet_inside_the_band() {
    // An alternating series keeps the RSI near 50: no signals at all.
    let n = 40;
    let timestamps: Vec<i64> = (0..n).map(|i| i as i64).collect();
    let closes: Vec<Option<u64>> = (0..n)
        .map(|i| Some((100 + (i as u64 % 2)) * SCALE))
        .collect();
    let signals = SignalDetector::detect_rsi_signals("AAPL", &timestamps, &closes);
    assert!(signals.is_empty());
}

#[test]
fn ma_crossover_detects_the_crossing_row() {
    let n = 60;
    let timestamps: Vec<i64> = (0..n).map(|i| i as i64 * 60).collect();
    let closes: Vec<Option<u64>> = (0..n)
        .map(|i| Some(if i < 50 { 100 } else { 200 }))
        .collect();
    let signals = SignalDetector::detect_ma_crossover_signals("MSFT", &timestamps, &closes);
    // Row 50 is the first where SMA20 (105) pulls above SMA50 (102).
    assert_eq!(signals.len(), 1);
    let s = &signals[0];
    assert!(matches!(s.signal_type, SignalType::Buy));
    assert_eq!(s.symbol, "MSFT");
    assert_eq!(s.timestamp, 50 * 60);
    assert_eq!(s.price, 200);
    // |105 - 102| / 200, scaled.
    assert_eq!(s.confidence, 15_000);
    assert_eq!(s.reason, "MA crossover: SMA20=105, SMA50=102");
}

#[test]
fn rsi_sell_signals_on_a_rising_series() {
    let n = 16;
    let timestamps: Vec<i64> = (0..n).map(|i| i as i64).collect();
    let closes: Vec<Option<u64>> = (0..n).map(|i| Some((100 + i as u64) * SCALE)).collect();
    let signals = SignalDetector::detect_rsi_signals("AAPL", &timestamps, &closes);
    // With no losses at all the RSI is exactly 100: a full-strength sell.
    assert_eq!(signals.len(), 2);
    assert!(matches!(signals[0].signal_type, SignalType::Sell));
    assert_eq!(signals[0].confidence, SCALE);
    assert_eq!(signals[0].reason, "RSI overbought: 100.00");
}

#[test]
fn ma_crossover_detects_a_downward_crossing() {
    let n = 60;
    let timestamps: Vec<i64> = (0..n).map(|i| i as i64).collect();
    let closes: Vec<Option<u64>> = (0..n)
        .map(|i| Some(if i < 50 { 200 } else { 100 }))
        .collect();
    let signals = SignalDetector::detect_ma_crossover_signals("MSFT", &timestamps, &closes);
    // Row 50: SMA20 = (19*200 + 100)/20 = 195, SMA50 = (49*200 + 100)/50 = 198.
    assert_eq!(signals.len(), 1);
    let s = &signals[0];
    assert!(matches!(s.signal_type, SignalType::Sell));
    assert_eq!(s.price, 100);
    // |195 - 198| / 100, scaled.
    assert_eq!(s.confidence, 30_000);
    assert_eq!(s.reason, "MA crossover: SMA20=195, SMA50=198");
}

#[test]
fn ma_crossover_quiet_on_a_flat_series() {
    let n = 60;
    let timestamps: Vec<i64> = (0..n).map(|i| i as i64).collect();
    let closes: Vec<Option<u64>> = (0..n).map(|_| Some(100)).collect();
    let signals = SignalDetector::detect_ma_crossover_signals("MSFT", &timestamps, &closes);
    assert!(signals.is_empty());
}

#[test]
fn minute_validation_counts_each_kind_of_violation() {
    let rows = vec![
        MinuteAggRow { window_start: 0, open: 10, high: 12, low: 9, close: 11, volume: 100 },
        MinuteAggRow {
            window_start: 30_000_000_000,
            open: 10,
            high: 12,
            low: 9,
            close: 11,
            volume: -5,
        },
        MinuteAggRow {
            window_start: 200_000_000_000,
            open: 10,
            high: 8,
            low: 9,
            close: 11,
            volume: 7,
        },
        MinuteAggRow {
            window_start: 230_000_000_000,
            open: 10,
            high: 12,
            low: 9,
            close: 11,
            volume: -1,
        },
    ];
    let report = PolygonValidator::validate_minute_aggs(&rows);
    assert_eq!(report.total_rows, 4);
    assert!(!report.passed);
    assert_eq!(report.checks.len(), 3);
    assert_eq!(report.checks[0], ("Negative Values".to_string(), 2));
    assert_eq!(report.checks[1], ("Time Gaps".to_string(), 1));
    assert_eq!(report.checks[2], ("Logic Errors".to_string(), 1));
}

#[test]
fn minute_validation_passes_clean_data() {
    let rows: Vec<MinuteAggRow> = (0..5)
        .map(|i| MinuteAggRow {
            window_start: i * 60_000_000_000,
            open: 10,
            high: 12,
            low: 9,
            close: 11,
            volume: 100,
        })
        .collect();
    let report = PolygonValidator::validate_minute_aggs(&rows);
    assert!(report.passed);
    assert_eq!(report.total_rows, 5);
}

#[test]
fn day_validation_counts_weekend_rows() {
    // Day 19728 since the epoch is Saturday 2024-01-06; 19730 is a Monday.
    let weekend = DayAggRow { date: 19728, open: 1, high: 2, low: 1, close: 2, volume: 10 };
    let monday = DayAggRow { date: 19730, open: 1, high: 2, low: 1, close: 2, volume: 10 };
    let report = PolygonValidator::validate_day_aggs(&vec![weekend, monday]);
    assert_eq!(report.total_rows, 2);
    assert_eq!(report.checks, vec![("Weekend Data".to_string(), 1)]);
    assert!(!report.passed);

    let report = PolygonValidator::validate_day_aggs(&vec![monday]);
    assert!(report.passed);
}

#[test]
fn report_summary_renders_exactly() {
    let mut report = ValidationReport::new();
    report.set_total_rows(42);
    report.add_check("A", 0);
    report.add_check("B", 3);
    assert!(!report.passed);
    assert_eq!(
        report.summary(),
        "Validation Report:\nTotal rows: 42\nOverall status: FAILED\n\n\
         ok A: 0 failed rows\nFAIL B: 3 failed rows\n"
    );

    let mut clean = ValidationReport::new();
    clean.set_total_rows(1);
    clean.add_check("A", 0);
    assert!(clean.passed);
    assert_eq!(
        clean.summary(),
        "Validation Report:\nTotal rows: 1\nOverall status: PASSED\n\nok A: 0 failed rows\n"
    );
}

#[test]
fn flat_file_paths_follow_the_layout() {
    let key = flat_file_key(&AssetClass::Stocks, &PolygonDataType::MinuteAggs, 2024, 3, 7);
    assert_eq!(key, "us_stocks_sip/minute_aggs_v1/2024/2024-03-07.csv.gz");
    let url = flat_file_url(
        "flatfiles",
        &AssetClass::Crypto,
        &PolygonDataType::DayAggs,
        2023,
        12,
        31,
    );
    assert_eq!(url, "s3://flatfiles/global_crypto/day_aggs_v1/2023/2023-12-31.csv.gz");
}

#[test]
fn asset_class_prefixes_are_fixed() {
    assert_eq!(AssetClass::Stocks.s3_prefix(), "us_stocks_sip");
    assert_eq!(AssetClass::Options.s3_prefix(), "us_options_opra");
    assert_eq!(AssetClass::Futures.s3_prefix(), "futures");
    assert_eq!(AssetClass::Indices.s3_prefix(), "indices");
    assert_eq!(AssetClass::Forex.s3_prefix(), "forex");
    assert_eq!(AssetClass::Crypto.s3_prefix(), "global_crypto");
}

#[test]
fn demo_config_holds_placeholders() {
    let config = PolygonConfig::demo();
    assert_eq!(config.access_key, "your_access_key_here");
    assert_eq!(config.secret_key, "your_secret_key_here");
    assert_eq!(config.endpoint, "https://files.polygon.io");
    assert_eq!(config.bucket, "flatfiles");

    match DataSource::s3(config) {
        DataSource::S3(c) => assert_eq!(c.bucket, "flatfiles"),
        DataSource::Local { .. } => panic!("expected an S3 source"),
    }
    match DataSource::local("/data/flatfiles".to_string()) {
        DataSource::Local { root } => assert_eq!(root, "/data/flatfiles"),
        DataSource::S3(_) => panic!("expected a local source"),
    }
}

#[test]
fn decimal_formatting_is_exact() {
    assert_eq!(fmt_u64(0), "0");
    assert_eq!(fmt_u64(907), "907");
    assert_eq!(fmt_u64(u64::MAX), "18446744073709551615");
}

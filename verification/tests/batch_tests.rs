use market_indicators::batch::{
    ColumnValues, EmaPartitionEvaluator, IndicatorError, MacdPartitionEvaluator,
    RsiPartitionEvaluator, SmaPartitionEvaluator,
};

const SCALE: u64 = 1_000_000;

fn series(vals: &[Option<u64>]) -> ColumnValues {
    ColumnValues::Values(vals.to_vec())
}

fn windows(n: i64, rows: usize) -> ColumnValues {
    ColumnValues::Integers(vec![Some(n); rows])
}

fn scaled(xs: &[u64]) -> Vec<Option<u64>> {
    xs.iter().map(|x| Some(x * SCALE)).collect()
}

#[test]
fn sma_window_three_over_one_to_ten() {
    let prices = scaled(&[1, 2, 3, 4, 5, 6, 7, 8, 9, 10]);
    let args = vec![series(&prices), windows(3, 10)];
    let mut ev = SmaPartitionEvaluator::new();
    let out = ev.evaluate_all(&args, 10).unwrap();
    let expected: Vec<Option<u64>> = vec![
        None,
        None,
        Some(2 * SCALE),
        Some(3 * SCALE),
        Some(4 * SCALE),
        Some(5 * SCALE),
        Some(6 * SCALE),
        Some(7 * SCALE),
        Some(8 * SCALE),
        Some(9 * SCALE),
    ];
    assert_eq!(out, expected);
}

#[test]
fn ema_window_three_example() {
    let prices = scaled(&[10, 12, 13, 12, 15]);
    let args = vec![series(&prices), windows(3, 5)];
    let mut ev = EmaPartitionEvaluator::new();
    let out = ev.evaluate_all(&args, 5).unwrap();
    let expected: Vec<Option<u64>> = vec![
        Some(10_000_000),
        Some(11_000_000),
        Some(12_000_000),
        Some(12_000_000),
        Some(13_500_000),
    ];
    assert_eq!(out, expected);
}

#[test]
fn rsi_is_exactly_one_hundred_without_losses() {
    let prices = scaled(&[10, 20, 30, 40]);
    let args = vec![series(&prices), windows(2, 4)];
    let mut ev = RsiPartitionEvaluator::new();
    let out = ev.evaluate_all(&args, 4).unwrap();
    assert_eq!(out, vec![None, None, Some(100 * SCALE), Some(100 * SCALE)]);
}

#[test]
fn rsi_seed_and_wilder_smoothing() {
    let prices = scaled(&[10, 11, 10, 13]);
    let args = vec![series(&prices), windows(2, 4)];
    let mut ev = RsiPartitionEvaluator::new();
    let out = ev.evaluate_all(&args, 4).unwrap();
    // Seed: average gain 500000, average loss 500000 -> RSI 50.
    // Wilder: gain (500000 + 3000000) / 2, loss 250000 -> RSI 87.5.
    assert_eq!(out, vec![None, None, Some(50_000_000), Some(87_500_000)]);
}

#[test]
fn macd_is_ema_difference_from_first_row() {
    let prices: Vec<Option<u64>> = vec![Some(1300), Some(2600)];
    let args = vec![series(&prices)];
    let mut ev = MacdPartitionEvaluator::new();
    let out = ev.evaluate_all(&args, 2).unwrap();
    // Row 0: both EMAs seed at 1300, difference 0.
    // Row 1: EMA12 = 19500/13 = 1500, EMA26 = 37700/27 = 1396.
    assert_eq!(out, vec![Some(0), Some(104)]);
}

#[test]
fn null_rows_propagate_without_touching_state() {
    let prices: Vec<Option<u64>> = vec![Some(10), None, Some(20), Some(30)];
    let args = vec![series(&prices), windows(2, 4)];
    let mut ev = SmaPartitionEvaluator::new();
    let out = ev.evaluate_all(&args, 4).unwrap();
    assert_eq!(out, vec![None, None, Some(15), Some(25)]);
}

#[test]
fn wrong_argument_count_is_rejected() {
    let prices: Vec<Option<u64>> = vec![Some(1)];
    let args = vec![series(&prices)];
    let mut ev = SmaPartitionEvaluator::new();
    assert_eq!(ev.evaluate_all(&args, 1), Err(IndicatorError::WrongArgumentCount));
    let mut macd = MacdPartitionEvaluator::new();
    let two = vec![series(&prices), windows(2, 1)];
    assert_eq!(macd.evaluate_all(&two, 1), Err(IndicatorError::WrongArgumentCount));
}

#[test]
fn wrong_argument_kind_is_rejected() {
    let prices: Vec<Option<u64>> = vec![Some(1)];
    let args = vec![windows(2, 1), windows(2, 1)];
    let mut ev = EmaPartitionEvaluator::new();
    assert_eq!(ev.evaluate_all(&args, 1), Err(IndicatorError::WrongArgumentType));
    let swapped = vec![series(&prices), series(&prices)];
    let mut ev2 = EmaPartitionEvaluator::new();
    assert_eq!(ev2.evaluate_all(&swapped, 1), Err(IndicatorError::WrongArgumentType));
}

#[test]
fn null_window_size_is_rejected() {
    let prices: Vec<Option<u64>> = vec![Some(1), Some(2)];
    let args = vec![series(&prices), ColumnValues::Integers(vec![None, None])];
    let mut ev = SmaPartitionEvaluator::new();
    assert_eq!(ev.evaluate_all(&args, 2), Err(IndicatorError::MissingWindowSize));
}

#[test]
fn non_positive_window_size_is_rejected() {
    let prices: Vec<Option<u64>> = vec![Some(1)];
    let mut ev = RsiPartitionEvaluator::new();
    let zero = vec![series(&prices), windows(0, 1)];
    assert_eq!(ev.evaluate_all(&zero, 1), Err(IndicatorError::InvalidWindowSize));
    let negative = vec![series(&prices), windows(-3, 1)];
    assert_eq!(ev.evaluate_all(&negative, 1), Err(IndicatorError::InvalidWindowSize));
}

#[test]
fn window_size_read_from_first_non_null() {
    let prices = scaled(&[1, 2, 3]);
    let wcol = ColumnValues::Integers(vec![None, Some(2), Some(9)]);
    let args = vec![series(&prices), wcol];
    let mut ev = SmaPartitionEvaluator::new();
    let out = ev.evaluate_all(&args, 3).unwrap();
    // The window size is 2 (the first non-null entry), not 9.
    assert_eq!(out, vec![None, Some(1_500_000), Some(2_500_000)]);
}

#[test]
fn reused_evaluator_matches_fresh_instance() {
    let first = scaled(&[5, 9, 2, 8, 4]);
    let second = scaled(&[10, 20, 30]);
    let args_first = vec![series(&first), windows(2, 5)];
    let args_second = vec![series(&second), windows(2, 3)];

    let mut reused = SmaPartitionEvaluator::new();
    let _ = reused.evaluate_all(&args_first, 5).unwrap();
    let from_reused = reused.evaluate_all(&args_second, 3).unwrap();

    let mut fresh = SmaPartitionEvaluator::new();
    let from_fresh = fresh.evaluate_all(&args_second, 3).unwrap();
    assert_eq!(from_reused, from_fresh);

    let mut reused_rsi = RsiPartitionEvaluator::new();
    let _ = reused_rsi.evaluate_all(&args_first, 5).unwrap();
    let rsi_reused = reused_rsi.evaluate_all(&args_second, 3).unwrap();
    let mut fresh_rsi = RsiPartitionEvaluator::new();
    let rsi_fresh = fresh_rsi.evaluate_all(&args_second, 3).unwrap();
    assert_eq!(rsi_reused, rsi_fresh);

    let mut reused_macd = MacdPartitionEvaluator::new();
    let one_first = vec![series(&first)];
    let one_second = vec![series(&second)];
    let _ = reused_macd.evaluate_all(&one_first, 5).unwrap();
    let macd_reused = reused_macd.evaluate_all(&one_second, 3).unwrap();
    let mut fresh_macd = MacdPartitionEvaluator::new();
    let macd_fresh = fresh_macd.evaluate_all(&one_second, 3).unwrap();
    assert_eq!(macd_reused, macd_fresh);
}

#[test]
fn macd_skips_null_rows_and_keeps_its_state() {
    let prices: Vec<Option<u64>> = vec![Some(1300), None, Some(2600)];
    let args = vec![series(&prices)];
    let mut ev = MacdPartitionEvaluator::new();
    let out = ev.evaluate_all(&args, 3).unwrap();
    // The null row emits null; the next row continues from row 0's state.
    assert_eq!(out, vec![Some(0), None, Some(104)]);
}

#[test]
fn output_length_always_matches_row_count() {
    let prices: Vec<Option<u64>> = vec![None, None, Some(7), None];
    let args = vec![series(&prices), windows(3, 4)];
    let mut ev = EmaPartitionEvaluator::new();
    let out = ev.evaluate_all(&args, 4).unwrap();
    assert_eq!(out.len(), 4);
    assert_eq!(out, vec![None, None, Some(7), None]);
}

//! Technical-indicator engine for ordered price series.
//!
//! The library computes simple and exponential moving averages, the relative
//! strength index and the MACD line over ordered numeric series, in two
//! modes: a batch mode that replays a fully materialized partition, and a
//! streaming mode that is fed one market tick at a time with bounded memory.
//! Signal-detection rules classify indicator outputs into trading signals,
//! and validation rules fold data-quality counts into a report.
//!
//! All values are fixed-point integers. Prices and volumes are `u64` values
//! in whatever scale the caller chose; ratios, RSI values and signal
//! strengths are scaled by [`SCALE`] (one unit is `1 / SCALE`). Every
//! division is floor division, stated exactly in the contracts.

use vstd::prelude::*;

pub mod batch;
pub mod config;
pub mod indicators;
pub mod laws;
pub mod signals;
pub mod streaming;
pub mod text;
pub mod types;
pub mod validator;

verus! {

/// Largest raw value (price or volume) the evaluators accept. The bound
/// keeps every window sum and smoothing step inside `u64`.
pub const VALUE_MAX: u64 = 1_000_000_000_000;

/// Largest window size an evaluator accepts.
pub const WINDOW_MAX: usize = 1_000_000;

/// Fixed-point unit for RSI values, volume ratios and signal strengths:
/// the value `x` stands for the real number `x / SCALE`.
pub const SCALE: u64 = 1_000_000;

} // verus!

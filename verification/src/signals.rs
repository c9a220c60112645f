//! Table-level signal detection over one symbol's ordered close series.
//!
//! These rules mirror the streaming detector but run over a whole
//! partition at once: the indicator columns are recomputed with the batch
//! recurrences, and each row is classified against fixed thresholds. The
//! caller hands in one symbol's rows, already ordered by time.

use vstd::prelude::*;

use crate::batch::{inputs_bounded, present, lemma_present_take_step, sma_out_at, rsi_out_at};
use crate::indicators::{opt_val_eq, RsiState, SmaState};
use crate::streaming::{overbought_strength, oversold_strength};
use crate::text::{dec_str, push_scaled_2dp, push_u64, two_dp_str};
use crate::{SCALE, VALUE_MAX};

verus! {

/// RSI period used by the table-level RSI rule.
pub const RSI_SIGNAL_PERIOD: usize = 14;

/// Fast SMA period of the table-level crossover rule.
pub const CROSSOVER_FAST: usize = 20;

/// Slow SMA period of the table-level crossover rule.
pub const CROSSOVER_SLOW: usize = 50;

/// Trading signal kinds of the table-level detector.
#[derive(Debug, Clone, Copy, PartialEq, Eq, Structural)]
pub enum SignalType {
    /// Enter a position.
    Buy,
    /// Exit a position.
    Sell,
    /// No action.
    Hold,
}

/// A trading signal detected from tabular data. Confidences are scaled
/// by [`SCALE`] and lie in `[0, SCALE]`: the RSI rules keep theirs
/// strictly positive, while a crossover whose spread is tiny relative to
/// the row's price can floor to zero.
#[derive(Debug, Clone)]
pub struct TradingSignal {
    /// Which rule fired.
    pub signal_type: SignalType,
    /// The instrument the signal belongs to.
    pub symbol: String,
    /// The row's timestamp, in nanoseconds since the epoch.
    pub timestamp: i64,
    /// The row's close price.
    pub price: u64,
    /// Confidence in `[0, SCALE]`, scaled by [`SCALE`].
    pub confidence: u64,
    /// A human-readable reason.
    pub reason: String,
}

/// Reason text of a table-level oversold signal.
pub open spec fn rsi_buy_desc(r: int) -> Seq<char> {
    "RSI oversold: "@ + two_dp_str(r)
}

/// Reason text of a table-level overbought signal.
pub open spec fn rsi_sell_desc(r: int) -> Seq<char> {
    "RSI overbought: "@ + two_dp_str(r)
}

/// Reason text of a moving-average crossover signal.
pub open spec fn crossover_desc(c20: int, c50: int) -> Seq<char> {
    "MA crossover: SMA20="@ + dec_str(c20) + ", SMA50="@ + dec_str(c50)
}

/// The table-level RSI rule on one row's RSI value: buy below 30, sell
/// above 70, nothing inside the band or while the RSI is absent.
pub open spec fn rsi_row_rule(o: Option<int>) -> Option<(SignalType, int, Seq<char>)> {
    match o {
        Option::Some(r) => if r < 30 * SCALE {
            Option::Some((SignalType::Buy, oversold_strength(r), rsi_buy_desc(r)))
        } else if r > 70 * SCALE {
            Option::Some((SignalType::Sell, overbought_strength(r), rsi_sell_desc(r)))
        } else {
            Option::None
        },
        Option::None => Option::None,
    }
}

/// Confidence of a crossover row: the spread between the two averages
/// relative to the row's price, clamped at 1; a zero price counts as an
/// unbounded relative spread, hence full confidence. The floored
/// quotient can be zero when the spread is small next to the price.
pub open spec fn spread_confidence(a: int, b: int, price: int) -> int {
    if price == 0 {
        SCALE as int
    } else {
        let d = if a >= b {
            a - b
        } else {
            b - a
        };
        if (d * SCALE) / price > SCALE {
            SCALE as int
        } else {
            (d * SCALE) / price
        }
    }
}

/// The crossover rule at row `i`: both averages and both previous-row
/// averages must be present, and the sign of their spread must have
/// changed from the previous row; upward crossings buy, downward ones
/// sell.
pub open spec fn crossover_row_rule(inp: Seq<Option<u64>>, i: int) -> Option<
    (SignalType, int, Seq<char>),
> {
    if i < 1 {
        Option::None
    } else {
        match (sma_out_at(inp, CROSSOVER_FAST as int, i), sma_out_at(inp, CROSSOVER_SLOW as int, i), sma_out_at(inp, CROSSOVER_FAST as int, i - 1), sma_out_at(inp, CROSSOVER_SLOW as int, i - 1), inp[i]) {
            (
                Option::Some(c20),
                Option::Some(c50),
                Option::Some(p20),
                Option::Some(p50),
                Option::Some(price),
            ) => if (p20 <= p50 && c20 > c50) || (p20 >= p50 && c20 < c50) {
                let kind = if c20 > c50 {
                    SignalType::Buy
                } else {
                    SignalType::Sell
                };
                Option::Some(
                    (kind, spread_confidence(c20, c50, price as int), crossover_desc(c20, c50)),
                )
            } else {
                Option::None
            },
            _ => Option::None,
        }
    }
}

/// The RSI signals owed for the first `k` rows: one entry per row whose
/// rule fired, in row order, tagged with its row index.
pub open spec fn rsi_signals_spec(inp: Seq<Option<u64>>, k: int) -> Seq<
    (int, (SignalType, int, Seq<char>)),
>
    decreases k,
{
    if k <= 0 {
        Seq::empty()
    } else {
        let rest = rsi_signals_spec(inp, k - 1);
        match rsi_row_rule(rsi_out_at(inp, RSI_SIGNAL_PERIOD as int, k - 1)) {
            Option::Some(x) => rest.push((k - 1, x)),
            Option::None => rest,
        }
    }
}

/// The crossover signals owed for the first `k` rows, in row order.
pub open spec fn crossover_signals_spec(inp: Seq<Option<u64>>, k: int) -> Seq<
    (int, (SignalType, int, Seq<char>)),
>
    decreases k,
{
    if k <= 0 {
        Seq::empty()
    } else {
        let rest = crossover_signals_spec(inp, k - 1);
        match crossover_row_rule(inp, k - 1) {
            Option::Some(x) => rest.push((k - 1, x)),
            Option::None => rest,
        }
    }
}

/// The signal carries the row's identity and exactly the kind, confidence
/// and reason the rule prescribes.
pub open spec fn row_signal_matches(
    sig: TradingSignal,
    sym: Seq<char>,
    ts: Seq<i64>,
    closes: Seq<Option<u64>>,
    item: (int, (SignalType, int, Seq<char>)),
) -> bool {
    &&& 0 <= item.0 < ts.len()
    &&& sig.signal_type == item.1.0
    &&& sig.symbol@ == sym
    &&& sig.timestamp == ts[item.0]
    &&& (closes[item.0] matches Some(p) && sig.price == p)
    &&& sig.confidence == item.1.1
    &&& sig.reason@ == item.1.2
}

/// Compute a spread confidence with its clamp.
fn spread_confidence_exec(a: u64, b: u64, price: u64) -> (r: u64)
    requires
        a <= VALUE_MAX,
        b <= VALUE_MAX,
    ensures
        r == spread_confidence(a as int, b as int, price as int),
        r <= SCALE,
{
    if price == 0 {
        SCALE
    } else {
        let d = if a >= b {
            a - b
        } else {
            b - a
        };
        let q = (d * SCALE) / price;
        if q > SCALE {
            SCALE
        } else {
            q
        }
    }
}

/// Signal detection over indicator columns of a table.
pub struct SignalDetector;

impl SignalDetector {
    /// Classify every row of one symbol's ordered close series against
    /// the 14-period RSI thresholds: below 30 emits a buy, above 70 a
    /// sell, with confidence proportional to the distance from the
    /// threshold. Rows whose RSI is still null emit nothing.
    pub fn detect_rsi_signals(symbol: &str, timestamps: &Vec<i64>, closes: &Vec<Option<u64>>) -> (r:
        Vec<TradingSignal>)
        requires
            timestamps@.len() == closes@.len(),
            inputs_bounded(closes@),
        ensures
            r@.len() == rsi_signals_spec(closes@, closes@.len() as int).len(),
            forall|j: int|
                0 <= j < r@.len() ==> row_signal_matches(
                    #[trigger] r@[j],
                    symbol@,
                    timestamps@,
                    closes@,
                    rsi_signals_spec(closes@, closes@.len() as int)[j],
                ),
            forall|j: int| 0 <= j < r@.len() ==> 0 < #[trigger] r@[j].confidence <= SCALE,
    {
        let mut signals: Vec<TradingSignal> = Vec::new();
        let mut st = RsiState::new(RSI_SIGNAL_PERIOD);
        let mut i: usize = 0;
        proof {
            assert(present(closes@.take(0)) =~= Seq::<u64>::empty());
        }
        while i < closes.len()
            invariant
                st.wf(),
                st.window == RSI_SIGNAL_PERIOD,
                st.hist@ == present(closes@.take(i as int)),
                timestamps@.len() == closes@.len(),
                inputs_bounded(closes@),
                0 <= i <= closes@.len(),
                signals@.len() == rsi_signals_spec(closes@, i as int).len(),
                forall|j: int|
                    0 <= j < signals@.len() ==> row_signal_matches(
                        #[trigger] signals@[j],
                        symbol@,
                        timestamps@,
                        closes@,
                        rsi_signals_spec(closes@, i as int)[j],
                    ),
                forall|j: int|
                    0 <= j < signals@.len() ==> 0 < #[trigger] signals@[j].confidence <= SCALE,
            decreases closes@.len() - i,
        {
            let ghost prev_spec = rsi_signals_spec(closes@, i as int);
            proof {
                lemma_present_take_step(closes@, i as int);
            }
            match closes[i] {
                Some(v) => {
                    let o = st.step(v);
                    match o {
                        Some(rv) => {
                            if rv < 30 * SCALE {
                                let confidence = crate::streaming::strength_oversold(rv);
                                let mut reason = String::new();
                                reason.append("RSI oversold: ");
                                push_scaled_2dp(&mut reason, rv);
                                proof {
                                    assert(reason@ =~= rsi_buy_desc(rv as int));
                                }
                                signals.push(
                                    TradingSignal {
                                        signal_type: SignalType::Buy,
                                        symbol: symbol_to_string(symbol),
                                        timestamp: timestamps[i],
                                        price: v,
                                        confidence,
                                        reason,
                                    },
                                );
                            } else if rv > 70 * SCALE {
                                let confidence = crate::streaming::strength_overbought(rv);
                                let mut reason = String::new();
                                reason.append("RSI overbought: ");
                                push_scaled_2dp(&mut reason, rv);
                                proof {
                                    assert(reason@ =~= rsi_sell_desc(rv as int));
                                }
                                signals.push(
                                    TradingSignal {
                                        signal_type: SignalType::Sell,
                                        symbol: symbol_to_string(symbol),
                                        timestamp: timestamps[i],
                                        price: v,
                                        confidence,
                                        reason,
                                    },
                                );
                            }
                        },
                        None => {},
                    }
                },
                None => {},
            }
            i = i + 1;
        }
        signals
    }

    /// Detect the rows where the 20-period SMA crosses the 50-period SMA
    /// of one symbol's ordered close series, comparing each row against
    /// the previous one: upward crossings emit a buy, downward ones a
    /// sell, with confidence proportional to the spread over the price.
    pub fn detect_ma_crossover_signals(
        symbol: &str,
        timestamps: &Vec<i64>,
        closes: &Vec<Option<u64>>,
    ) -> (r: Vec<TradingSignal>)
        requires
            timestamps@.len() == closes@.len(),
            inputs_bounded(closes@),
        ensures
            r@.len() == crossover_signals_spec(closes@, closes@.len() as int).len(),
            forall|j: int|
                0 <= j < r@.len() ==> row_signal_matches(
                    #[trigger] r@[j],
                    symbol@,
                    timestamps@,
                    closes@,
                    crossover_signals_spec(closes@, closes@.len() as int)[j],
                ),
            forall|j: int| 0 <= j < r@.len() ==> #[trigger] r@[j].confidence <= SCALE,
    {
        let mut signals: Vec<TradingSignal> = Vec::new();
        let mut st_fast = SmaState::new(CROSSOVER_FAST);
        let mut st_slow = SmaState::new(CROSSOVER_SLOW);
        let mut prev_fast: Option<u64> = None;
        let mut prev_slow: Option<u64> = None;
        let mut i: usize = 0;
        proof {
            assert(present(closes@.take(0)) =~= Seq::<u64>::empty());
        }
        while i < closes.len()
            invariant
                st_fast.wf(),
                st_slow.wf(),
                st_fast.window == CROSSOVER_FAST,
                st_slow.window == CROSSOVER_SLOW,
                st_fast.hist@ == present(closes@.take(i as int)),
                st_slow.hist@ == present(closes@.take(i as int)),
                timestamps@.len() == closes@.len(),
                inputs_bounded(closes@),
                0 <= i <= closes@.len(),
                i == 0 ==> prev_fast is None && prev_slow is None,
                i >= 1 ==> opt_val_eq(prev_fast, sma_out_at(closes@, CROSSOVER_FAST as int, i - 1))
                    && opt_val_eq(prev_slow, sma_out_at(closes@, CROSSOVER_SLOW as int, i - 1)),
                prev_fast matches Some(v) ==> v <= VALUE_MAX,
                prev_slow matches Some(v) ==> v <= VALUE_MAX,
                signals@.len() == crossover_signals_spec(closes@, i as int).len(),
                forall|j: int|
                    0 <= j < signals@.len() ==> row_signal_matches(
                        #[trigger] signals@[j],
                        symbol@,
                        timestamps@,
                        closes@,
                        crossover_signals_spec(closes@, i as int)[j],
                    ),
                forall|j: int|
                    0 <= j < signals@.len() ==> #[trigger] signals@[j].confidence <= SCALE,
            decreases closes@.len() - i,
        {
            proof {
                lemma_present_take_step(closes@, i as int);
            }
            let cur_fast: Option<u64>;
            let cur_slow: Option<u64>;
            match closes[i] {
                Some(v) => {
                    cur_fast = st_fast.step(v);
                    cur_slow = st_slow.step(v);
                    match (cur_fast, cur_slow, prev_fast, prev_slow) {
                        (Some(c20), Some(c50), Some(p20), Some(p50)) => {
                            if (p20 <= p50 && c20 > c50) || (p20 >= p50 && c20 < c50) {
                                let kind = if c20 > c50 {
                                    SignalType::Buy
                                } else {
                                    SignalType::Sell
                                };
                                let confidence = spread_confidence_exec(c20, c50, v);
                                let mut reason = String::new();
                                reason.append("MA crossover: SMA20=");
                                push_u64(&mut reason, c20);
                                reason.append(", SMA50=");
                                push_u64(&mut reason, c50);
                                proof {
                                    assert(reason@ =~= crossover_desc(c20 as int, c50 as int));
                                }
                                signals.push(
                                    TradingSignal {
                                        signal_type: kind,
                                        symbol: symbol_to_string(symbol),
                                        timestamp: timestamps[i],
                                        price: v,
                                        confidence,
                                        reason,
                                    },
                                );
                            }
                        },
                        _ => {},
                    }
                },
                None => {
                    cur_fast = None;
                    cur_slow = None;
                },
            }
            prev_fast = cur_fast;
            prev_slow = cur_slow;
            i = i + 1;
        }
        signals
    }
}

/// Copy a symbol slice into an owned string.
fn symbol_to_string(symbol: &str) -> (r: String)
    ensures
        r@ == symbol@,
{
    symbol.to_owned()
}

} // verus!

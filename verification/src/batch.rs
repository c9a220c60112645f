//! Batch partition evaluators.
//!
//! Each evaluator replays one indicator over a fully materialized,
//! already-ordered partition handed over as argument columns: it resets
//! all recurrence state at the start of the partition and applies the
//! recurrence once per row, so the output is a function of the partition's
//! columns alone — no state leaks from one partition into the next.
//!
//! A null input sample produces a null output at that position and leaves
//! the recurrence state untouched; the output sequence always has exactly
//! one entry per input row.

use vstd::prelude::*;

use crate::indicators::{
    ema_value, macd_value, opt_val_eq, rsi_out, sma_out, values_bounded, EmaState, MacdState,
    RsiState, SmaState,
};
use crate::{VALUE_MAX, WINDOW_MAX};

verus! {

/// One argument column of a partition evaluation.
#[derive(Debug, Clone)]
pub enum ColumnValues {
    /// A series column: one optional raw value per row.
    Values(Vec<Option<u64>>),
    /// An integer column: one optional signed integer per row.
    Integers(Vec<Option<i64>>),
}

/// A configuration error of an indicator evaluation. Data problems are
/// never errors — a null sample simply yields a null output.
#[derive(Debug, Clone, Copy, PartialEq, Eq, Structural)]
pub enum IndicatorError {
    /// The argument count does not match the indicator's shape.
    WrongArgumentCount,
    /// An argument column holds the wrong kind of values.
    WrongArgumentType,
    /// The window-size column holds no value at all.
    MissingWindowSize,
    /// The window size is not a positive integer within `WINDOW_MAX`.
    InvalidWindowSize,
}

/// The rows of a series column, empty for an integer column.
pub open spec fn col_values(c: ColumnValues) -> Seq<Option<u64>> {
    match c {
        ColumnValues::Values(v) => v@,
        ColumnValues::Integers(_) => Seq::empty(),
    }
}

/// The rows of an integer column, empty for a series column.
pub open spec fn col_ints(c: ColumnValues) -> Seq<Option<i64>> {
    match c {
        ColumnValues::Values(_) => Seq::empty(),
        ColumnValues::Integers(v) => v@,
    }
}

/// Every present value of the column is within the accepted range.
pub open spec fn inputs_bounded(s: Seq<Option<u64>>) -> bool {
    forall|i: int|
        0 <= i < s.len() ==> match #[trigger] s[i] {
            Some(v) => v <= VALUE_MAX,
            None => true,
        }
}

/// The values present in `s`, in order, with the null rows dropped.
pub open spec fn present(s: Seq<Option<u64>>) -> Seq<u64>
    decreases s.len(),
{
    if s.len() == 0 {
        Seq::empty()
    } else {
        match s.last() {
            Some(v) => present(s.drop_last()).push(v),
            None => present(s.drop_last()),
        }
    }
}

/// Extending the prefix by one row extends its present values by at most
/// that row's value.
pub proof fn lemma_present_take_step(s: Seq<Option<u64>>, i: int)
    requires
        0 <= i < s.len(),
    ensures
        present(s.take(i + 1)) == match s[i] {
            Some(v) => present(s.take(i)).push(v),
            None => present(s.take(i)),
        },
{
    assert(s.take(i + 1).drop_last() =~= s.take(i));
    assert(s.take(i + 1).last() == s[i]);
}

/// The present values of a bounded column are bounded.
pub proof fn lemma_present_bounded(s: Seq<Option<u64>>)
    requires
        inputs_bounded(s),
    ensures
        values_bounded(present(s)),
    decreases s.len(),
{
    if s.len() > 0 {
        assert(inputs_bounded(s.drop_last())) by {
            assert(forall|i: int|
                0 <= i < s.len() - 1 ==> s.drop_last()[i] == #[trigger] s[i]);
        }
        lemma_present_bounded(s.drop_last());
        match s.last() {
            Some(v) => {
                assert(s[s.len() - 1] matches Some(w) && w <= VALUE_MAX);
                assert(forall|i: int|
                    0 <= i < present(s).len() ==> #[trigger] present(s)[i] <= VALUE_MAX) by {
                    assert(forall|i: int|
                        0 <= i < present(s.drop_last()).len() ==> #[trigger] present(
                            s.drop_last(),
                        )[i] <= VALUE_MAX);
                }
            },
            None => {},
        }
    }
}

/// The first non-null entry of an integer column, scanning from the top.
pub open spec fn first_present_int(s: Seq<Option<i64>>) -> Option<i64>
    decreases s.len(),
{
    if s.len() == 0 {
        None
    } else {
        match s[0] {
            Some(v) => Some(v),
            None => first_present_int(s.skip(1)),
        }
    }
}

/// Scanning may start after any all-null prefix.
proof fn lemma_first_present_skip(s: Seq<Option<i64>>, i: int)
    requires
        0 <= i <= s.len(),
        forall|j: int| 0 <= j < i ==> #[trigger] s[j] is None,
    ensures
        first_present_int(s) == first_present_int(s.skip(i)),
    decreases i,
{
    if i > 0 {
        assert(s[0] is None);
        assert(forall|j: int|
            0 <= j < i - 1 ==> #[trigger] s.skip(1)[j] == s[j + 1]);
        lemma_first_present_skip(s.skip(1), i - 1);
        assert(s.skip(1).skip(i - 1) =~= s.skip(i));
    } else {
        assert(s.skip(0) =~= s);
    }
}

/// Read the window size as the first non-null entry of its column.
fn first_window(col: &Vec<Option<i64>>) -> (r: Option<i64>)
    ensures
        r == first_present_int(col@),
{
    let mut i: usize = 0;
    while i < col.len()
        invariant
            0 <= i <= col@.len(),
            forall|j: int| 0 <= j < i ==> #[trigger] col@[j] is None,
        decreases col@.len() - i,
    {
        if let Some(v) = col[i] {
            proof {
                lemma_first_present_skip(col@, i as int);
                assert(col@.skip(i as int)[0] == col@[i as int]);
            }
            return Some(v);
        }
        i = i + 1;
    }
    proof {
        lemma_first_present_skip(col@, col@.len() as int);
        assert(col@.skip(col@.len() as int) =~= Seq::<Option<i64>>::empty());
    }
    None
}

/// The configuration error of a two-column indicator call (series plus
/// window size), or `None` when the arguments are acceptable. The checks
/// are ordered: arity, then argument kinds, then the window size.
pub open spec fn two_col_error(args: Seq<ColumnValues>) -> Option<IndicatorError> {
    if args.len() != 2 {
        Some(IndicatorError::WrongArgumentCount)
    } else if !(args[0] matches ColumnValues::Values(_)) {
        Some(IndicatorError::WrongArgumentType)
    } else if !(args[1] matches ColumnValues::Integers(_)) {
        Some(IndicatorError::WrongArgumentType)
    } else {
        match first_present_int(col_ints(args[1])) {
            None => Some(IndicatorError::MissingWindowSize),
            Some(w) => if 1 <= w && w <= WINDOW_MAX as i64 {
                None
            } else {
                Some(IndicatorError::InvalidWindowSize)
            },
        }
    }
}

/// The window size of an acceptable two-column call.
pub open spec fn window_of(args: Seq<ColumnValues>) -> int {
    match first_present_int(col_ints(args[1])) {
        Some(w) => w as int,
        None => 0,
    }
}

/// The configuration error of a one-column indicator call, or `None`.
pub open spec fn one_col_error(args: Seq<ColumnValues>) -> Option<IndicatorError> {
    if args.len() != 1 {
        Some(IndicatorError::WrongArgumentCount)
    } else if !(args[0] matches ColumnValues::Values(_)) {
        Some(IndicatorError::WrongArgumentType)
    } else {
        None
    }
}

/// The callers of an evaluator hand it bounded series columns whose row
/// count matches `num_rows`.
pub open spec fn series_cols_ok(args: Seq<ColumnValues>, num_rows: int) -> bool {
    forall|k: int|
        0 <= k < args.len() ==> match #[trigger] args[k] {
            ColumnValues::Values(v) => v@.len() == num_rows && inputs_bounded(v@),
            ColumnValues::Integers(_) => true,
        }
}

/// The SMA output owed at row `i`: null on a null row, null while fewer
/// than `n` values have been seen, else the floored mean of the last `n`
/// present values.
pub open spec fn sma_out_at(inp: Seq<Option<u64>>, n: int, i: int) -> Option<int> {
    match inp[i] {
        None => None,
        Some(_) => sma_out(present(inp.take(i + 1)), n),
    }
}

/// The EMA output owed at row `i`: null on a null row, else the EMA of
/// all present values so far — present from the first value on.
pub open spec fn ema_out_at(inp: Seq<Option<u64>>, n: int, i: int) -> Option<int> {
    match inp[i] {
        None => None,
        Some(_) => Some(ema_value(present(inp.take(i + 1)), n)),
    }
}

/// The RSI output owed at row `i`: null on a null row and until `n` price
/// changes have been seen, else the scaled RSI.
pub open spec fn rsi_out_at(inp: Seq<Option<u64>>, n: int, i: int) -> Option<int> {
    match inp[i] {
        None => None,
        Some(_) => rsi_out(present(inp.take(i + 1)), n),
    }
}

/// The MACD output owed at row `i`: null on a null row, else fast EMA
/// minus slow EMA of all present values so far.
pub open spec fn macd_out_at(inp: Seq<Option<u64>>, i: int) -> Option<int> {
    match inp[i] {
        None => None,
        Some(_) => Some(macd_value(present(inp.take(i + 1)))),
    }
}

/// A signed output word agrees with the model integer.
pub open spec fn opt_int_eq(a: Option<i64>, b: Option<int>) -> bool {
    match (a, b) {
        (Option::None, Option::None) => true,
        (Option::Some(x), Option::Some(y)) => x as int == y,
        _ => false,
    }
}

/// Replays the simple moving average over one partition.
pub struct SmaPartitionEvaluator {
    /// The recurrence state left by the most recent replay.
    pub state: Option<SmaState>,
}

impl SmaPartitionEvaluator {
    /// Any retained state is well formed.
    pub open spec fn wf(&self) -> bool {
        match self.state {
            Some(st) => st.wf(),
            None => true,
        }
    }

    /// A fresh evaluator with no retained state.
    pub fn new() -> (r: SmaPartitionEvaluator)
        ensures
            r.wf(),
    {
        SmaPartitionEvaluator { state: None }
    }

    /// Reset all recurrence state, then replay the partition: the result
    /// is determined by the argument columns alone, never by an earlier
    /// partition. Expects a series column and a window-size column; the
    /// window size is read once, from the first non-null entry.
    pub fn evaluate_all(&mut self, args: &Vec<ColumnValues>, num_rows: usize) -> (r: Result<
        Vec<Option<u64>>,
        IndicatorError,
    >)
        requires
            old(self).wf(),
            series_cols_ok(args@, num_rows as int),
        ensures
            final(self).wf(),
            match r {
                Ok(out) => {
                    &&& two_col_error(args@) is None
                    &&& out@.len() == num_rows
                    &&& forall|i: int|
                        0 <= i < num_rows ==> opt_val_eq(
                            #[trigger] out@[i],
                            sma_out_at(col_values(args@[0]), window_of(args@), i),
                        )
                },
                Err(e) => two_col_error(args@) == Some(e),
            },
    {
        self.state = None;
        if args.len() != 2 {
            return Err(IndicatorError::WrongArgumentCount);
        }
        let prices: &Vec<Option<u64>> = match &args[0] {
            ColumnValues::Values(v) => v,
            ColumnValues::Integers(_) => {
                return Err(IndicatorError::WrongArgumentType);
            },
        };
        let wcol: &Vec<Option<i64>> = match &args[1] {
            ColumnValues::Integers(v) => v,
            ColumnValues::Values(_) => {
                return Err(IndicatorError::WrongArgumentType);
            },
        };
        let w_raw: i64 = match first_window(wcol) {
            Some(v) => v,
            None => {
                return Err(IndicatorError::MissingWindowSize);
            },
        };
        if w_raw < 1 || w_raw > WINDOW_MAX as i64 {
            return Err(IndicatorError::InvalidWindowSize);
        }
        let w: usize = w_raw as usize;
        let mut st = SmaState::new(w);
        let mut out: Vec<Option<u64>> = Vec::new();
        let mut i: usize = 0;
        proof {
            assert(present(prices@.take(0)) =~= Seq::<u64>::empty());
        }
        while i < num_rows
            invariant
                st.wf(),
                st.window == w,
                1 <= w <= WINDOW_MAX,
                st.hist@ == present(prices@.take(i as int)),
                prices@.len() == num_rows,
                inputs_bounded(prices@),
                out@.len() == i,
                0 <= i <= num_rows,
                forall|j: int|
                    0 <= j < i ==> opt_val_eq(
                        #[trigger] out@[j],
                        sma_out_at(prices@, w as int, j),
                    ),
            decreases num_rows - i,
        {
            proof {
                lemma_present_take_step(prices@, i as int);
            }
            match prices[i] {
                Some(v) => {
                    let o = st.step(v);
                    out.push(o);
                },
                None => {
                    out.push(None);
                },
            }
            i = i + 1;
        }
        self.state = Some(st);
        Ok(out)
    }
}

/// Replays the exponential moving average over one partition.
pub struct EmaPartitionEvaluator {
    /// The recurrence state left by the most recent replay.
    pub state: Option<EmaState>,
}

impl EmaPartitionEvaluator {
    /// Any retained state is well formed.
    pub open spec fn wf(&self) -> bool {
        match self.state {
            Some(st) => st.wf(),
            None => true,
        }
    }

    /// A fresh evaluator with no retained state.
    pub fn new() -> (r: EmaPartitionEvaluator)
        ensures
            r.wf(),
    {
        EmaPartitionEvaluator { state: None }
    }

    /// Reset all recurrence state, then replay the partition. The first
    /// present value seeds the average, so every non-null row from the
    /// first one on has a non-null output.
    pub fn evaluate_all(&mut self, args: &Vec<ColumnValues>, num_rows: usize) -> (r: Result<
        Vec<Option<u64>>,
        IndicatorError,
    >)
        requires
            old(self).wf(),
            series_cols_ok(args@, num_rows as int),
        ensures
            final(self).wf(),
            match r {
                Ok(out) => {
                    &&& two_col_error(args@) is None
                    &&& out@.len() == num_rows
                    &&& forall|i: int|
                        0 <= i < num_rows ==> opt_val_eq(
                            #[trigger] out@[i],
                            ema_out_at(col_values(args@[0]), window_of(args@), i),
                        )
                },
                Err(e) => two_col_error(args@) == Some(e),
            },
    {
        self.state = None;
        if args.len() != 2 {
            return Err(IndicatorError::WrongArgumentCount);
        }
        let prices: &Vec<Option<u64>> = match &args[0] {
            ColumnValues::Values(v) => v,
            ColumnValues::Integers(_) => {
                return Err(IndicatorError::WrongArgumentType);
            },
        };
        let wcol: &Vec<Option<i64>> = match &args[1] {
            ColumnValues::Integers(v) => v,
            ColumnValues::Values(_) => {
                return Err(IndicatorError::WrongArgumentType);
            },
        };
        let w_raw: i64 = match first_window(wcol) {
            Some(v) => v,
            None => {
                return Err(IndicatorError::MissingWindowSize);
            },
        };
        if w_raw < 1 || w_raw > WINDOW_MAX as i64 {
            return Err(IndicatorError::InvalidWindowSize);
        }
        let w: usize = w_raw as usize;
        let mut st = EmaState::new(w);
        let mut out: Vec<Option<u64>> = Vec::new();
        let mut i: usize = 0;
        proof {
            assert(present(prices@.take(0)) =~= Seq::<u64>::empty());
        }
        while i < num_rows
            invariant
                st.wf(),
                st.window == w,
                1 <= w <= WINDOW_MAX,
                st.hist@ == present(prices@.take(i as int)),
                prices@.len() == num_rows,
                inputs_bounded(prices@),
                out@.len() == i,
                0 <= i <= num_rows,
                forall|j: int|
                    0 <= j < i ==> opt_val_eq(
                        #[trigger] out@[j],
                        ema_out_at(prices@, w as int, j),
                    ),
            decreases num_rows - i,
        {
            proof {
                lemma_present_take_step(prices@, i as int);
            }
            match prices[i] {
                Some(v) => {
                    let e = st.step(v);
                    out.push(Some(e));
                },
                None => {
                    out.push(None);
                },
            }
            i = i + 1;
        }
        self.state = Some(st);
        Ok(out)
    }
}

/// Replays the relative strength index over one partition.
pub struct RsiPartitionEvaluator {
    /// The recurrence state left by the most recent replay.
    pub state: Option<RsiState>,
}

impl RsiPartitionEvaluator {
    /// Any retained state is well formed.
    pub open spec fn wf(&self) -> bool {
        match self.state {
            Some(st) => st.wf(),
            None => true,
        }
    }

    /// A fresh evaluator with no retained state.
    pub fn new() -> (r: RsiPartitionEvaluator)
        ensures
            r.wf(),
    {
        RsiPartitionEvaluator { state: None }
    }

    /// Reset all recurrence state, then replay the partition. The output
    /// is null until `n` price changes have accumulated, and exactly
    /// `100 · SCALE` at every step whose average loss is exactly zero.
    pub fn evaluate_all(&mut self, args: &Vec<ColumnValues>, num_rows: usize) -> (r: Result<
        Vec<Option<u64>>,
        IndicatorError,
    >)
        requires
            old(self).wf(),
            series_cols_ok(args@, num_rows as int),
        ensures
            final(self).wf(),
            match r {
                Ok(out) => {
                    &&& two_col_error(args@) is None
                    &&& out@.len() == num_rows
                    &&& forall|i: int|
                        0 <= i < num_rows ==> opt_val_eq(
                            #[trigger] out@[i],
                            rsi_out_at(col_values(args@[0]), window_of(args@), i),
                        )
                },
                Err(e) => two_col_error(args@) == Some(e),
            },
    {
        self.state = None;
        if args.len() != 2 {
            return Err(IndicatorError::WrongArgumentCount);
        }
        let prices: &Vec<Option<u64>> = match &args[0] {
            ColumnValues::Values(v) => v,
            ColumnValues::Integers(_) => {
                return Err(IndicatorError::WrongArgumentType);
            },
        };
        let wcol: &Vec<Option<i64>> = match &args[1] {
            ColumnValues::Integers(v) => v,
            ColumnValues::Values(_) => {
                return Err(IndicatorError::WrongArgumentType);
            },
        };
        let w_raw: i64 = match first_window(wcol) {
            Some(v) => v,
            None => {
                return Err(IndicatorError::MissingWindowSize);
            },
        };
        if w_raw < 1 || w_raw > WINDOW_MAX as i64 {
            return Err(IndicatorError::InvalidWindowSize);
        }
        let w: usize = w_raw as usize;
        let mut st = RsiState::new(w);
        let mut out: Vec<Option<u64>> = Vec::new();
        let mut i: usize = 0;
        proof {
            assert(present(prices@.take(0)) =~= Seq::<u64>::empty());
        }
        while i < num_rows
            invariant
                st.wf(),
                st.window == w,
                1 <= w <= WINDOW_MAX,
                st.hist@ == present(prices@.take(i as int)),
                prices@.len() == num_rows,
                inputs_bounded(prices@),
                out@.len() == i,
                0 <= i <= num_rows,
                forall|j: int|
                    0 <= j < i ==> opt_val_eq(
                        #[trigger] out@[j],
                        rsi_out_at(prices@, w as int, j),
                    ),
            decreases num_rows - i,
        {
            proof {
                lemma_present_take_step(prices@, i as int);
            }
            match prices[i] {
                Some(v) => {
                    let o = st.step(v);
                    out.push(o);
                },
                None => {
                    out.push(None);
                },
            }
            i = i + 1;
        }
        self.state = Some(st);
        Ok(out)
    }
}

/// Replays the MACD line over one partition.
pub struct MacdPartitionEvaluator {
    /// The recurrence state left by the most recent replay.
    pub state: Option<MacdState>,
}

impl MacdPartitionEvaluator {
    /// Any retained state is well formed.
    pub open spec fn wf(&self) -> bool {
        match self.state {
            Some(st) => st.wf(),
            None => true,
        }
    }

    /// A fresh evaluator with no retained state.
    pub fn new() -> (r: MacdPartitionEvaluator)
        ensures
            r.wf(),
    {
        MacdPartitionEvaluator { state: None }
    }

    /// Reset both EMA states, then replay the partition. Expects exactly
    /// one series column; the output is present from the first value on
    /// and equals the 12-period EMA minus the 26-period EMA at every row.
    pub fn evaluate_all(&mut self, args: &Vec<ColumnValues>, num_rows: usize) -> (r: Result<
        Vec<Option<i64>>,
        IndicatorError,
    >)
        requires
            old(self).wf(),
            series_cols_ok(args@, num_rows as int),
        ensures
            final(self).wf(),
            match r {
                Ok(out) => {
                    &&& one_col_error(args@) is None
                    &&& out@.len() == num_rows
                    &&& forall|i: int|
                        0 <= i < num_rows ==> opt_int_eq(
                            #[trigger] out@[i],
                            macd_out_at(col_values(args@[0]), i),
                        )
                },
                Err(e) => one_col_error(args@) == Some(e),
            },
    {
        self.state = None;
        if args.len() != 1 {
            return Err(IndicatorError::WrongArgumentCount);
        }
        let prices: &Vec<Option<u64>> = match &args[0] {
            ColumnValues::Values(v) => v,
            ColumnValues::Integers(_) => {
                return Err(IndicatorError::WrongArgumentType);
            },
        };
        let mut st = MacdState::new();
        let mut out: Vec<Option<i64>> = Vec::new();
        let mut i: usize = 0;
        proof {
            assert(present(prices@.take(0)) =~= Seq::<u64>::empty());
        }
        while i < num_rows
            invariant
                st.wf(),
                st.hist() == present(prices@.take(i as int)),
                prices@.len() == num_rows,
                inputs_bounded(prices@),
                out@.len() == i,
                0 <= i <= num_rows,
                forall|j: int|
                    0 <= j < i ==> opt_int_eq(#[trigger] out@[j], macd_out_at(prices@, j)),
            decreases num_rows - i,
        {
            proof {
                lemma_present_take_step(prices@, i as int);
            }
            match prices[i] {
                Some(v) => {
                    let m = st.step(v);
                    out.push(Some(m));
                },
                None => {
                    out.push(None);
                },
            }
            i = i + 1;
        }
        self.state = Some(st);
        Ok(out)
    }
}

} // verus!

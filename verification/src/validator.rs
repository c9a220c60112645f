//! Data-quality validation rules and the report they fold into.
//!
//! The rules consume already-loaded, already-ordered rows and count the
//! rows that violate each check; counting is the whole job — a failed
//! check is a report entry with a non-zero count, never an error. The
//! report is immutable after construction except for the explicit
//! accumulation calls, and passes exactly when no check counted a
//! failure.

use vstd::prelude::*;

use crate::text::dec_str;

verus! {

/// Largest row count the validators accept in one run; keeps every
/// violation count inside a machine word.
pub const MAX_VALIDATION_ROWS: usize = 100_000_000;

/// Largest acceptable gap between consecutive minute rows, in
/// nanoseconds: one minute.
pub const GAP_THRESHOLD_NS: i64 = 60_000_000_000;

/// One minute-aggregate row: a timestamp and scaled OHLCV values.
#[derive(Debug, Clone, Copy, PartialEq, Eq, Structural)]
pub struct MinuteAggRow {
    /// Window start, in nanoseconds since the epoch.
    pub window_start: i64,
    /// Opening price.
    pub open: i64,
    /// Highest price.
    pub high: i64,
    /// Lowest price.
    pub low: i64,
    /// Closing price.
    pub close: i64,
    /// Traded volume.
    pub volume: i64,
}

/// One day-aggregate row: a calendar day and scaled OHLCV values.
#[derive(Debug, Clone, Copy, PartialEq, Eq, Structural)]
pub struct DayAggRow {
    /// The trading day, counted in days since the epoch.
    pub date: u64,
    /// Opening price.
    pub open: i64,
    /// Highest price.
    pub high: i64,
    /// Lowest price.
    pub low: i64,
    /// Closing price.
    pub close: i64,
    /// Traded volume.
    pub volume: i64,
}

/// A data-quality validation report: one failed-row count per check, the
/// total row count, and a pass flag that holds exactly when no check has
/// a failure.
#[derive(Debug, Clone)]
pub struct ValidationReport {
    /// Check name and failed-row count, in the order the checks ran.
    pub checks: Vec<(String, usize)>,
    /// Number of rows the validated table held.
    pub total_rows: usize,
    /// Whether every check counted zero failed rows.
    pub passed: bool,
}

/// Text of the overall status.
pub open spec fn passed_text(p: bool) -> Seq<char> {
    if p {
        "PASSED"@
    } else {
        "FAILED"@
    }
}

/// Marker in front of one check line.
pub open spec fn status_mark(count: int) -> Seq<char> {
    if count == 0 {
        "ok"@
    } else {
        "FAIL"@
    }
}

/// One line of the report body.
pub open spec fn check_line(name: Seq<char>, count: int) -> Seq<char> {
    status_mark(count) + " "@ + name + ": "@ + dec_str(count) + " failed rows\n"@
}

/// The report body: one line per check, in order.
pub open spec fn check_lines(checks: Seq<(String, usize)>, k: int) -> Seq<char>
    decreases k,
{
    if k <= 0 {
        Seq::empty()
    } else {
        check_lines(checks, k - 1) + check_line(checks[k - 1].0@, checks[k - 1].1 as int)
    }
}

/// The whole report text.
pub open spec fn report_text(checks: Seq<(String, usize)>, total: int, passed: bool) -> Seq<char> {
    "Validation Report:\n"@ + "Total rows: "@ + dec_str(total) + "\n"@ + "Overall status: "@
        + passed_text(passed) + "\n\n"@ + check_lines(checks, checks.len() as int)
}

impl ValidationReport {
    /// The pass flag agrees with the recorded counts.
    pub open spec fn wf(&self) -> bool {
        self.passed <==> forall|i: int|
            0 <= i < self.checks@.len() ==> #[trigger] self.checks@[i].1 == 0
    }

    /// An empty report: no checks, no rows, passing.
    pub fn new() -> (r: ValidationReport)
        ensures
            r.wf(),
            r.checks@.len() == 0,
            r.total_rows == 0,
            r.passed,
    {
        ValidationReport { checks: Vec::new(), total_rows: 0, passed: true }
    }

    /// Record one check's failed-row count. A non-zero count makes the
    /// report fail; a zero count leaves the flag as it was. The list is
    /// append-only: recording the same name twice leaves two entries
    /// rather than overwriting the first.
    pub fn add_check(&mut self, name: &str, failed_rows: usize)
        requires
            old(self).wf(),
        ensures
            final(self).wf(),
            final(self).checks@.len() == old(self).checks@.len() + 1,
            forall|j: int|
                0 <= j < old(self).checks@.len() ==> final(self).checks@[j] == #[trigger] old(
                    self,
                ).checks@[j],
            final(self).checks@.last().0@ == name@,
            final(self).checks@.last().1 == failed_rows,
            final(self).total_rows == old(self).total_rows,
            final(self).passed == (old(self).passed && failed_rows == 0),
    {
        self.checks.push((name.to_owned(), failed_rows));
        if failed_rows > 0 {
            self.passed = false;
        }
        proof {
            let cs = self.checks@;
            let n = old(self).checks@.len() as int;
            assert(forall|j: int| 0 <= j < n ==> cs[j] == #[trigger] old(self).checks@[j]);
            if self.passed {
                assert forall|i: int| 0 <= i < cs.len() implies #[trigger] cs[i].1 == 0 by {
                    if i < n {
                        assert(old(self).checks@[i].1 == 0);
                    }
                }
            } else {
                if failed_rows == 0 {
                    let j = choose|j: int| 0 <= j < n && #[trigger] old(self).checks@[j].1 != 0;
                    assert(cs[j].1 != 0);
                } else {
                    assert(cs[n].1 != 0);
                }
            }
        }
    }

    /// Record the total row count of the validated table.
    pub fn set_total_rows(&mut self, count: usize)
        ensures
            final(self).checks@ == old(self).checks@,
            final(self).passed == old(self).passed,
            final(self).total_rows == count,
    {
        self.total_rows = count;
    }

    /// Render the report: a header with the total row count and overall
    /// status, then one line per check in the order the checks ran.
    pub fn summary(&self) -> (r: String)
        ensures
            r@ == report_text(self.checks@, self.total_rows as int, self.passed),
    {
        let mut s = String::new();
        s.append("Validation Report:\n");
        s.append("Total rows: ");
        crate::text::push_u64(&mut s, self.total_rows as u64);
        s.append("\n");
        s.append("Overall status: ");
        if self.passed {
            s.append("PASSED");
        } else {
            s.append("FAILED");
        }
        s.append("\n\n");
        let ghost head = s@;
        let mut i: usize = 0;
        while i < self.checks.len()
            invariant
                0 <= i <= self.checks@.len(),
                s@ == head + check_lines(self.checks@, i as int),
            decreases self.checks@.len() - i,
        {
            let pair = &self.checks[i];
            if pair.1 == 0 {
                s.append("ok");
            } else {
                s.append("FAIL");
            }
            s.append(" ");
            s.append(pair.0.as_str());
            s.append(": ");
            crate::text::push_u64(&mut s, pair.1 as u64);
            s.append(" failed rows\n");
            proof {
                assert(s@ =~= head + check_lines(self.checks@, i + 1));
            }
            i = i + 1;
        }
        proof {
            assert(s@ =~= report_text(self.checks@, self.total_rows as int, self.passed));
        }
        s
    }
}

impl Default for ValidationReport {
    /// The empty, passing report.
    fn default() -> (r: ValidationReport)
        ensures
            r.wf(),
            r.checks@.len() == 0,
            r.total_rows == 0,
            r.passed,
    {
        ValidationReport::new()
    }
}

/// Number of sign violations one minute row contributes: a negative
/// volume and each non-positive price count separately.
pub open spec fn negative_violations(row: MinuteAggRow) -> int {
    (if row.volume < 0 {
        1int
    } else {
        0int
    }) + (if row.open <= 0 {
        1int
    } else {
        0int
    }) + (if row.close <= 0 {
        1int
    } else {
        0int
    }) + (if row.high <= 0 {
        1int
    } else {
        0int
    }) + (if row.low <= 0 {
        1int
    } else {
        0int
    })
}

/// Sign violations over the first `k` rows.
pub open spec fn negative_count(rows: Seq<MinuteAggRow>, k: int) -> int
    decreases k,
{
    if k <= 0 {
        0
    } else {
        negative_count(rows, k - 1) + negative_violations(rows[k - 1])
    }
}

/// Whether the row's prices contradict each other.
pub open spec fn is_logic_error(row: MinuteAggRow) -> bool {
    row.high < row.low || row.high < row.open || row.high < row.close || row.low > row.open
        || row.low > row.close
}

/// Logic errors over the first `k` rows.
pub open spec fn logic_error_count(rows: Seq<MinuteAggRow>, k: int) -> int
    decreases k,
{
    if k <= 0 {
        0
    } else {
        logic_error_count(rows, k - 1) + if is_logic_error(rows[k - 1]) {
            1int
        } else {
            0int
        }
    }
}

/// Whether two consecutive timestamps are more than the threshold apart.
pub open spec fn is_gap(prev: i64, cur: i64) -> bool {
    cur - prev > GAP_THRESHOLD_NS
}

/// Gaps between consecutive rows among the first `k` rows.
pub open spec fn gap_count(rows: Seq<MinuteAggRow>, k: int) -> int
    decreases k,
{
    if k <= 1 {
        0
    } else {
        gap_count(rows, k - 1) + if is_gap(rows[k - 2].window_start, rows[k - 1].window_start) {
            1int
        } else {
            0int
        }
    }
}

/// Day of week of a day number, with Sunday as 0; the epoch's day zero
/// was a Thursday, hence the offset of 4.
pub open spec fn day_of_week(d: int) -> int {
    ((d % 7) + 4) % 7
}

/// Whether the day falls on a Saturday or Sunday.
pub open spec fn is_weekend(d: int) -> bool {
    day_of_week(d) == 0 || day_of_week(d) == 6
}

/// Weekend rows among the first `k` rows.
pub open spec fn weekend_count(rows: Seq<DayAggRow>, k: int) -> int
    decreases k,
{
    if k <= 0 {
        0
    } else {
        weekend_count(rows, k - 1) + if is_weekend(rows[k - 1].date as int) {
            1int
        } else {
            0int
        }
    }
}

/// Data-quality validation over already-loaded aggregate rows.
pub struct PolygonValidator;

impl PolygonValidator {
    /// Validate minute aggregates: count timestamp gaps over one minute
    /// between consecutive rows, sign violations in volume and prices,
    /// and internally contradictory price rows. The rows are expected in
    /// their table order, ordered by window start.
    pub fn validate_minute_aggs(rows: &Vec<MinuteAggRow>) -> (r: ValidationReport)
        requires
            rows@.len() <= MAX_VALIDATION_ROWS,
        ensures
            r.wf(),
            r.total_rows == rows@.len(),
            r.checks@.len() == 3,
            r.checks@[0].0@ == "Negative Values"@,
            r.checks@[0].1 == negative_count(rows@, rows@.len() as int),
            r.checks@[1].0@ == "Time Gaps"@,
            r.checks@[1].1 == gap_count(rows@, rows@.len() as int),
            r.checks@[2].0@ == "Logic Errors"@,
            r.checks@[2].1 == logic_error_count(rows@, rows@.len() as int),
            r.passed <==> (negative_count(rows@, rows@.len() as int) == 0 && gap_count(
                rows@,
                rows@.len() as int,
            ) == 0 && logic_error_count(rows@, rows@.len() as int) == 0),
    {
        let mut negatives: usize = 0;
        let mut gaps: usize = 0;
        let mut logic: usize = 0;
        let mut i: usize = 0;
        while i < rows.len()
            invariant
                0 <= i <= rows@.len(),
                rows@.len() <= MAX_VALIDATION_ROWS,
                negatives == negative_count(rows@, i as int),
                gaps == gap_count(rows@, i as int),
                logic == logic_error_count(rows@, i as int),
                negatives <= 5 * i,
                gaps <= i,
                logic <= i,
            decreases rows@.len() - i,
        {
            let row = rows[i];
            if row.volume < 0 {
                negatives = negatives + 1;
            }
            if row.open <= 0 {
                negatives = negatives + 1;
            }
            if row.close <= 0 {
                negatives = negatives + 1;
            }
            if row.high <= 0 {
                negatives = negatives + 1;
            }
            if row.low <= 0 {
                negatives = negatives + 1;
            }
            if i >= 1 {
                let prev = rows[i - 1].window_start;
                if (row.window_start as i128) - (prev as i128) > GAP_THRESHOLD_NS as i128 {
                    gaps = gaps + 1;
                }
            }
            if row.high < row.low || row.high < row.open || row.high < row.close || row.low
                > row.open || row.low > row.close {
                logic = logic + 1;
            }
            i = i + 1;
        }
        let mut report = ValidationReport::new();
        report.set_total_rows(rows.len());
        report.add_check("Negative Values", negatives);
        report.add_check("Time Gaps", gaps);
        report.add_check("Logic Errors", logic);
        report
    }

    /// Validate day aggregates: count rows dated on a Saturday or a
    /// Sunday, which daily market data should never contain.
    pub fn validate_day_aggs(rows: &Vec<DayAggRow>) -> (r: ValidationReport)
        requires
            rows@.len() <= MAX_VALIDATION_ROWS,
        ensures
            r.wf(),
            r.total_rows == rows@.len(),
            r.checks@.len() == 1,
            r.checks@[0].0@ == "Weekend Data"@,
            r.checks@[0].1 == weekend_count(rows@, rows@.len() as int),
            r.passed <==> weekend_count(rows@, rows@.len() as int) == 0,
    {
        let mut weekends: usize = 0;
        let mut i: usize = 0;
        while i < rows.len()
            invariant
                0 <= i <= rows@.len(),
                rows@.len() <= MAX_VALIDATION_ROWS,
                weekends == weekend_count(rows@, i as int),
                weekends <= i,
            decreases rows@.len() - i,
        {
            let dow = ((rows[i].date % 7) + 4) % 7;
            if dow == 0 || dow == 6 {
                weekends = weekends + 1;
            }
            i = i + 1;
        }
        let mut report = ValidationReport::new();
        report.set_total_rows(rows.len());
        report.add_check("Weekend Data", weekends);
        report
    }
}

} // verus!

//! Recurrence engines shared by the batch and streaming drivers.
//!
//! Each indicator is a small state machine over the sequence of values it
//! has been fed, in arrival order. The ghost field `hist` of each state
//! records that sequence, and the executable fields are tied to it by a
//! well-formedness predicate, so one `step` contract serves both the batch
//! replay and the live tick-by-tick use.

use vstd::prelude::*;
use vstd::arithmetic::div_mod::{
    lemma_div_is_ordered, lemma_div_multiples_vanish, lemma_div_pos_is_pos,
};

use crate::{SCALE, VALUE_MAX, WINDOW_MAX};

verus! {

/// Fast EMA period of the MACD line.
pub const MACD_FAST: usize = 12;

/// Slow EMA period of the MACD line.
pub const MACD_SLOW: usize = 26;

/// Every value of the sequence is within the accepted raw-value range.
pub open spec fn values_bounded(s: Seq<u64>) -> bool {
    forall|i: int| 0 <= i < s.len() ==> #[trigger] s[i] <= VALUE_MAX
}

/// Sum of a sequence of raw values.
pub open spec fn seq_sum(s: Seq<u64>) -> int
    decreases s.len(),
{
    if s.len() == 0 {
        0
    } else {
        seq_sum(s.drop_last()) + s.last()
    }
}

/// The last `n` elements of `s`; meaningful when `n <= s.len()`.
pub open spec fn last_window(s: Seq<u64>, n: int) -> Seq<u64> {
    s.subrange(s.len() - n, s.len() as int)
}

/// Simple moving average over the last `n` values: the floor of the mean.
pub open spec fn sma_value(s: Seq<u64>, n: int) -> int {
    seq_sum(last_window(s, n)) / n
}

/// One smoothing step of an `n`-period EMA: with α = 2/(n+1), the exact
/// rational α·p + (1−α)·prev equals (2·p + (n−1)·prev) / (n+1), floored.
pub open spec fn ema_step(prev: int, p: int, n: int) -> int {
    (2 * p + (n - 1) * prev) / (n + 1)
}

/// The `n`-period EMA of a non-empty value sequence: the first value seeds
/// the average, every later value is folded in by `ema_step`.
pub open spec fn ema_value(s: Seq<u64>, n: int) -> int
    decreases s.len(),
{
    if s.len() <= 1 {
        if s.len() == 1 {
            s[0] as int
        } else {
            0
        }
    } else {
        ema_step(ema_value(s.drop_last(), n), s.last() as int, n)
    }
}

/// Upward price change from position `i-1` to position `i`, clipped at 0.
pub open spec fn gain_at(s: Seq<u64>, i: int) -> int {
    if s[i] >= s[i - 1] {
        s[i] - s[i - 1]
    } else {
        0
    }
}

/// Downward price change from position `i-1` to position `i`, clipped at 0.
pub open spec fn loss_at(s: Seq<u64>, i: int) -> int {
    if s[i] <= s[i - 1] {
        s[i - 1] - s[i]
    } else {
        0
    }
}

/// Sum of the gains at positions `1..=k` of `s`.
pub open spec fn gain_sum(s: Seq<u64>, k: int) -> int
    decreases k,
{
    if k <= 0 {
        0
    } else {
        gain_sum(s, k - 1) + gain_at(s, k)
    }
}

/// Sum of the losses at positions `1..=k` of `s`.
pub open spec fn loss_sum(s: Seq<u64>, k: int) -> int
    decreases k,
{
    if k <= 0 {
        0
    } else {
        loss_sum(s, k - 1) + loss_at(s, k)
    }
}

/// Wilder smoothing step with factor 1/n: the exact rational
/// avg·(1−1/n) + x·(1/n) equals ((n−1)·avg + x) / n, floored.
pub open spec fn wilder_step(avg: int, x: int, n: int) -> int {
    ((n - 1) * avg + x) / n
}

/// Running average gain of `s` with period `n`, defined once `s` holds
/// `n+1` values (`n` price changes): seeded with the simple average of the
/// first `n` gains, then Wilder-smoothed for every later change.
pub open spec fn avg_gain(s: Seq<u64>, n: int) -> int
    decreases s.len(),
{
    if n < 1 || s.len() <= n + 1 {
        gain_sum(s, n) / n
    } else {
        wilder_step(avg_gain(s.drop_last(), n), gain_at(s, s.len() - 1), n)
    }
}

/// Running average loss of `s` with period `n`; mirror of [`avg_gain`].
pub open spec fn avg_loss(s: Seq<u64>, n: int) -> int
    decreases s.len(),
{
    if n < 1 || s.len() <= n + 1 {
        loss_sum(s, n) / n
    } else {
        wilder_step(avg_loss(s.drop_last(), n), loss_at(s, s.len() - 1), n)
    }
}

/// RSI from a pair of running averages, scaled by [`SCALE`]: exactly
/// `100·SCALE` when the average loss is zero, else the floor of
/// `100·SCALE·ag / (ag + al)`, which is the classic
/// `100 − 100/(1 + ag/al)` written over one denominator.
pub open spec fn rsi_from_avgs(ag: int, al: int) -> int {
    if al == 0 {
        100 * SCALE
    } else {
        (100 * SCALE * ag) / (ag + al)
    }
}

/// RSI of a value sequence with period `n`, defined once `n+1` values
/// (hence `n` price changes) have been seen.
pub open spec fn rsi_value(s: Seq<u64>, n: int) -> int {
    rsi_from_avgs(avg_gain(s, n), avg_loss(s, n))
}

/// MACD line of a non-empty value sequence: fast EMA minus slow EMA.
pub open spec fn macd_value(s: Seq<u64>) -> int {
    ema_value(s, MACD_FAST as int) - ema_value(s, MACD_SLOW as int)
}

/// A sequence of bounded values has a sum between 0 and `len · VALUE_MAX`.
pub proof fn lemma_seq_sum_bounds(s: Seq<u64>)
    requires
        values_bounded(s),
    ensures
        0 <= seq_sum(s) <= s.len() * VALUE_MAX,
    decreases s.len(),
{
    if s.len() > 0 {
        assert(values_bounded(s.drop_last())) by {
            assert(forall|i: int|
                0 <= i < s.len() - 1 ==> s.drop_last()[i] == #[trigger] s[i]);
        }
        lemma_seq_sum_bounds(s.drop_last());
        assert(s.last() <= VALUE_MAX);
        assert((s.len() - 1) * VALUE_MAX + VALUE_MAX == s.len() * VALUE_MAX) by (nonlinear_arith);
    }
}

/// An EMA step keeps the average inside the range of its inputs' bound.
pub proof fn lemma_ema_step_bounds(prev: int, p: int, n: int)
    requires
        1 <= n,
        0 <= prev <= VALUE_MAX,
        0 <= p <= VALUE_MAX,
    ensures
        0 <= ema_step(prev, p, n) <= VALUE_MAX,
{
    assert(2 * p + (n - 1) * prev <= (n + 1) * VALUE_MAX) by (nonlinear_arith)
        requires
            1 <= n,
            0 <= prev <= VALUE_MAX,
            0 <= p <= VALUE_MAX,
    ;
    assert(0 <= 2 * p + (n - 1) * prev) by (nonlinear_arith)
        requires
            1 <= n,
            0 <= prev,
            0 <= p,
    ;
    lemma_div_pos_is_pos(2 * p + (n - 1) * prev, n + 1);
    lemma_div_is_ordered(2 * p + (n - 1) * prev, (n + 1) * VALUE_MAX, n + 1);
    assert(((n + 1) * VALUE_MAX) / (n + 1) == VALUE_MAX) by (nonlinear_arith)
        requires
            1 <= n,
    ;
}

/// The EMA of a bounded sequence stays within the raw-value range.
pub proof fn lemma_ema_value_bounds(s: Seq<u64>, n: int)
    requires
        1 <= n,
        1 <= s.len(),
        values_bounded(s),
    ensures
        0 <= ema_value(s, n) <= VALUE_MAX,
    decreases s.len(),
{
    if s.len() == 1 {
        assert(s[0] <= VALUE_MAX);
    } else {
        assert(values_bounded(s.drop_last())) by {
            assert(forall|i: int|
                0 <= i < s.len() - 1 ==> s.drop_last()[i] == #[trigger] s[i]);
        }
        lemma_ema_value_bounds(s.drop_last(), n);
        assert(s.last() <= VALUE_MAX);
        lemma_ema_step_bounds(ema_value(s.drop_last(), n), s.last() as int, n);
    }
}

/// Result of an indicator step compared against its mathematical value:
/// both absent, or the machine word equal to the model integer.
pub open spec fn opt_val_eq(a: Option<u64>, b: Option<int>) -> bool {
    match (a, b) {
        (Option::None, Option::None) => true,
        (Option::Some(x), Option::Some(y)) => x as int == y,
        _ => false,
    }
}

/// The SMA output after the values `s` have been seen: absent until a full
/// window of `n` values is available, then the floored mean of the last `n`.
pub open spec fn sma_out(s: Seq<u64>, n: int) -> Option<int> {
    if s.len() >= n {
        Option::Some(sma_value(s, n))
    } else {
        Option::None
    }
}

/// The RSI output after the values `s` have been seen: absent until `n`
/// price changes (`n + 1` values) are available.
pub open spec fn rsi_out(s: Seq<u64>, n: int) -> Option<int> {
    if s.len() >= n + 1 {
        Option::Some(rsi_value(s, n))
    } else {
        Option::None
    }
}

/// What a bounded buffer holds after seeing `s`: all of `s` until it fills,
/// then the last `n` values.
pub open spec fn tail_window(s: Seq<u64>, n: int) -> Seq<u64> {
    if s.len() <= n {
        s
    } else {
        last_window(s, n)
    }
}

/// Sum a short vector of bounded values without overflow.
fn sum_values(v: &Vec<u64>) -> (r: u64)
    requires
        values_bounded(v@),
        v@.len() <= WINDOW_MAX,
    ensures
        r == seq_sum(v@),
{
    let mut sum: u64 = 0;
    let mut i: usize = 0;
    while i < v.len()
        invariant
            0 <= i <= v@.len(),
            v@.len() <= WINDOW_MAX,
            values_bounded(v@),
            sum == seq_sum(v@.take(i as int)),
            sum <= i * VALUE_MAX,
        decreases v@.len() - i,
    {
        proof {
            assert(v@.take(i + 1).drop_last() =~= v@.take(i as int));
            assert(v@.take(i + 1).last() == v@[i as int]);
            assert(sum + v@[i as int] <= (i + 1) * VALUE_MAX) by (nonlinear_arith)
                requires
                    sum <= i * VALUE_MAX,
                    0 <= i,
                    v@[i as int] <= VALUE_MAX,
            ;
            assert((i + 1) * VALUE_MAX <= (WINDOW_MAX + 1) * VALUE_MAX) by (nonlinear_arith)
                requires
                    0 <= i + 1 <= WINDOW_MAX + 1,
            ;
        }
        sum = sum + v[i];
        i = i + 1;
    }
    proof {
        assert(v@.take(v@.len() as int) =~= v@);
    }
    sum
}

/// A state machine for the `n`-period exponential moving average.
pub struct EmaState {
    /// The period `n`.
    pub window: usize,
    /// The current average, `None` until a first value arrives.
    pub value: Option<u64>,
    /// The values fed so far, oldest first.
    pub hist: Ghost<Seq<u64>>,
}

impl EmaState {
    /// The executable fields agree with the recorded history.
    pub open spec fn wf(&self) -> bool {
        &&& 1 <= self.window <= WINDOW_MAX
        &&& values_bounded(self.hist@)
        &&& match self.value {
            None => self.hist@.len() == 0,
            Some(v) => self.hist@.len() > 0 && v == ema_value(self.hist@, self.window as int),
        }
    }

    /// A fresh EMA state that has seen no values.
    pub fn new(window: usize) -> (r: EmaState)
        requires
            1 <= window <= WINDOW_MAX,
        ensures
            r.wf(),
            r.window == window,
            r.hist@ == Seq::<u64>::empty(),
    {
        EmaState { window, value: None, hist: Ghost(Seq::empty()) }
    }

    /// Fold one value into the average. The first value seeds the EMA
    /// directly; every later value is smoothed in, so the output is never
    /// absent once a value has been seen.
    pub fn step(&mut self, p: u64) -> (out: u64)
        requires
            old(self).wf(),
            p <= VALUE_MAX,
        ensures
            final(self).wf(),
            final(self).window == old(self).window,
            final(self).hist@ == old(self).hist@.push(p),
            out == ema_value(final(self).hist@, old(self).window as int),
            out <= VALUE_MAX,
    {
        let ghost h0 = self.hist@;
        proof {
            self.hist@ = h0.push(p);
        }
        let n = self.window;
        let out: u64 = match self.value {
            None => {
                assert(self.hist@.len() == 1);
                p
            },
            Some(prev) => {
                proof {
                    lemma_ema_value_bounds(h0, n as int);
                    lemma_ema_step_bounds(prev as int, p as int, n as int);
                    assert((n - 1) as u64 * prev <= (n + 1) * VALUE_MAX) by (nonlinear_arith)
                        requires
                            1 <= n <= WINDOW_MAX,
                            prev <= VALUE_MAX,
                    ;
                }
                let num: u64 = 2 * p + (n as u64 - 1) * prev;
                let e: u64 = num / (n as u64 + 1);
                proof {
                    assert(self.hist@.drop_last() == h0);
                    assert(e == ema_value(self.hist@, n as int));
                }
                e
            },
        };
        self.value = Some(out);
        out
    }
}

/// A state machine for the `n`-period simple moving average. It keeps the
/// last `n` values in a bounded first-in-first-out buffer and recomputes
/// the window sum from the live buffer on every step.
pub struct SmaState {
    /// The period `n`.
    pub window: usize,
    /// The last `min(count, n)` values seen, oldest first.
    pub buf: Vec<u64>,
    /// The values fed so far, oldest first.
    pub hist: Ghost<Seq<u64>>,
}

impl SmaState {
    /// The buffer holds exactly the tail of the recorded history.
    pub open spec fn wf(&self) -> bool {
        &&& 1 <= self.window <= WINDOW_MAX
        &&& values_bounded(self.hist@)
        &&& self.buf@ == tail_window(self.hist@, self.window as int)
    }

    /// A fresh SMA state that has seen no values.
    pub fn new(window: usize) -> (r: SmaState)
        requires
            1 <= window <= WINDOW_MAX,
        ensures
            r.wf(),
            r.window == window,
            r.hist@ == Seq::<u64>::empty(),
    {
        let r = SmaState { window, buf: Vec::new(), hist: Ghost(Seq::empty()) };
        proof {
            assert(r.buf@ =~= tail_window(r.hist@, window as int));
        }
        r
    }

    /// Sum of the values currently buffered.
    fn buf_sum(&self) -> (r: u64)
        requires
            self.wf(),
        ensures
            r == seq_sum(self.buf@),
    {
        proof {
            assert(values_bounded(self.buf@)) by {
                assert(forall|i: int|
                    0 <= i < self.buf@.len() ==> #[trigger] self.buf@[i] <= VALUE_MAX) by {
                    assert(forall|i: int|
                        0 <= i < self.buf@.len() ==> self.buf@[i] == #[trigger] self.hist@[
                            self.hist@.len() - self.buf@.len() + i]);
                }
            }
        }
        sum_values(&self.buf)
    }

    /// Fold one value into the window. The output stays absent until `n`
    /// values have been seen, then is the exact floored mean of the last
    /// `n` values — never a partial average.
    pub fn step(&mut self, p: u64) -> (out: Option<u64>)
        requires
            old(self).wf(),
            p <= VALUE_MAX,
        ensures
            final(self).wf(),
            final(self).window == old(self).window,
            final(self).hist@ == old(self).hist@.push(p),
            opt_val_eq(out, sma_out(final(self).hist@, old(self).window as int)),
            out matches Some(v) ==> v <= VALUE_MAX,
    {
        let ghost h0 = self.hist@;
        proof {
            self.hist@ = h0.push(p);
        }
        self.buf.push(p);
        if self.buf.len() > self.window {
            self.buf.remove(0);
            proof {
                assert(self.buf@ =~= tail_window(self.hist@, self.window as int));
            }
        } else {
            proof {
                assert(self.buf@ =~= tail_window(self.hist@, self.window as int));
            }
        }
        if self.buf.len() == self.window {
            let sum = self.buf_sum();
            proof {
                lemma_seq_sum_bounds(self.buf@);
                assert(self.buf@ =~= last_window(self.hist@, self.window as int));
                lemma_div_pos_is_pos(seq_sum(self.buf@), self.window as int);
                lemma_div_is_ordered(
                    seq_sum(self.buf@),
                    self.window as int * VALUE_MAX,
                    self.window as int,
                );
                lemma_div_multiples_vanish(VALUE_MAX as int, self.window as int);
            }
            Some(sum / (self.window as u64))
        } else {
            None
        }
    }

    /// Sum of the current full window, or `None` while the window is
    /// still filling. Callers use it where the exact window total matters,
    /// such as the volume-ratio computation.
    pub fn window_total(&self) -> (r: Option<u64>)
        requires
            self.wf(),
        ensures
            opt_val_eq(
                r,
                if self.hist@.len() >= self.window {
                    Option::Some(seq_sum(last_window(self.hist@, self.window as int)))
                } else {
                    Option::None
                },
            ),
    {
        if self.buf.len() == self.window {
            proof {
                assert(self.buf@ =~= last_window(self.hist@, self.window as int));
            }
            Some(self.buf_sum())
        } else {
            None
        }
    }
}

/// Each clipped price change lies within the raw-value range.
pub proof fn lemma_change_bounds(s: Seq<u64>, i: int)
    requires
        values_bounded(s),
        1 <= i < s.len(),
    ensures
        0 <= gain_at(s, i) <= VALUE_MAX,
        0 <= loss_at(s, i) <= VALUE_MAX,
{
    assert(s[i] <= VALUE_MAX);
    assert(s[i - 1] <= VALUE_MAX);
}

/// The sum of the first `k` gains (or losses) lies in `[0, k · VALUE_MAX]`.
pub proof fn lemma_change_sum_bounds(s: Seq<u64>, k: int)
    requires
        values_bounded(s),
        0 <= k < s.len(),
    ensures
        0 <= gain_sum(s, k) <= k * VALUE_MAX,
        0 <= loss_sum(s, k) <= k * VALUE_MAX,
    decreases k,
{
    if k > 0 {
        lemma_change_sum_bounds(s, k - 1);
        lemma_change_bounds(s, k);
        assert((k - 1) * VALUE_MAX + VALUE_MAX == k * VALUE_MAX) by (nonlinear_arith);
    }
}

/// A Wilder smoothing step keeps the average inside its inputs' bound.
pub proof fn lemma_wilder_step_bounds(avg: int, x: int, n: int)
    requires
        1 <= n,
        0 <= avg <= VALUE_MAX,
        0 <= x <= VALUE_MAX,
    ensures
        0 <= wilder_step(avg, x, n) <= VALUE_MAX,
{
    assert((n - 1) * avg + x <= n * VALUE_MAX) by (nonlinear_arith)
        requires
            1 <= n,
            0 <= avg <= VALUE_MAX,
            0 <= x <= VALUE_MAX,
    ;
    assert(0 <= (n - 1) * avg + x) by (nonlinear_arith)
        requires
            1 <= n,
            0 <= avg,
            0 <= x,
    ;
    lemma_div_pos_is_pos((n - 1) * avg + x, n);
    lemma_div_is_ordered((n - 1) * avg + x, n * VALUE_MAX, n);
    lemma_div_multiples_vanish(VALUE_MAX as int, n);
}

/// The running averages of a bounded sequence stay within the raw-value
/// range once they are defined.
pub proof fn lemma_avg_bounds(s: Seq<u64>, n: int)
    requires
        1 <= n,
        n + 1 <= s.len(),
        values_bounded(s),
    ensures
        0 <= avg_gain(s, n) <= VALUE_MAX,
        0 <= avg_loss(s, n) <= VALUE_MAX,
    decreases s.len(),
{
    if s.len() == n + 1 {
        lemma_change_sum_bounds(s, n);
        lemma_div_pos_is_pos(gain_sum(s, n), n);
        lemma_div_is_ordered(gain_sum(s, n), n * VALUE_MAX, n);
        lemma_div_pos_is_pos(loss_sum(s, n), n);
        lemma_div_is_ordered(loss_sum(s, n), n * VALUE_MAX, n);
        lemma_div_multiples_vanish(VALUE_MAX as int, n);
    } else {
        assert(values_bounded(s.drop_last())) by {
            assert(forall|i: int|
                0 <= i < s.len() - 1 ==> s.drop_last()[i] == #[trigger] s[i]);
        }
        lemma_avg_bounds(s.drop_last(), n);
        lemma_change_bounds(s, s.len() - 1);
        lemma_wilder_step_bounds(avg_gain(s.drop_last(), n), gain_at(s, s.len() - 1), n);
        lemma_wilder_step_bounds(avg_loss(s.drop_last(), n), loss_at(s, s.len() - 1), n);
    }
}

/// A vector whose entries are pointwise the gains of `s` sums to the same
/// total as the first `k` gains of `s`; likewise for losses.
proof fn lemma_changes_sum(g: Seq<u64>, s: Seq<u64>, k: int, is_gain: bool)
    requires
        0 <= k <= g.len(),
        g.len() + 1 <= s.len(),
        forall|i: int|
            0 <= i < g.len() ==> #[trigger] g[i] == if is_gain {
                gain_at(s, i + 1)
            } else {
                loss_at(s, i + 1)
            },
    ensures
        seq_sum(g.take(k)) == if is_gain {
            gain_sum(s, k)
        } else {
            loss_sum(s, k)
        },
    decreases k,
{
    if k > 0 {
        lemma_changes_sum(g, s, k - 1, is_gain);
        assert(g.take(k).drop_last() =~= g.take(k - 1));
        assert(g.take(k).last() == g[k - 1]);
    }
}

/// RSI from a pair of bounded averages, computed exactly as the
/// specification states it.
fn rsi_exec(ag: u64, al: u64) -> (r: u64)
    requires
        ag <= VALUE_MAX,
        al <= VALUE_MAX,
    ensures
        r == rsi_from_avgs(ag as int, al as int),
        r <= 100 * SCALE,
{
    if al == 0 {
        100 * SCALE
    } else {
        proof {
            assert(100 * (SCALE as int) * (ag as int) <= 100 * (SCALE as int) * (VALUE_MAX as int))
                by (nonlinear_arith)
                requires
                    0 <= ag <= VALUE_MAX,
            ;
        }
        let num: u128 = 100 * (SCALE as u128) * (ag as u128);
        let den: u128 = (ag as u128) + (al as u128);
        let q: u128 = num / den;
        proof {
            assert(num <= 100 * SCALE * den) by (nonlinear_arith)
                requires
                    num == 100 * SCALE * ag,
                    den == ag + al,
                    0 <= ag,
                    0 <= al,
            ;
            lemma_div_pos_is_pos(num as int, den as int);
            lemma_div_is_ordered(num as int, 100 * SCALE * den, den as int);
            lemma_div_multiples_vanish(100 * SCALE as int, den as int);
            assert(den * (100 * SCALE) == 100 * SCALE * den) by (nonlinear_arith);
        }
        q as u64
    }
}

/// A state machine for the `n`-period relative strength index. Until `n`
/// price changes have accumulated it buffers them; the `n`-th change seeds
/// the running averages with a simple mean, and every later change is
/// folded in by Wilder smoothing.
pub struct RsiState {
    /// The period `n`.
    pub window: usize,
    /// The last value seen, `None` before any value.
    pub prev: Option<u64>,
    /// Clipped upward changes collected before seeding, oldest first.
    pub gains: Vec<u64>,
    /// Clipped downward changes collected before seeding, oldest first.
    pub losses: Vec<u64>,
    /// Whether the running averages have been seeded.
    pub seeded: bool,
    /// Running average gain, meaningful once seeded.
    pub avg_gain: u64,
    /// Running average loss, meaningful once seeded.
    pub avg_loss: u64,
    /// The values fed so far, oldest first.
    pub hist: Ghost<Seq<u64>>,
}

impl RsiState {
    /// The executable fields agree with the recorded history.
    pub open spec fn wf(&self) -> bool {
        &&& 1 <= self.window <= WINDOW_MAX
        &&& values_bounded(self.hist@)
        &&& match self.prev {
            None => self.hist@.len() == 0,
            Some(q) => self.hist@.len() > 0 && q == self.hist@.last(),
        }
        &&& if self.seeded {
            &&& self.hist@.len() >= self.window + 1
            &&& self.avg_gain == avg_gain(self.hist@, self.window as int)
            &&& self.avg_loss == avg_loss(self.hist@, self.window as int)
            &&& self.avg_gain <= VALUE_MAX
            &&& self.avg_loss <= VALUE_MAX
            &&& self.gains@.len() == 0
            &&& self.losses@.len() == 0
        } else {
            &&& self.hist@.len() <= self.window
            &&& self.gains@.len() == if self.hist@.len() == 0 {
                0int
            } else {
                self.hist@.len() - 1
            }
            &&& self.losses@.len() == self.gains@.len()
            &&& forall|i: int|
                0 <= i < self.gains@.len() ==> #[trigger] self.gains@[i] == gain_at(
                    self.hist@,
                    i + 1,
                )
            &&& forall|i: int|
                0 <= i < self.losses@.len() ==> #[trigger] self.losses@[i] == loss_at(
                    self.hist@,
                    i + 1,
                )
        }
    }

    /// A fresh RSI state that has seen no values.
    pub fn new(window: usize) -> (r: RsiState)
        requires
            1 <= window <= WINDOW_MAX,
        ensures
            r.wf(),
            r.window == window,
            r.hist@ == Seq::<u64>::empty(),
    {
        RsiState {
            window,
            prev: None,
            gains: Vec::new(),
            losses: Vec::new(),
            seeded: false,
            avg_gain: 0,
            avg_loss: 0,
            hist: Ghost(Seq::empty()),
        }
    }

    /// Fold one value into the index. The output stays absent until `n`
    /// price changes have been seen; afterwards it is exactly the scaled
    /// RSI of the running averages, and exactly `100 · SCALE` whenever the
    /// average loss is zero.
    pub fn step(&mut self, p: u64) -> (out: Option<u64>)
        requires
            old(self).wf(),
            p <= VALUE_MAX,
        ensures
            final(self).wf(),
            final(self).window == old(self).window,
            final(self).hist@ == old(self).hist@.push(p),
            opt_val_eq(out, rsi_out(final(self).hist@, old(self).window as int)),
            out matches Some(v) ==> v <= 100 * SCALE,
    {
        let ghost h0 = self.hist@;
        proof {
            self.hist@ = h0.push(p);
        }
        let ghost h1 = self.hist@;
        let w = self.window;
        match self.prev {
            None => {
                self.prev = Some(p);
                None
            },
            Some(q) => {
                self.prev = Some(p);
                let gain: u64 = if p >= q {
                    p - q
                } else {
                    0
                };
                let loss: u64 = if p <= q {
                    q - p
                } else {
                    0
                };
                proof {
                    assert(h1.last() == p);
                    assert(h1[h1.len() - 2] == q);
                    assert(gain == gain_at(h1, h1.len() - 1));
                    assert(loss == loss_at(h1, h1.len() - 1));
                    assert(forall|j: int| 0 <= j < h0.len() ==> #[trigger] h1[j] == h0[j]);
                }
                if !self.seeded {
                    self.gains.push(gain);
                    self.losses.push(loss);
                    proof {
                        assert(forall|i: int|
                            0 <= i < self.gains@.len() ==> #[trigger] self.gains@[i] == gain_at(
                                h1,
                                i + 1,
                            ));
                        assert(forall|i: int|
                            0 <= i < self.losses@.len() ==> #[trigger] self.losses@[i] == loss_at(
                                h1,
                                i + 1,
                            ));
                    }
                    if self.gains.len() == w {
                        proof {
                            assert(values_bounded(self.gains@)) by {
                                assert(forall|i: int|
                                    0 <= i < self.gains@.len() ==> 0 <= #[trigger] self.gains@[i]
                                        <= VALUE_MAX) by {
                                    assert forall|i: int| 0 <= i < self.gains@.len() implies 0
                                        <= #[trigger] self.gains@[i] <= VALUE_MAX by {
                                        lemma_change_bounds(h1, i + 1);
                                    }
                                }
                            }
                            assert(values_bounded(self.losses@)) by {
                                assert forall|i: int| 0 <= i < self.losses@.len() implies 0
                                    <= #[trigger] self.losses@[i] <= VALUE_MAX by {
                                    lemma_change_bounds(h1, i + 1);
                                }
                            }
                        }
                        let gsum = sum_values(&self.gains);
                        let lsum = sum_values(&self.losses);
                        proof {
                            lemma_changes_sum(self.gains@, h1, w as int, true);
                            lemma_changes_sum(self.losses@, h1, w as int, false);
                            assert(self.gains@.take(w as int) =~= self.gains@);
                            assert(self.losses@.take(w as int) =~= self.losses@);
                            lemma_avg_bounds(h1, w as int);
                            lemma_change_sum_bounds(h1, w as int);
                            lemma_div_pos_is_pos(gain_sum(h1, w as int), w as int);
                            lemma_div_pos_is_pos(loss_sum(h1, w as int), w as int);
                        }
                        self.avg_gain = gsum / (w as u64);
                        self.avg_loss = lsum / (w as u64);
                        self.seeded = true;
                        self.gains = Vec::new();
                        self.losses = Vec::new();
                        proof {
                            assert(self.avg_gain == avg_gain(h1, w as int));
                            assert(self.avg_loss == avg_loss(h1, w as int));
                        }
                        Some(rsi_exec(self.avg_gain, self.avg_loss))
                    } else {
                        None
                    }
                } else {
                    proof {
                        assert(h1.drop_last() =~= h0);
                        lemma_avg_bounds(h0, w as int);
                        assert((w - 1) as u64 * self.avg_gain + gain <= u64::MAX) by (
                        nonlinear_arith)
                            requires
                                1 <= w <= WINDOW_MAX,
                                self.avg_gain <= VALUE_MAX,
                                gain <= VALUE_MAX,
                        ;
                        assert((w - 1) as u64 * self.avg_loss + loss <= u64::MAX) by (
                        nonlinear_arith)
                            requires
                                1 <= w <= WINDOW_MAX,
                                self.avg_loss <= VALUE_MAX,
                                loss <= VALUE_MAX,
                        ;
                        lemma_wilder_step_bounds(self.avg_gain as int, gain as int, w as int);
                        lemma_wilder_step_bounds(self.avg_loss as int, loss as int, w as int);
                    }
                    self.avg_gain = ((w as u64 - 1) * self.avg_gain + gain) / (w as u64);
                    self.avg_loss = ((w as u64 - 1) * self.avg_loss + loss) / (w as u64);
                    proof {
                        assert(self.avg_gain == avg_gain(h1, w as int));
                        assert(self.avg_loss == avg_loss(h1, w as int));
                    }
                    Some(rsi_exec(self.avg_gain, self.avg_loss))
                }
            },
        }
    }
}

/// A state machine for the MACD line. It drives one fast and one slow EMA
/// over the same values and reports their difference.
pub struct MacdState {
    /// The 12-period EMA of the values seen.
    pub fast: EmaState,
    /// The 26-period EMA of the same values.
    pub slow: EmaState,
}

impl MacdState {
    /// Both averages are well formed and have seen the same values.
    pub open spec fn wf(&self) -> bool {
        &&& self.fast.wf()
        &&& self.slow.wf()
        &&& self.fast.window == MACD_FAST
        &&& self.slow.window == MACD_SLOW
        &&& self.fast.hist@ == self.slow.hist@
    }

    /// The values fed so far, oldest first.
    pub open spec fn hist(&self) -> Seq<u64> {
        self.fast.hist@
    }

    /// A fresh MACD state that has seen no values.
    pub fn new() -> (r: MacdState)
        ensures
            r.wf(),
            r.hist() == Seq::<u64>::empty(),
    {
        MacdState { fast: EmaState::new(MACD_FAST), slow: EmaState::new(MACD_SLOW) }
    }

    /// Fold one value into both averages and return the MACD line, present
    /// from the very first value because both averages seed immediately.
    pub fn step(&mut self, p: u64) -> (out: i64)
        requires
            old(self).wf(),
            p <= VALUE_MAX,
        ensures
            final(self).wf(),
            final(self).hist() == old(self).hist().push(p),
            out == macd_value(final(self).hist()),
    {
        let e_fast = self.fast.step(p);
        let e_slow = self.slow.step(p);
        (e_fast as i64) - (e_slow as i64)
    }
}

} // verus!

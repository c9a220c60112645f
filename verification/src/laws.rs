//! The library's cross-cutting guarantees, stated and proved once.
//!
//! Each proof function here relates contracts that live in different
//! modules: the streaming calculator against the batch evaluators, the
//! MACD state against independently driven EMA recurrences, and the edge
//! cases of the warm-up and zero-loss policies.

use vstd::prelude::*;
use vstd::arithmetic::div_mod::{
    lemma_div_by_multiple_is_strongly_ordered, lemma_div_multiples_vanish,
};

use crate::batch::{ema_out_at, present, rsi_out_at, sma_out_at};
use crate::indicators::{
    avg_gain, avg_loss, ema_value, lemma_avg_bounds, macd_value, rsi_out, rsi_value, sma_out,
    sma_value, values_bounded, EmaState, MacdState, MACD_FAST, MACD_SLOW,
};
use crate::SCALE;

verus! {

/// A fully present input column: every row holds a value.
pub open spec fn all_some(s: Seq<u64>) -> Seq<Option<u64>> {
    Seq::new(s.len(), |i: int| Some(s[i]))
}

/// Filtering a fully present column drops nothing.
pub proof fn lemma_present_all_some(s: Seq<u64>)
    ensures
        present(all_some(s)) == s,
    decreases s.len(),
{
    if s.len() == 0 {
        assert(present(all_some(s)) =~= s);
    } else {
        assert(all_some(s).drop_last() =~= all_some(s.drop_last()));
        lemma_present_all_some(s.drop_last());
        assert(all_some(s).last() == Some(s.last()));
        assert(present(all_some(s)) =~= s);
    }
}

/// Streaming agrees with batch: fed the same prices one at a time, the
/// streaming calculator's SMA, EMA and RSI after `k + 1` ticks are
/// exactly the batch evaluator's outputs at position `k` of the same
/// prices handed over as one fully present partition.
pub proof fn lemma_streaming_matches_batch(prices: Seq<u64>, n: int, k: int)
    requires
        1 <= n,
        0 <= k < prices.len(),
    ensures
        sma_out_at(all_some(prices), n, k) == sma_out(prices.take(k + 1), n),
        ema_out_at(all_some(prices), n, k) == Some(ema_value(prices.take(k + 1), n)),
        rsi_out_at(all_some(prices), n, k) == rsi_out(prices.take(k + 1), n),
{
    let a = all_some(prices);
    assert(a[k] == Some(prices[k]));
    assert(a.take(k + 1) =~= all_some(prices.take(k + 1)));
    lemma_present_all_some(prices.take(k + 1));
}

/// The incrementally maintained MACD line equals the difference of two
/// independently driven 12- and 26-period EMA recurrences over the same
/// values, at every position.
pub proof fn lemma_macd_matches_independent_emas(m: MacdState, fast: EmaState, slow: EmaState)
    requires
        m.wf(),
        fast.wf(),
        slow.wf(),
        fast.window == MACD_FAST,
        slow.window == MACD_SLOW,
        fast.hist@ == m.hist(),
        slow.hist@ == m.hist(),
        m.hist().len() >= 1,
    ensures
        m.fast.value == fast.value,
        m.slow.value == slow.value,
        macd_value(m.hist()) == ema_value(m.hist(), MACD_FAST as int) - ema_value(
            m.hist(),
            MACD_SLOW as int,
        ),
{
}

/// With a fully present input, the SMA output at position `i` is null
/// exactly while fewer than `n` values have been seen, and otherwise the
/// floored mean of the last `n` values.
pub proof fn lemma_sma_warmup(prices: Seq<u64>, n: int, i: int)
    requires
        1 <= n,
        0 <= i < prices.len(),
    ensures
        i < n - 1 ==> sma_out_at(all_some(prices), n, i) is None,
        i >= n - 1 ==> sma_out_at(all_some(prices), n, i) == Some(
            sma_value(prices.take(i + 1), n),
        ),
{
    lemma_streaming_matches_batch(prices, n, i);
}

/// With a fully present input, the EMA output is present at every
/// position, and the first output is exactly the first price.
pub proof fn lemma_ema_present_from_first(prices: Seq<u64>, n: int, i: int)
    requires
        1 <= n,
        0 <= i < prices.len(),
    ensures
        ema_out_at(all_some(prices), n, i) is Some,
        ema_out_at(all_some(prices), n, 0) == Some(prices[0] as int),
{
    lemma_streaming_matches_batch(prices, n, i);
    lemma_streaming_matches_batch(prices, n, 0);
    assert(prices.take(1).len() == 1);
    assert(prices.take(1)[0] == prices[0]);
}

/// With a fully present input, the RSI output is null exactly at the
/// first `n` positions: the first position has no price change, and the
/// next `n − 1` changes are still accumulating.
pub proof fn lemma_rsi_warmup(prices: Seq<u64>, n: int, i: int)
    requires
        1 <= n,
        0 <= i < prices.len(),
    ensures
        i < n ==> rsi_out_at(all_some(prices), n, i) is None,
        i >= n ==> rsi_out_at(all_some(prices), n, i) == Some(rsi_value(prices.take(i + 1), n)),
{
    lemma_streaming_matches_batch(prices, n, i);
}

/// After warm-up, the RSI is exactly `100 · SCALE` precisely when the
/// running average loss is exactly zero: a zero loss short-circuits to
/// 100, and any positive loss keeps the value strictly below it.
pub proof fn lemma_rsi_hundred_iff_no_loss(s: Seq<u64>, n: int)
    requires
        1 <= n,
        n + 1 <= s.len(),
        values_bounded(s),
    ensures
        rsi_value(s, n) == 100 * SCALE <==> avg_loss(s, n) == 0,
{
    let ag = avg_gain(s, n);
    let al = avg_loss(s, n);
    lemma_avg_bounds(s, n);
    if al != 0 {
        let d = ag + al;
        assert(100 * SCALE * ag < 100 * SCALE * d) by (nonlinear_arith)
            requires
                0 <= ag,
                0 < al,
                d == ag + al,
        ;
        assert(100 * SCALE * d == (100 * SCALE) * d) by (nonlinear_arith);
        lemma_div_by_multiple_is_strongly_ordered(100 * SCALE * ag, 100 * SCALE * d, 100 * SCALE, d);
        lemma_div_multiples_vanish(100 * SCALE as int, d);
        assert(d * (100 * SCALE) == 100 * SCALE * d) by (nonlinear_arith);
        assert((100 * SCALE * ag) / d < 100 * SCALE);
    }
}

} // verus!

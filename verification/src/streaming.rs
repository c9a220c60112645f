//! Streaming incremental calculator and real-time signal detection.
//!
//! One [`StreamingIndicators`] instance is owned per symbol and fed one
//! market tick at a time, in arrival order. Each tick pushes the price and
//! volume into bounded windows, advances the same recurrences the batch
//! evaluators replay, and returns one fully populated snapshot; memory
//! stays proportional to the window size, never to the tick count.
//!
//! The signal detector is stateless given a snapshot: every rule that
//! fires contributes one signal, in rule order, and no rule suppresses
//! another.

use vstd::prelude::*;

use crate::indicators::{
    ema_value, last_window, rsi_out, seq_sum, sma_out, EmaState, RsiState, SmaState,
};
use crate::text::{dec_str, push_scaled_2dp, push_u64, two_dp_str};
use crate::{SCALE, VALUE_MAX, WINDOW_MAX};

verus! {

/// One incoming market observation for a symbol.
#[derive(Debug, Clone)]
pub struct MarketTick {
    /// The instrument the tick belongs to.
    pub symbol: String,
    /// Arrival time, in nanoseconds since the epoch.
    pub timestamp: i64,
    /// Traded price, as a caller-scaled fixed-point value.
    pub price: u64,
    /// Traded volume.
    pub volume: u64,
    /// Best bid, if known.
    pub bid: Option<u64>,
    /// Best ask, if known.
    pub ask: Option<u64>,
}

/// The indicator snapshot produced for one tick.
#[derive(Debug, Clone)]
pub struct StreamingIndicatorValues {
    /// The instrument the snapshot belongs to.
    pub symbol: String,
    /// The tick's arrival time, in nanoseconds since the epoch.
    pub timestamp: i64,
    /// The tick's price.
    pub price: u64,
    /// The tick's volume.
    pub volume: u64,
    /// Simple moving average of the price window, once it is full.
    pub sma: Option<u64>,
    /// Exponential moving average; present from the first tick on.
    pub ema: Option<u64>,
    /// Relative strength index, scaled by [`SCALE`], once warmed up.
    pub rsi: Option<u64>,
    /// Simple moving average of the volume window, once it is full.
    pub volume_sma: Option<u64>,
    /// Current volume over the mean window volume, scaled by [`SCALE`]
    /// and saturating at `u64::MAX`; present once the window is full.
    pub volume_ratio: Option<u64>,
}

/// An indicator value compared against its mathematical model, with the
/// model integer narrowed to the machine word it is known to fit.
pub open spec fn as_u64_opt(o: Option<int>) -> Option<u64> {
    match o {
        Option::Some(v) => Option::Some(v as u64),
        Option::None => Option::None,
    }
}

/// The volume ratio as a scaled integer: current volume divided by the
/// mean of the window total `total` over `n` entries, i.e. the floor of
/// `vol·n·SCALE / total`, saturating at `u64::MAX`; an empty total counts
/// as an unbounded ratio.
pub open spec fn ratio_val(vol: int, n: int, total: int) -> int {
    if total == 0 {
        u64::MAX as int
    } else if vol * n * SCALE / total > u64::MAX as int {
        u64::MAX as int
    } else {
        vol * n * SCALE / total
    }
}

/// The volume ratio owed after the volume history `vh` with window `n`:
/// absent until the window is full.
pub open spec fn ratio_out(vol: u64, n: int, vh: Seq<u64>) -> Option<int> {
    if vh.len() >= n {
        Option::Some(ratio_val(vol as int, n, seq_sum(last_window(vh, n))))
    } else {
        Option::None
    }
}

/// Compute the saturating scaled volume ratio.
fn ratio_exec(vol: u64, n: u64, total: u64) -> (r: u64)
    requires
        vol <= VALUE_MAX,
        1 <= n <= WINDOW_MAX as u64,
    ensures
        r as int == ratio_val(vol as int, n as int, total as int),
{
    if total == 0 {
        u64::MAX
    } else {
        proof {
            assert((vol as int) * (n as int) * (SCALE as int) <= (VALUE_MAX as int) * (
            WINDOW_MAX as int) * (SCALE as int)) by (nonlinear_arith)
                requires
                    0 <= vol <= VALUE_MAX,
                    1 <= n <= WINDOW_MAX as u64,
            ;
        }
        let num: u128 = (vol as u128) * (n as u128) * (SCALE as u128);
        let q: u128 = num / (total as u128);
        if q > u64::MAX as u128 {
            u64::MAX
        } else {
            q as u64
        }
    }
}

/// The streaming per-symbol indicator calculator: bounded price and
/// volume windows plus the persistent EMA and RSI smoothing state.
pub struct StreamingIndicators {
    /// The instrument this calculator is dedicated to.
    pub symbol: String,
    /// The window size, fixed for the calculator's lifetime.
    pub window_size: usize,
    /// Price window and SMA state.
    pub prices: SmaState,
    /// EMA state over the same prices.
    pub ema: EmaState,
    /// RSI state over the same prices.
    pub rsi: RsiState,
    /// Volume window and volume-SMA state.
    pub volumes: SmaState,
}

impl StreamingIndicators {
    /// All four recurrence states share the window size, and the three
    /// price-driven states have seen exactly the same prices.
    pub open spec fn wf(&self) -> bool {
        &&& 1 <= self.window_size <= WINDOW_MAX
        &&& self.prices.wf()
        &&& self.ema.wf()
        &&& self.rsi.wf()
        &&& self.volumes.wf()
        &&& self.prices.window == self.window_size
        &&& self.ema.window == self.window_size
        &&& self.rsi.window == self.window_size
        &&& self.volumes.window == self.window_size
        &&& self.ema.hist@ == self.prices.hist@
        &&& self.rsi.hist@ == self.prices.hist@
        &&& self.volumes.hist@.len() == self.prices.hist@.len()
    }

    /// The prices fed so far, oldest first.
    pub open spec fn price_hist(&self) -> Seq<u64> {
        self.prices.hist@
    }

    /// The volumes fed so far, oldest first.
    pub open spec fn volume_hist(&self) -> Seq<u64> {
        self.volumes.hist@
    }

    /// A fresh calculator for one symbol that has seen no ticks.
    pub fn new(symbol: String, window_size: usize) -> (r: StreamingIndicators)
        requires
            1 <= window_size <= WINDOW_MAX,
        ensures
            r.wf(),
            r.window_size == window_size,
            r.symbol@ == symbol@,
            r.price_hist() == Seq::<u64>::empty(),
            r.volume_hist() == Seq::<u64>::empty(),
    {
        StreamingIndicators {
            symbol,
            window_size,
            prices: SmaState::new(window_size),
            ema: EmaState::new(window_size),
            rsi: RsiState::new(window_size),
            volumes: SmaState::new(window_size),
        }
    }

    /// Apply one tick: push price and volume into their windows, advance
    /// every recurrence, and return the snapshot for this tick. Each
    /// output field equals the corresponding model value over the updated
    /// histories; the EMA is present from the first tick on.
    pub fn update(&mut self, tick: &MarketTick) -> (iv: StreamingIndicatorValues)
        requires
            old(self).wf(),
            tick.price <= VALUE_MAX,
            tick.volume <= VALUE_MAX,
        ensures
            final(self).wf(),
            final(self).window_size == old(self).window_size,
            final(self).symbol@ == old(self).symbol@,
            final(self).price_hist() == old(self).price_hist().push(tick.price),
            final(self).volume_hist() == old(self).volume_hist().push(tick.volume),
            iv.symbol@ == tick.symbol@,
            iv.timestamp == tick.timestamp,
            iv.price == tick.price,
            iv.volume == tick.volume,
            iv.sma == as_u64_opt(sma_out(final(self).price_hist(), old(self).window_size as int)),
            iv.ema == Some(
                ema_value(final(self).price_hist(), old(self).window_size as int) as u64,
            ),
            iv.rsi == as_u64_opt(rsi_out(final(self).price_hist(), old(self).window_size as int)),
            iv.volume_sma == as_u64_opt(
                sma_out(final(self).volume_hist(), old(self).window_size as int),
            ),
            iv.volume_ratio == as_u64_opt(
                ratio_out(tick.volume, old(self).window_size as int, final(self).volume_hist()),
            ),
            iv_bounded(iv),
    {
        let sma = self.prices.step(tick.price);
        let ema = self.ema.step(tick.price);
        let rsi = self.rsi.step(tick.price);
        let volume_sma = self.volumes.step(tick.volume);
        let total = self.volumes.window_total();
        let volume_ratio: Option<u64> = match total {
            Some(t) => Some(ratio_exec(tick.volume, self.window_size as u64, t)),
            None => None,
        };
        StreamingIndicatorValues {
            symbol: tick.symbol.clone(),
            timestamp: tick.timestamp,
            price: tick.price,
            volume: tick.volume,
            sma,
            ema: Some(ema),
            rsi,
            volume_sma,
            volume_ratio,
        }
    }
}

/// Trading signal kinds emitted by the streaming detector.
#[derive(Debug, Clone, Copy, PartialEq, Eq, Structural)]
pub enum SignalType {
    /// RSI below the oversold threshold.
    Oversold,
    /// RSI above the overbought threshold.
    Overbought,
    /// Volume well above its window average.
    VolumeSpike,
    /// EMA above SMA beyond the dead band.
    BullishCrossover,
    /// EMA below SMA beyond the dead band.
    BearishCrossover,
    /// Reserved for price-breakout rules.
    PriceBreakout,
}

/// A classified trading signal. Strengths are scaled by [`SCALE`] and lie
/// in `(0, SCALE]`.
#[derive(Debug, Clone)]
pub struct TradingSignal {
    /// Which rule fired.
    pub signal_type: SignalType,
    /// The instrument the signal belongs to.
    pub symbol: String,
    /// The snapshot's timestamp, in nanoseconds since the epoch.
    pub timestamp: i64,
    /// Confidence in `(0, SCALE]`, scaled by [`SCALE`].
    pub strength: u64,
    /// The snapshot's price.
    pub price: u64,
    /// A human-readable reason.
    pub description: String,
}

/// The snapshot fields the detector reads are within their ranges.
pub open spec fn iv_bounded(iv: StreamingIndicatorValues) -> bool {
    &&& (iv.rsi matches Some(r) ==> r <= 100 * SCALE)
    &&& (iv.sma matches Some(v) ==> v <= VALUE_MAX)
    &&& (iv.ema matches Some(v) ==> v <= VALUE_MAX)
}

/// Strength of an oversold signal: `(30 − rsi) / 30` over scaled values,
/// floored at one fixed-point unit — a rule that fired never reports a
/// strength of zero, however close the RSI sits to the threshold.
pub open spec fn oversold_strength(r: int) -> int {
    let q = ((30 * SCALE - r) * SCALE) / (30 * SCALE);
    if q < 1 {
        1
    } else {
        q
    }
}

/// Strength of an overbought signal: `(rsi − 70) / 30` over scaled
/// values, floored at one fixed-point unit like [`oversold_strength`].
pub open spec fn overbought_strength(r: int) -> int {
    let q = ((r - 70 * SCALE) * SCALE) / (30 * SCALE);
    if q < 1 {
        1
    } else {
        q
    }
}

/// Strength of a volume spike: `(ratio − 2) / 3`, clamped at 1 and
/// floored at one fixed-point unit — a spike barely over the threshold
/// still reports a positive strength.
pub open spec fn spike_strength(ratio: int) -> int {
    let q = (ratio - 2 * SCALE) / 3;
    if q > SCALE {
        SCALE as int
    } else if q < 1 {
        1
    } else {
        q
    }
}

/// Strength of a crossover: `|ema − sma| / sma`, clamped at 1; a zero SMA
/// counts as an unbounded relative gap, hence full strength.
pub open spec fn crossover_strength(e: int, s: int) -> int {
    if s == 0 {
        SCALE as int
    } else {
        let d = if e >= s {
            e - s
        } else {
            s - e
        };
        if (d * SCALE) / s > SCALE {
            SCALE as int
        } else {
            (d * SCALE) / s
        }
    }
}

/// A crossover that clears the dead band has positive strength: the band
/// guarantees a spread of more than a five-hundredth of the SMA, so the
/// scaled quotient is at least 2000 and cannot floor to zero.
pub proof fn lemma_crossover_strength_positive(e: int, s: int)
    requires
        0 <= e,
        0 <= s,
        1000 * e > 1002 * s || 1000 * e < 998 * s,
    ensures
        1 <= crossover_strength(e, s) <= SCALE,
{
    if s != 0 {
        let d = if e >= s {
            e - s
        } else {
            s - e
        };
        assert(1000 * d >= 2 * s + 1);
        assert(d * SCALE >= 2000 * s + 1000);
        vstd::arithmetic::div_mod::lemma_div_is_ordered(2000 * s, d * (SCALE as int), s);
        vstd::arithmetic::div_mod::lemma_div_multiples_vanish(2000, s);
        assert(s * 2000 == 2000 * s) by (nonlinear_arith);
        assert((d * SCALE) / s >= 2000);
    }
}

/// Reason text of an oversold signal.
pub open spec fn oversold_desc(r: int) -> Seq<char> {
    "RSI oversold at "@ + two_dp_str(r)
}

/// Reason text of an overbought signal.
pub open spec fn overbought_desc(r: int) -> Seq<char> {
    "RSI overbought at "@ + two_dp_str(r)
}

/// Reason text of a volume-spike signal.
pub open spec fn spike_desc(ratio: int) -> Seq<char> {
    "Volume spike: "@ + two_dp_str(ratio) + "x average"@
}

/// Reason text of a bullish crossover signal.
pub open spec fn bullish_desc(e: int, s: int) -> Seq<char> {
    "EMA above SMA: "@ + dec_str(e) + " vs "@ + dec_str(s)
}

/// Reason text of a bearish crossover signal.
pub open spec fn bearish_desc(e: int, s: int) -> Seq<char> {
    "EMA below SMA: "@ + dec_str(e) + " vs "@ + dec_str(s)
}

/// The RSI threshold rule: oversold below 30, overbought above 70, no
/// signal inside the band or while the RSI is absent.
pub open spec fn rsi_rule(rsi: Option<u64>) -> Option<(SignalType, int, Seq<char>)> {
    match rsi {
        Option::Some(r) => if r < 30 * SCALE {
            Option::Some(
                (SignalType::Oversold, oversold_strength(r as int), oversold_desc(r as int)),
            )
        } else if r > 70 * SCALE {
            Option::Some(
                (SignalType::Overbought, overbought_strength(r as int), overbought_desc(r as int)),
            )
        } else {
            Option::None
        },
        Option::None => Option::None,
    }
}

/// The volume-spike rule: fires when the ratio exceeds 2.
pub open spec fn volume_rule(ratio: Option<u64>) -> Option<(SignalType, int, Seq<char>)> {
    match ratio {
        Option::Some(rt) => if rt > 2 * SCALE {
            Option::Some((SignalType::VolumeSpike, spike_strength(rt as int), spike_desc(rt as int)))
        } else {
            Option::None
        },
        Option::None => Option::None,
    }
}

/// The EMA/SMA crossover rule with a 0.2% dead band: bullish when
/// `ema > sma·1.002`, bearish when `ema < sma·0.998`, stated exactly over
/// integers as `1000·ema` against `1002·sma` and `998·sma`.
pub open spec fn crossover_rule(sma: Option<u64>, ema: Option<u64>) -> Option<
    (SignalType, int, Seq<char>),
> {
    match (sma, ema) {
        (Option::Some(s), Option::Some(e)) => if 1000 * e > 1002 * s {
            Option::Some(
                (
                    SignalType::BullishCrossover,
                    crossover_strength(e as int, s as int),
                    bullish_desc(e as int, s as int),
                ),
            )
        } else if 1000 * e < 998 * s {
            Option::Some(
                (
                    SignalType::BearishCrossover,
                    crossover_strength(e as int, s as int),
                    bearish_desc(e as int, s as int),
                ),
            )
        } else {
            Option::None
        },
        _ => Option::None,
    }
}

/// Number of signals a rule contributes.
pub open spec fn opt_len<T>(o: Option<T>) -> int {
    match o {
        Option::Some(_) => 1,
        Option::None => 0,
    }
}

/// The signal carries the snapshot's identity and exactly the kind,
/// strength and reason the rule prescribes.
pub open spec fn signal_matches(
    sig: TradingSignal,
    sym: Seq<char>,
    ts: i64,
    price: u64,
    x: (SignalType, int, Seq<char>),
) -> bool {
    &&& sig.signal_type == x.0
    &&& sig.symbol@ == sym
    &&& sig.timestamp == ts
    &&& sig.price == price
    &&& sig.strength == x.1
    &&& sig.description@ == x.2
}

/// The detector's output is exactly the signals of the rules that fired,
/// in rule order: RSI threshold, then volume spike, then crossover — and
/// every fired rule's strength lies in `(0, SCALE]`.
pub open spec fn detected_ok(
    sigs: Seq<TradingSignal>,
    sym: Seq<char>,
    ts: i64,
    price: u64,
    rsi: Option<u64>,
    ratio: Option<u64>,
    sma: Option<u64>,
    ema: Option<u64>,
) -> bool {
    let r1 = rsi_rule(rsi);
    let r2 = volume_rule(ratio);
    let r3 = crossover_rule(sma, ema);
    &&& sigs.len() == opt_len(r1) + opt_len(r2) + opt_len(r3)
    &&& (r1 matches Some(x) ==> signal_matches(sigs[0], sym, ts, price, x))
    &&& (r2 matches Some(x) ==> signal_matches(sigs[opt_len(r1)], sym, ts, price, x))
    &&& (r3 matches Some(x) ==> signal_matches(
        sigs[opt_len(r1) + opt_len(r2)],
        sym,
        ts,
        price,
        x,
    ))
    &&& (r1 matches Some(x) ==> 0 < x.1 <= SCALE)
    &&& (r2 matches Some(x) ==> 0 < x.1 <= SCALE)
    &&& (r3 matches Some(x) ==> 0 < x.1 <= SCALE)
}

/// Compute an oversold strength.
pub fn strength_oversold(r: u64) -> (s: u64)
    requires
        r < 30 * SCALE,
    ensures
        s == oversold_strength(r as int),
        1 <= s <= SCALE,
{
    proof {
        vstd::arithmetic::div_mod::lemma_div_is_ordered(
            (30 * SCALE - r) * (SCALE as int),
            (30 * SCALE) * (SCALE as int),
            30 * SCALE,
        );
        vstd::arithmetic::div_mod::lemma_div_multiples_vanish(SCALE as int, 30 * SCALE);
    }
    let q = ((30 * SCALE - r) * SCALE) / (30 * SCALE);
    if q < 1 {
        1
    } else {
        q
    }
}

/// Compute an overbought strength.
pub fn strength_overbought(r: u64) -> (s: u64)
    requires
        70 * SCALE < r <= 100 * SCALE,
    ensures
        s == overbought_strength(r as int),
        1 <= s <= SCALE,
{
    proof {
        vstd::arithmetic::div_mod::lemma_div_is_ordered(
            (r - 70 * SCALE) * (SCALE as int),
            (30 * SCALE) * (SCALE as int),
            30 * SCALE,
        );
        vstd::arithmetic::div_mod::lemma_div_multiples_vanish(SCALE as int, 30 * SCALE);
    }
    let q = ((r - 70 * SCALE) * SCALE) / (30 * SCALE);
    if q < 1 {
        1
    } else {
        q
    }
}

/// Compute a spike strength with its clamp.
pub fn strength_spike(ratio: u64) -> (s: u64)
    requires
        ratio > 2 * SCALE,
    ensures
        s == spike_strength(ratio as int),
        1 <= s <= SCALE,
{
    let q = (ratio - 2 * SCALE) / 3;
    if q > SCALE {
        SCALE
    } else if q < 1 {
        1
    } else {
        q
    }
}

/// Compute a crossover strength with its clamp.
pub fn strength_crossover(e: u64, s: u64) -> (r: u64)
    requires
        e <= VALUE_MAX,
        s <= VALUE_MAX,
    ensures
        r == crossover_strength(e as int, s as int),
        r <= SCALE,
{
    if s == 0 {
        SCALE
    } else {
        let d = if e >= s {
            e - s
        } else {
            s - e
        };
        let q = (d * SCALE) / s;
        if q > SCALE {
            SCALE
        } else {
            q
        }
    }
}

/// A stateless detector over one indicator snapshot.
pub struct StreamingSignalDetector {
    /// The snapshot the rules are applied to.
    pub indicators: StreamingIndicatorValues,
}

impl StreamingSignalDetector {
    /// Wrap a snapshot for rule evaluation.
    pub fn new(indicators: StreamingIndicatorValues) -> (r: StreamingSignalDetector)
        requires
            iv_bounded(indicators),
        ensures
            r.indicators == indicators,
            iv_bounded(r.indicators),
    {
        StreamingSignalDetector { indicators }
    }

    /// Apply every rule to the snapshot and return all signals that
    /// fired, in rule order; no rule suppresses another.
    pub fn detect_signals(&self) -> (r: Vec<TradingSignal>)
        requires
            iv_bounded(self.indicators),
        ensures
            detected_ok(
                r@,
                self.indicators.symbol@,
                self.indicators.timestamp,
                self.indicators.price,
                self.indicators.rsi,
                self.indicators.volume_ratio,
                self.indicators.sma,
                self.indicators.ema,
            ),
    {
        let iv = &self.indicators;
        let mut signals: Vec<TradingSignal> = Vec::new();
        let ghost r1 = rsi_rule(iv.rsi);
        let ghost r2 = volume_rule(iv.volume_ratio);
        let ghost r3 = crossover_rule(iv.sma, iv.ema);
        match iv.rsi {
            Some(r) => {
                if r < 30 * SCALE {
                    let strength = strength_oversold(r);
                    let mut description = String::new();
                    description.append("RSI oversold at ");
                    push_scaled_2dp(&mut description, r);
                    proof {
                        assert(description@ =~= oversold_desc(r as int));
                    }
                    signals.push(
                        TradingSignal {
                            signal_type: SignalType::Oversold,
                            symbol: iv.symbol.clone(),
                            timestamp: iv.timestamp,
                            strength,
                            price: iv.price,
                            description,
                        },
                    );
                } else if r > 70 * SCALE {
                    let strength = strength_overbought(r);
                    let mut description = String::new();
                    description.append("RSI overbought at ");
                    push_scaled_2dp(&mut description, r);
                    proof {
                        assert(description@ =~= overbought_desc(r as int));
                    }
                    signals.push(
                        TradingSignal {
                            signal_type: SignalType::Overbought,
                            symbol: iv.symbol.clone(),
                            timestamp: iv.timestamp,
                            strength,
                            price: iv.price,
                            description,
                        },
                    );
                }
            },
            None => {},
        }
        assert(signals@.len() == opt_len(r1));
        match iv.volume_ratio {
            Some(rt) => {
                if rt > 2 * SCALE {
                    let strength = strength_spike(rt);
                    let mut description = String::new();
                    description.append("Volume spike: ");
                    push_scaled_2dp(&mut description, rt);
                    description.append("x average");
                    proof {
                        assert(description@ =~= spike_desc(rt as int));
                    }
                    signals.push(
                        TradingSignal {
                            signal_type: SignalType::VolumeSpike,
                            symbol: iv.symbol.clone(),
                            timestamp: iv.timestamp,
                            strength,
                            price: iv.price,
                            description,
                        },
                    );
                }
            },
            None => {},
        }
        assert(signals@.len() == opt_len(r1) + opt_len(r2));
        match (iv.sma, iv.ema) {
            (Some(s), Some(e)) => {
                if 1000 * e > 1002 * s {
                    proof {
                        lemma_crossover_strength_positive(e as int, s as int);
                    }
                    let strength = strength_crossover(e, s);
                    let mut description = String::new();
                    description.append("EMA above SMA: ");
                    push_u64(&mut description, e);
                    description.append(" vs ");
                    push_u64(&mut description, s);
                    proof {
                        assert(description@ =~= bullish_desc(e as int, s as int));
                    }
                    signals.push(
                        TradingSignal {
                            signal_type: SignalType::BullishCrossover,
                            symbol: iv.symbol.clone(),
                            timestamp: iv.timestamp,
                            strength,
                            price: iv.price,
                            description,
                        },
                    );
                } else if 1000 * e < 998 * s {
                    proof {
                        lemma_crossover_strength_positive(e as int, s as int);
                    }
                    let strength = strength_crossover(e, s);
                    let mut description = String::new();
                    description.append("EMA below SMA: ");
                    push_u64(&mut description, e);
                    description.append(" vs ");
                    push_u64(&mut description, s);
                    proof {
                        assert(description@ =~= bearish_desc(e as int, s as int));
                    }
                    signals.push(
                        TradingSignal {
                            signal_type: SignalType::BearishCrossover,
                            symbol: iv.symbol.clone(),
                            timestamp: iv.timestamp,
                            strength,
                            price: iv.price,
                            description,
                        },
                    );
                }
            },
            _ => {},
        }
        signals
    }
}

/// The streaming processor: one owned calculator for one symbol, with
/// signal delivery through the return value of each processed tick.
pub struct StreamingProcessor {
    /// The per-symbol calculator this processor owns exclusively.
    pub indicators: StreamingIndicators,
}

impl StreamingProcessor {
    /// A fresh processor for one symbol.
    pub fn new(symbol: String, window_size: usize) -> (r: StreamingProcessor)
        requires
            1 <= window_size <= WINDOW_MAX,
        ensures
            r.indicators.wf(),
            r.indicators.window_size == window_size,
            r.indicators.symbol@ == symbol@,
            r.indicators.price_hist() == Seq::<u64>::empty(),
            r.indicators.volume_hist() == Seq::<u64>::empty(),
    {
        StreamingProcessor { indicators: StreamingIndicators::new(symbol, window_size) }
    }

    /// Apply one tick, then run every detection rule on the resulting
    /// snapshot; the signals that fired are returned, in rule order.
    pub fn process_tick(&mut self, tick: MarketTick) -> (r: Vec<TradingSignal>)
        requires
            old(self).indicators.wf(),
            tick.price <= VALUE_MAX,
            tick.volume <= VALUE_MAX,
        ensures
            final(self).indicators.wf(),
            final(self).indicators.window_size == old(self).indicators.window_size,
            final(self).indicators.price_hist() == old(self).indicators.price_hist().push(
                tick.price,
            ),
            final(self).indicators.volume_hist() == old(self).indicators.volume_hist().push(
                tick.volume,
            ),
            detected_ok(
                r@,
                tick.symbol@,
                tick.timestamp,
                tick.price,
                as_u64_opt(
                    rsi_out(
                        final(self).indicators.price_hist(),
                        old(self).indicators.window_size as int,
                    ),
                ),
                as_u64_opt(
                    ratio_out(
                        tick.volume,
                        old(self).indicators.window_size as int,
                        final(self).indicators.volume_hist(),
                    ),
                ),
                as_u64_opt(
                    sma_out(
                        final(self).indicators.price_hist(),
                        old(self).indicators.window_size as int,
                    ),
                ),
                Some(
                    ema_value(
                        final(self).indicators.price_hist(),
                        old(self).indicators.window_size as int,
                    ) as u64,
                ),
            ),
    {
        let values = self.indicators.update(&tick);
        let detector = StreamingSignalDetector::new(values);
        detector.detect_signals()
    }
}

} // verus!

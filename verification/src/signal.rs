//! The three signal evaluators, and the state they work on.
//!
//! Each evaluator classifies the present state of the indicators as a long
//! signal, a short signal or none, and remembers the last direction it
//! gave. The classification is returned on every call; the remembered
//! direction changes only when a new direction is given, so that a caller
//! can tell the first call of a run of equal directions from the others.
use crate::average::{MAData, MAError};
use crate::fixed::{floor_to_precision, lemma_floor_order, whole_steps};
use crate::macd::{MacdState, MACD};
use crate::model::Averager;
use vstd::prelude::*;

verus! {

/// How an asset is traded.
#[derive(Debug, Clone, Copy, PartialEq, Eq, Structural)]
pub enum MAMode {
    /// Through leveraged up and down tokens that track the asset.
    BVLT,
    /// The asset itself, in the rising direction only.
    BASIC,
}

/// The direction of a signal.
#[derive(Debug, Clone, Copy, PartialEq, Eq, Structural)]
pub enum PositionType {
    /// The indicators point upwards.
    Long,
    /// The indicators point downwards.
    Short,
    /// No condition is met, or the indicators are not yet defined.
    NoSignal,
}

/// What an evaluator needs to know of an instrument.
#[derive(Debug)]
pub struct TradingPair {
    /// The name of the instrument.
    pub symbol: String,
    /// The number of decimal digits of its price: values are rounded down
    /// to so many digits before the averages are compared.
    pub price_dps: i8,
}

impl TradingPair {
    /// An instrument of the given name and price precision.
    pub fn new(symbol: String, price_dps: i8) -> (tp: Self)
        ensures
            tp.symbol == symbol,
            tp.price_dps == price_dps,
    {
        TradingPair { symbol, price_dps }
    }

    /// The name of the instrument.
    pub fn symbol(&self) -> (name: &str)
        ensures
            name@ == self.symbol@,
    {
        self.symbol.as_str()
    }

    /// The number of decimal digits of the instrument's price.
    pub fn get_price_dps(&self) -> (dps: i8)
        ensures
            dps == self.price_dps,
    {
        self.price_dps
    }
}

/// The indicators of one instrument, and the direction that each evaluator
/// gave last.
#[derive(Debug)]
pub struct MarketDataTracker {
    /// The fast moving average.
    pub fast_ma_data: MAData,
    /// The slow moving average.
    pub slow_ma_data: MAData,
    /// The MACD indicator.
    pub macd: MACD,
    /// The last direction of the MACD evaluator.
    pub macd_signal: PositionType,
    /// The last direction of the trend evaluator.
    pub ma_trend_change_signal: PositionType,
    /// The last direction of the crossover evaluator.
    pub ma_cross_signal: PositionType,
}

impl MarketDataTracker {
    /// The tracker's indicators are consistent.
    pub open spec fn wf(&self) -> bool {
        &&& self.fast_ma_data.wf()
        &&& self.slow_ma_data.wf()
        &&& self.macd.wf()
    }

    /// A tracker with a fast average over `fast_candles` prices and a slow
    /// one over `slow_candles`, which has seen no price and given no
    /// direction. A window of no prices is refused.
    pub fn new(fast_candles: u16, slow_candles: u16) -> (made: Result<Self, MAError>)
        ensures
            fast_candles == 0 || slow_candles == 0 <==> made is Err,
            made matches Err(e) ==> e == MAError::ZeroWindow,
            made matches Ok(mt) ==> {
                &&& mt.wf()
                &&& mt.fast_ma_data@ == Averager::empty(fast_candles as nat)
                &&& mt.slow_ma_data@ == Averager::empty(slow_candles as nat)
                &&& mt.macd@ == MacdState::initial()
                &&& mt.macd_signal == PositionType::NoSignal
                &&& mt.ma_trend_change_signal == PositionType::NoSignal
                &&& mt.ma_cross_signal == PositionType::NoSignal
            },
    {
        let fast_ma_data = match MAData::new(fast_candles) {
            Ok(ma) => ma,
            Err(e) => {
                return Err(e);
            },
        };
        let slow_ma_data = match MAData::new(slow_candles) {
            Ok(ma) => ma,
            Err(e) => {
                return Err(e);
            },
        };
        Ok(
            MarketDataTracker {
                fast_ma_data,
                slow_ma_data,
                macd: MACD::new(),
                macd_signal: PositionType::NoSignal,
                ma_trend_change_signal: PositionType::NoSignal,
                ma_cross_signal: PositionType::NoSignal,
            },
        )
    }
}

/// A crossing of a reference line: long where the value is above the
/// reference and was below it, short where it is below and was above.
pub open spec fn crossing(latest: int, previous: int, reference: int) -> PositionType {
    if latest > reference && previous < reference {
        PositionType::Long
    } else if latest < reference && previous > reference {
        PositionType::Short
    } else {
        PositionType::NoSignal
    }
}

/// A reversal of a trend: long where the earlier value dipped below the
/// one before it and the present value is above the dip, short where it
/// rose above the one before it and the present value is below the peak.
pub open spec fn reversal(present: int, earlier: int, before: int) -> PositionType {
    if present > earlier && earlier < before {
        PositionType::Long
    } else if present < earlier && earlier > before {
        PositionType::Short
    } else {
        PositionType::NoSignal
    }
}

/// The MACD signal: the crossing of the signal line by the differential,
/// once the latest and the previous differential and the signal line are
/// all defined.
pub open spec fn macd_decision(macd: MacdState) -> PositionType {
    match (macd.macd_latest, macd.macd_previous, macd.signal.recent.latest) {
        (Some(latest), Some(previous), Some(signal)) => crossing(latest, previous, signal),
        _ => PositionType::NoSignal,
    }
}

/// The trend signal: the reversal of the fast average as seen from the
/// present slow average, once the slow average and three fast averages are
/// defined.
pub open spec fn ma_trend_change_decision(fast: Averager, slow: Averager) -> PositionType {
    match (
        slow.recent.latest,
        fast.recent.latest,
        fast.recent.penultimate,
        fast.recent.penultimate_penultimate,
    ) {
        (Some(c), Some(_), Some(p), Some(pp)) => reversal(c, p, pp),
        _ => PositionType::NoSignal,
    }
}

/// The crossover signal: the crossing of the slow average by the fast one,
/// all values rounded down to `dps` decimal digits, once the slow average
/// and two fast averages are defined.
pub open spec fn ma_cross_decision(fast: Averager, slow: Averager, dps: i8) -> PositionType {
    match (fast.recent.latest, fast.recent.penultimate, slow.recent.latest) {
        (Some(latest), Some(previous), Some(reference)) => crossing(
            floor_to_precision(latest, dps),
            floor_to_precision(previous, dps),
            floor_to_precision(reference, dps),
        ),
        _ => PositionType::NoSignal,
    }
}

/// The direction an evaluator remembers after it has given `decision`:
/// the decision where it is a direction, else what it remembered before.
pub open spec fn remembered(last: PositionType, decision: PositionType) -> PositionType {
    if decision == PositionType::NoSignal {
        last
    } else {
        decision
    }
}

/// Whether `decision` is news: a direction other than the remembered one.
pub open spec fn notifies(last: PositionType, decision: PositionType) -> bool {
    decision != PositionType::NoSignal && decision != last
}

/// A change of the remembered direction is what shows a notification.
pub proof fn lemma_notified_iff_memory_changes(last: PositionType, decision: PositionType)
    ensures
        notifies(last, decision) <==> remembered(last, decision) != last,
{
}

/// Of a run of equal directions only the first can be news: once a
/// direction has been given, giving it again notifies nobody and leaves
/// the memory as it is, however often it is repeated.
pub proof fn lemma_repeated_direction_notifies_once(last: PositionType, decision: PositionType)
    requires
        decision != PositionType::NoSignal,
    ensures
        notifies(last, decision) <==> last != decision,
        !notifies(remembered(last, decision), decision),
        remembered(remembered(last, decision), decision) == remembered(last, decision),
{
}

/// Values that are equal after rounding do not cross: where the fast
/// average and the slow one round down to the same value, the crossover
/// signal is none.
pub proof fn lemma_equal_after_rounding_is_no_cross(fast: Averager, slow: Averager, dps: i8)
    requires
        fast.recent.latest matches Some(latest) && slow.recent.latest matches Some(reference)
            && floor_to_precision(latest, dps) == floor_to_precision(reference, dps),
    ensures
        ma_cross_decision(fast, slow, dps) == PositionType::NoSignal,
{
}

/// The classification of a crossing.
fn classify_crossing(latest: i64, previous: i64, reference: i64) -> (decision: PositionType)
    ensures
        decision == crossing(latest as int, previous as int, reference as int),
{
    if latest > reference && previous < reference {
        PositionType::Long
    } else if latest < reference && previous > reference {
        PositionType::Short
    } else {
        PositionType::NoSignal
    }
}

/// Remembers `decision` in `last` where it is a direction.
fn remember(last: &mut PositionType, decision: PositionType)
    ensures
        *final(last) == remembered(*old(last), decision),
{
    if decision != PositionType::NoSignal && *last != decision {
        *last = decision;
    }
}

/// Whether the MACD differential crosses its signal line. The instrument
/// does not bear on the result.
pub fn trading_decision_macd(_tp: &TradingPair, mt: &mut MarketDataTracker) -> (decision:
    PositionType)
    ensures
        decision == macd_decision(old(mt).macd@),
        final(mt).macd_signal == remembered(old(mt).macd_signal, decision),
        final(mt).macd == old(mt).macd,
        final(mt).fast_ma_data == old(mt).fast_ma_data,
        final(mt).slow_ma_data == old(mt).slow_ma_data,
        final(mt).ma_trend_change_signal == old(mt).ma_trend_change_signal,
        final(mt).ma_cross_signal == old(mt).ma_cross_signal,
{
    let decision = match (mt.macd.macd_latest(), mt.macd.macd_previous(), mt.macd.signal_latest()) {
        (Some(macd), Some(macd_prev), Some(signal)) => classify_crossing(macd, macd_prev, signal),
        _ => PositionType::NoSignal,
    };
    remember(&mut mt.macd_signal, decision);
    decision
}

/// Whether the fast average has turned, as seen from the present slow
/// average. The instrument does not bear on the result.
pub fn trading_decision_ma_trend_change(_tp: &TradingPair, mt: &mut MarketDataTracker) -> (decision:
    PositionType)
    ensures
        decision == ma_trend_change_decision(old(mt).fast_ma_data@, old(mt).slow_ma_data@),
        final(mt).ma_trend_change_signal == remembered(old(mt).ma_trend_change_signal, decision),
        final(mt).macd == old(mt).macd,
        final(mt).fast_ma_data == old(mt).fast_ma_data,
        final(mt).slow_ma_data == old(mt).slow_ma_data,
        final(mt).macd_signal == old(mt).macd_signal,
        final(mt).ma_cross_signal == old(mt).ma_cross_signal,
{
    let decision = match (
        mt.slow_ma_data.latest(),
        mt.fast_ma_data.latest(),
        mt.fast_ma_data.penultimate(),
        mt.fast_ma_data.penultimate_penultimate(),
    ) {
        (Some(c), Some(_), Some(p), Some(pp)) => {
            if c > p && p < pp {
                PositionType::Long
            } else if c < p && p > pp {
                PositionType::Short
            } else {
                PositionType::NoSignal
            }
        },
        _ => PositionType::NoSignal,
    };
    remember(&mut mt.ma_trend_change_signal, decision);
    decision
}

/// Whether the fast average crosses the slow one, at the precision of the
/// instrument's price.
pub fn trading_decision_ma_cross(tp: &TradingPair, mt: &mut MarketDataTracker) -> (decision:
    PositionType)
    ensures
        decision == ma_cross_decision(
            old(mt).fast_ma_data@,
            old(mt).slow_ma_data@,
            tp.price_dps,
        ),
        final(mt).ma_cross_signal == remembered(old(mt).ma_cross_signal, decision),
        final(mt).macd == old(mt).macd,
        final(mt).fast_ma_data == old(mt).fast_ma_data,
        final(mt).slow_ma_data == old(mt).slow_ma_data,
        final(mt).macd_signal == old(mt).macd_signal,
        final(mt).ma_trend_change_signal == old(mt).ma_trend_change_signal,
{
    let decision = match (
        mt.fast_ma_data.latest(),
        mt.fast_ma_data.penultimate(),
        mt.slow_ma_data.latest(),
    ) {
        (Some(f_ma_latest), Some(f_ma_prev), Some(s_ma_latest)) => {
            // Rounded values are compared by their counts of whole steps.
            let dps = tp.get_price_dps();
            let f_ma_latest_val: i64 = whole_steps(f_ma_latest, dps);
            let f_ma_prev_val: i64 = whole_steps(f_ma_prev, dps);
            let s_ma_latest_val: i64 = whole_steps(s_ma_latest, dps);
            proof {
                lemma_floor_order(f_ma_latest as int, s_ma_latest as int, dps);
                lemma_floor_order(s_ma_latest as int, f_ma_latest as int, dps);
                lemma_floor_order(f_ma_prev as int, s_ma_latest as int, dps);
                lemma_floor_order(s_ma_latest as int, f_ma_prev as int, dps);
            }
            classify_crossing(f_ma_latest_val, f_ma_prev_val, s_ma_latest_val)
        },
        _ => PositionType::NoSignal,
    };
    remember(&mut mt.ma_cross_signal, decision);
    decision
}

} // verus!

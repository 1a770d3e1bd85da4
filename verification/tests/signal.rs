use ma_signals::{
    trading_decision_ma_cross, trading_decision_ma_trend_change, trading_decision_macd,
    whole_steps, MAError, MAMode, MarketDataTracker, PositionType, TradingPair, UNITS_PER_WHOLE,
};

const U: i64 = UNITS_PER_WHOLE;

fn pair(dps: i8) -> TradingPair {
    TradingPair::new(String::from("BTCUSDT"), dps)
}

fn tracker(fast: u16, slow: u16) -> MarketDataTracker {
    match MarketDataTracker::new(fast, slow) {
        Ok(mt) => mt,
        Err(e) => panic!("tracker refused: {:?}", e),
    }
}

/// A tracker whose fast average has the history `fast`, oldest first, and
/// whose slow average is `slow`.
fn tracker_with(fast: &[i64], slow: i64) -> MarketDataTracker {
    let mut mt = tracker(1, 1);
    for p in fast {
        mt.fast_ma_data.compute(*p, false);
    }
    mt.slow_ma_data.compute(slow, false);
    mt
}

fn falling_then_rising() -> Vec<i64> {
    let mut stream: Vec<i64> = (0..34).map(|i| (1000 - i) * U).collect();
    stream.extend([968 * U, 973 * U, 998 * U, 1123 * U, 1748 * U]);
    stream
}

fn rising_then_falling() -> Vec<i64> {
    let mut stream: Vec<i64> = (0..34).map(|i| (1000 + i) * U).collect();
    stream.extend([1032 * U, 1027 * U, 1002 * U, 877 * U, 252 * U]);
    stream
}

#[test]
fn trading_pair_keeps_what_it_was_given() {
    let tp = pair(2);
    assert_eq!(tp.symbol(), "BTCUSDT");
    assert_eq!(tp.get_price_dps(), 2);
}

#[test]
fn trade_modes_are_distinct() {
    assert_ne!(MAMode::BVLT, MAMode::BASIC);
    assert_eq!(MAMode::BASIC, MAMode::BASIC);
}

#[test]
fn tracker_refuses_zero_window() {
    assert!(matches!(MarketDataTracker::new(0, 5), Err(MAError::ZeroWindow)));
    assert!(matches!(MarketDataTracker::new(5, 0), Err(MAError::ZeroWindow)));
    assert!(matches!(MarketDataTracker::new(0, 0), Err(MAError::ZeroWindow)));
}

#[test]
fn new_tracker_has_given_no_direction() {
    let mt = tracker(7, 25);
    assert_eq!(mt.fast_ma_data.num_candles(), 7);
    assert_eq!(mt.slow_ma_data.num_candles(), 25);
    assert_eq!(mt.macd_signal, PositionType::NoSignal);
    assert_eq!(mt.ma_trend_change_signal, PositionType::NoSignal);
    assert_eq!(mt.ma_cross_signal, PositionType::NoSignal);
    assert_eq!(mt.macd.macd_latest(), None);
}

#[test]
fn no_signal_while_indicators_warm_up() {
    let tp = pair(2);
    let mut mt = tracker(3, 5);
    for i in 0..4 {
        mt.fast_ma_data.compute((10 + i) * U, false);
        mt.slow_ma_data.compute((10 + i) * U, false);
        mt.macd.compute((10 + i) * U);
        assert_eq!(trading_decision_macd(&tp, &mut mt), PositionType::NoSignal);
        assert_eq!(trading_decision_ma_cross(&tp, &mut mt), PositionType::NoSignal);
        assert_eq!(trading_decision_ma_trend_change(&tp, &mut mt), PositionType::NoSignal);
    }
    assert_eq!(mt.macd_signal, PositionType::NoSignal);
    assert_eq!(mt.ma_cross_signal, PositionType::NoSignal);
    assert_eq!(mt.ma_trend_change_signal, PositionType::NoSignal);
}

#[test]
fn trend_reversal_upwards_is_long() {
    let tp = pair(2);
    let mut mt = tracker_with(&[5 * U, 3 * U, 4 * U], 6 * U);
    assert_eq!(trading_decision_ma_trend_change(&tp, &mut mt), PositionType::Long);
    assert_eq!(mt.ma_trend_change_signal, PositionType::Long);
}

#[test]
fn trend_reversal_downwards_is_short() {
    let tp = pair(2);
    let mut mt = tracker_with(&[3 * U, 5 * U, 4 * U], 2 * U);
    assert_eq!(trading_decision_ma_trend_change(&tp, &mut mt), PositionType::Short);
    assert_eq!(mt.ma_trend_change_signal, PositionType::Short);
}

#[test]
fn trend_without_reversal_is_no_signal() {
    let tp = pair(2);
    // A dip, but the slow average is not above it.
    let mut mt = tracker_with(&[5 * U, 3 * U, 4 * U], 3 * U);
    assert_eq!(trading_decision_ma_trend_change(&tp, &mut mt), PositionType::NoSignal);
    // The slow average is above, but the fast one did not dip.
    let mut mt = tracker_with(&[3 * U, 3 * U, 4 * U], 6 * U);
    assert_eq!(trading_decision_ma_trend_change(&tp, &mut mt), PositionType::NoSignal);
    // A peak, but the slow average is not below it.
    let mut mt = tracker_with(&[3 * U, 5 * U, 4 * U], 5 * U);
    assert_eq!(trading_decision_ma_trend_change(&tp, &mut mt), PositionType::NoSignal);
}

#[test]
fn trend_needs_three_fast_averages_and_a_slow_one() {
    let tp = pair(2);
    let mut mt = tracker_with(&[3 * U, 4 * U], 6 * U);
    assert_eq!(trading_decision_ma_trend_change(&tp, &mut mt), PositionType::NoSignal);
    let mut mt = tracker(1, 2);
    for p in [5 * U, 3 * U, 4 * U] {
        mt.fast_ma_data.compute(p, false);
    }
    mt.slow_ma_data.compute(6 * U, false);
    assert_eq!(trading_decision_ma_trend_change(&tp, &mut mt), PositionType::NoSignal);
}

#[test]
fn cross_from_below_is_long_and_from_above_is_short() {
    let tp = pair(2);
    let mut mt = tracker_with(&[9 * U, 11 * U], 10 * U);
    assert_eq!(trading_decision_ma_cross(&tp, &mut mt), PositionType::Long);
    assert_eq!(mt.ma_cross_signal, PositionType::Long);
    let mut mt = tracker_with(&[11 * U, 9 * U], 10 * U);
    assert_eq!(trading_decision_ma_cross(&tp, &mut mt), PositionType::Short);
    assert_eq!(mt.ma_cross_signal, PositionType::Short);
    let mut mt = tracker_with(&[11 * U, 12 * U], 10 * U);
    assert_eq!(trading_decision_ma_cross(&tp, &mut mt), PositionType::NoSignal);
    let mut mt = tracker_with(&[11 * U], 10 * U);
    assert_eq!(trading_decision_ma_cross(&tp, &mut mt), PositionType::NoSignal);
}

#[test]
fn cross_below_price_precision_is_no_signal() {
    // 10.004 and 10.00 are equal at two decimal digits.
    let mut mt = tracker_with(&[999_000_000, 1_000_400_000], 1_000_000_000);
    assert_eq!(trading_decision_ma_cross(&pair(2), &mut mt), PositionType::NoSignal);
    assert_eq!(mt.ma_cross_signal, PositionType::NoSignal);
    // At three digits they differ, and the fast average has crossed.
    assert_eq!(trading_decision_ma_cross(&pair(3), &mut mt), PositionType::Long);
    assert_eq!(mt.ma_cross_signal, PositionType::Long);
}

#[test]
fn cross_rounds_the_previous_average_too() {
    // 9.999 rounds down to 9.99, below 10.00; 10.019 rounds to 10.01, above.
    let mut mt = tracker_with(&[999_900_000, 1_001_900_000], 1_000_000_000);
    assert_eq!(trading_decision_ma_cross(&pair(2), &mut mt), PositionType::Long);
    // With no decimal digits 9.999 is 9 and 10.019 is 10: no longer above.
    assert_eq!(trading_decision_ma_cross(&pair(0), &mut mt), PositionType::NoSignal);
    // Negative values round down too: -0.001 is -0.01 at two digits.
    let mut mt = tracker_with(&[1_000_000, -100_000], 0);
    assert_eq!(trading_decision_ma_cross(&pair(2), &mut mt), PositionType::Short);
    let mut mt = tracker_with(&[-100_000, 100_000], 0);
    assert_eq!(trading_decision_ma_cross(&pair(2), &mut mt), PositionType::NoSignal);
}

#[test]
fn whole_steps_rounds_down_to_the_digits_asked() {
    assert_eq!(whole_steps(1_000_400_000, 2), 1000);
    assert_eq!(whole_steps(1_000_400_000, 3), 10004);
    assert_eq!(whole_steps(314_159_000, 3), 3141);
    assert_eq!(whole_steps(-1, 7), -1);
    assert_eq!(whole_steps(-10, 7), -1);
    assert_eq!(whole_steps(-11, 7), -2);
    assert_eq!(whole_steps(123, 8), 123);
    assert_eq!(whole_steps(123, 100), 123);
    assert_eq!(whole_steps(3456 * U, -2), 34);
    assert_eq!(whole_steps(-3456 * U, -2), -35);
    assert_eq!(whole_steps(i64::MAX, -10), 9);
    assert_eq!(whole_steps(i64::MIN, -10), -10);
    assert_eq!(whole_steps(i64::MAX, -11), 0);
    assert_eq!(whole_steps(i64::MIN, -11), -1);
    assert_eq!(whole_steps(0, -128), 0);
    assert_eq!(whole_steps(-1, -128), -1);
    assert_eq!(whole_steps(i64::MIN, 8), i64::MIN);
}

#[test]
fn whole_steps_agrees_with_floating_point_floor() {
    // Eighths are exact both as floating-point numbers and in units.
    for n in -4000i64..4000 {
        let x = n as f64 / 8.0;
        let units = n * (U / 8);
        for dps in -2i8..=3 {
            let floored = math::round::floor(x, dps);
            let steps = (floored * 10f64.powi(dps as i32)).round() as i64;
            assert_eq!(whole_steps(units, dps), steps, "{} at {} digits", x, dps);
        }
    }
}

#[test]
fn precision_example_holds_in_floating_point_too() {
    assert_eq!(math::round::floor(10.004, 2), math::round::floor(10.00, 2));
    assert_eq!(whole_steps(1_000_400_000, 2), whole_steps(1_000_000_000, 2));
}

#[test]
fn macd_upward_cross_is_long() {
    let tp = pair(2);
    let mut mt = tracker(12, 26);
    let stream = falling_then_rising();
    for (i, p) in stream.iter().enumerate() {
        mt.macd.compute(*p);
        let decision = trading_decision_macd(&tp, &mut mt);
        if i >= 35 {
            assert_eq!(decision, PositionType::Long, "tick {}", i);
        } else {
            assert_eq!(decision, PositionType::NoSignal, "tick {}", i);
        }
    }
}

#[test]
fn macd_downward_cross_is_short() {
    let tp = pair(2);
    let mut mt = tracker(12, 26);
    let stream = rising_then_falling();
    for (i, p) in stream.iter().enumerate() {
        mt.macd.compute(*p);
        let decision = trading_decision_macd(&tp, &mut mt);
        if i >= 35 {
            assert_eq!(decision, PositionType::Short, "tick {}", i);
            assert_eq!(mt.macd_signal, PositionType::Short);
        } else {
            assert_eq!(decision, PositionType::NoSignal, "tick {}", i);
            assert_eq!(mt.macd_signal, PositionType::NoSignal);
        }
    }
}

#[test]
fn repeated_direction_is_returned_each_tick_and_notified_once() {
    let tp = pair(2);
    let mut mt = tracker(12, 26);
    let stream = falling_then_rising();
    let mut decisions = Vec::new();
    let mut notifications = 0;
    for p in stream.iter().take(38) {
        mt.macd.compute(*p);
        let before = mt.macd_signal;
        let decision = trading_decision_macd(&tp, &mut mt);
        if mt.macd_signal != before {
            notifications += 1;
            assert_eq!(decisions.len(), 35);
        }
        decisions.push(decision);
    }
    // The upward cross holds on the last three ticks.
    assert_eq!(
        decisions[35..38],
        [PositionType::Long, PositionType::Long, PositionType::Long]
    );
    assert_eq!(notifications, 1);
    assert_eq!(mt.macd_signal, PositionType::Long);
}

#[test]
fn evaluating_twice_without_a_tick_changes_nothing() {
    let tp = pair(2);
    let mut mt = tracker_with(&[9 * U, 11 * U], 10 * U);
    assert_eq!(trading_decision_ma_cross(&tp, &mut mt), PositionType::Long);
    assert_eq!(trading_decision_ma_cross(&tp, &mut mt), PositionType::Long);
    assert_eq!(trading_decision_ma_cross(&tp, &mut mt), PositionType::Long);
    assert_eq!(mt.ma_cross_signal, PositionType::Long);
    assert_eq!(mt.fast_ma_data.latest(), Some(11 * U));
    assert_eq!(mt.fast_ma_data.penultimate(), Some(9 * U));
    assert_eq!(mt.slow_ma_data.latest(), Some(10 * U));
}

#[test]
fn remembered_direction_survives_ticks_without_signal() {
    let tp = pair(2);
    let mut mt = tracker_with(&[9 * U, 11 * U], 10 * U);
    assert_eq!(trading_decision_ma_cross(&tp, &mut mt), PositionType::Long);
    mt.fast_ma_data.compute(12 * U, false);
    assert_eq!(trading_decision_ma_cross(&tp, &mut mt), PositionType::NoSignal);
    assert_eq!(mt.ma_cross_signal, PositionType::Long);
    mt.fast_ma_data.compute(8 * U, false);
    assert_eq!(trading_decision_ma_cross(&tp, &mut mt), PositionType::Short);
    assert_eq!(mt.ma_cross_signal, PositionType::Short);
}

#[test]
fn each_evaluator_keeps_its_own_memory() {
    let tp = pair(2);
    let mut mt = tracker_with(&[5 * U, 3 * U, 7 * U], 6 * U);
    assert_eq!(trading_decision_ma_trend_change(&tp, &mut mt), PositionType::Long);
    assert_eq!(mt.ma_trend_change_signal, PositionType::Long);
    assert_eq!(mt.ma_cross_signal, PositionType::NoSignal);
    assert_eq!(mt.macd_signal, PositionType::NoSignal);
    assert_eq!(trading_decision_ma_cross(&tp, &mut mt), PositionType::Long);
    assert_eq!(trading_decision_macd(&tp, &mut mt), PositionType::NoSignal);
    assert_eq!(mt.ma_trend_change_signal, PositionType::Long);
    assert_eq!(mt.ma_cross_signal, PositionType::Long);
    assert_eq!(mt.macd_signal, PositionType::NoSignal);
}

#[test]
fn two_trackers_are_independent() {
    let tp = pair(2);
    let mut a = tracker_with(&[9 * U, 11 * U], 10 * U);
    let mut b = tracker_with(&[11 * U, 9 * U], 10 * U);
    assert_eq!(trading_decision_ma_cross(&tp, &mut a), PositionType::Long);
    assert_eq!(b.ma_cross_signal, PositionType::NoSignal);
    assert_eq!(trading_decision_ma_cross(&tp, &mut b), PositionType::Short);
    assert_eq!(a.ma_cross_signal, PositionType::Long);
}

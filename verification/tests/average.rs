use ma_signals::{MAData, MAError, UNITS_PER_WHOLE};

const U: i64 = UNITS_PER_WHOLE;

fn accumulator(window: u16) -> MAData {
    match MAData::new(window) {
        Ok(ma) => ma,
        Err(e) => panic!("window {} refused: {:?}", window, e),
    }
}

fn feed(ma: &mut MAData, prices: &[i64], ema: bool) {
    for p in prices {
        ma.compute(*p, ema);
    }
}

#[test]
fn zero_window_is_refused_at_construction() {
    assert!(matches!(MAData::new(0), Err(MAError::ZeroWindow)));
}

#[test]
fn positive_windows_are_accepted() {
    assert!(MAData::new(1).is_ok());
    assert!(MAData::new(12).is_ok());
    assert!(MAData::new(u16::MAX).is_ok());
    assert_eq!(accumulator(26).num_candles(), 26);
}

#[test]
fn new_accumulator_holds_nothing() {
    let ma = accumulator(3);
    assert_eq!(ma.latest(), None);
    assert_eq!(ma.penultimate(), None);
    assert_eq!(ma.penultimate_penultimate(), None);
    assert_eq!(ma.prices(), Vec::<i64>::new());
}

#[test]
fn no_average_before_window_fills() {
    for window in [2u16, 3, 5, 12, 26] {
        for ema in [false, true] {
            let mut ma = accumulator(window);
            for i in 0..(window - 1) {
                ma.compute((100 + i as i64) * U, ema);
                assert_eq!(ma.latest(), None);
                assert_eq!(ma.penultimate(), None);
                assert_eq!(ma.penultimate_penultimate(), None);
            }
            ma.compute(7 * U, ema);
            assert!(ma.latest().is_some());
        }
    }
}

#[test]
fn window_of_one_averages_every_price() {
    let mut ma = accumulator(1);
    ma.compute(5 * U, false);
    assert_eq!(ma.latest(), Some(5 * U));
    ma.compute(3 * U, false);
    assert_eq!(ma.latest(), Some(3 * U));
    assert_eq!(ma.penultimate(), Some(5 * U));
    assert_eq!(ma.prices(), vec![3 * U]);
}

#[test]
fn simple_average_of_exactly_full_window_is_mean() {
    let mut ma = accumulator(3);
    feed(&mut ma, &[10 * U, 20 * U, 30 * U], false);
    assert_eq!(ma.latest(), Some(20 * U));
    assert_eq!(ma.penultimate(), None);
    assert_eq!(ma.prices(), vec![30 * U, 20 * U, 10 * U]);
}

#[test]
fn full_window_evicts_oldest_price() {
    let mut ma = accumulator(3);
    feed(&mut ma, &[10 * U, 20 * U, 30 * U], false);
    ma.compute(40 * U, false);
    assert_eq!(ma.prices(), vec![40 * U, 30 * U, 20 * U]);
    assert_eq!(ma.latest(), Some(30 * U));
    assert_eq!(ma.penultimate(), Some(20 * U));
    assert_eq!(ma.penultimate_penultimate(), None);
}

#[test]
fn window_keeps_newest_prices_over_many_rounds() {
    let mut ma = accumulator(4);
    for i in 1..=23i64 {
        ma.compute(i, false);
        let held = ma.prices();
        let expect: Vec<i64> = (0..4.min(i)).map(|k| i - k).collect();
        assert_eq!(held, expect);
    }
    // 23 + 22 + 21 + 20 = 86, and 86 / 4 rounds down to 21.
    assert_eq!(ma.latest(), Some(21));
}

#[test]
fn simple_mean_rounds_down() {
    let mut ma = accumulator(2);
    feed(&mut ma, &[1, 2], false);
    assert_eq!(ma.latest(), Some(1));
    let mut ma = accumulator(2);
    feed(&mut ma, &[-1, -2], false);
    assert_eq!(ma.latest(), Some(-2));
}

#[test]
fn history_keeps_three_averages() {
    let mut ma = accumulator(2);
    feed(&mut ma, &[2, 4], false);
    assert_eq!((ma.latest(), ma.penultimate(), ma.penultimate_penultimate()), (Some(3), None, None));
    ma.compute(6, false);
    assert_eq!(
        (ma.latest(), ma.penultimate(), ma.penultimate_penultimate()),
        (Some(5), Some(3), None)
    );
    ma.compute(8, false);
    assert_eq!(
        (ma.latest(), ma.penultimate(), ma.penultimate_penultimate()),
        (Some(7), Some(5), Some(3))
    );
    ma.compute(10, false);
    assert_eq!(
        (ma.latest(), ma.penultimate(), ma.penultimate_penultimate()),
        (Some(9), Some(7), Some(5))
    );
    ma.compute(12, false);
    assert_eq!(
        (ma.latest(), ma.penultimate(), ma.penultimate_penultimate()),
        (Some(11), Some(9), Some(7))
    );
}

#[test]
fn first_exponential_average_is_seeded_with_mean() {
    // Weight 2 / (3 + 1): 30 * 0.5 + mean(10, 20, 30) * 0.5 = 25.
    let mut ma = accumulator(3);
    feed(&mut ma, &[10 * U, 20 * U, 30 * U], true);
    assert_eq!(ma.latest(), Some(25 * U));
}

#[test]
fn exponential_average_follows_previous_one() {
    let mut ma = accumulator(3);
    feed(&mut ma, &[10 * U, 20 * U, 30 * U, 40 * U, 50 * U], true);
    // 40 * 0.5 + 25 * 0.5 = 32.5, then 50 * 0.5 + 32.5 * 0.5 = 41.25.
    assert_eq!(ma.latest(), Some(4_125_000_000));
    assert_eq!(ma.penultimate(), Some(3_250_000_000));
    assert_eq!(ma.penultimate_penultimate(), Some(25 * U));
}

#[test]
fn exponential_average_rounds_down() {
    let mut ma = accumulator(3);
    feed(&mut ma, &[1, 1, 2], true);
    assert_eq!(ma.latest(), Some(1));
    let mut ma = accumulator(3);
    feed(&mut ma, &[-1, -1, -2], true);
    assert_eq!(ma.latest(), Some(-2));
    let mut ma = accumulator(2);
    feed(&mut ma, &[0, 10, 11], true);
    assert_eq!(ma.latest(), Some(10));
    assert_eq!(ma.penultimate(), Some(8));
}

#[test]
fn exponential_mode_continues_from_simple_average() {
    let mut ma = accumulator(2);
    feed(&mut ma, &[10 * U, 20 * U], false);
    assert_eq!(ma.latest(), Some(15 * U));
    ma.compute(40 * U, true);
    // (2 * 40 + 1 * 15) / 3 = 31.666..., rounded down to a unit.
    assert_eq!(ma.latest(), Some(3_166_666_666));
}

#[test]
fn constant_stream_averages_to_the_constant() {
    for ema in [false, true] {
        for window in [1u16, 3, 9, 12, 26] {
            let mut ma = accumulator(window);
            for tick in 0..100u16 {
                ma.compute(123_456_789, ema);
                if tick + 1 >= window {
                    assert_eq!(ma.latest(), Some(123_456_789));
                } else {
                    assert_eq!(ma.latest(), None);
                }
            }
        }
    }
}

#[test]
fn extreme_prices_do_not_overflow() {
    for ema in [false, true] {
        let mut ma = accumulator(1000);
        for _ in 0..1500 {
            ma.compute(i64::MAX, ema);
        }
        assert_eq!(ma.latest(), Some(i64::MAX));
        let mut ma = accumulator(1000);
        for _ in 0..1500 {
            ma.compute(i64::MIN, ema);
        }
        assert_eq!(ma.latest(), Some(i64::MIN));
    }
    let mut ma = accumulator(2);
    feed(&mut ma, &[i64::MAX, i64::MIN], false);
    // (MAX + MIN) / 2 = -1 / 2, which rounds down to -1.
    assert_eq!(ma.latest(), Some(-1));
    ma.compute(i64::MAX, true);
    // (2 * MAX + 1 * -1) / 3.
    assert_eq!(ma.latest(), Some(6_148_914_691_236_517_204));
}

#[test]
fn largest_window_fills_and_slides() {
    let mut ma = accumulator(u16::MAX);
    for i in 0..(u16::MAX as i64 - 1) {
        ma.compute(i, false);
    }
    assert_eq!(ma.latest(), None);
    ma.compute(u16::MAX as i64 - 1, false);
    // The mean of 0..=65534 is 32767.
    assert_eq!(ma.latest(), Some(32767));
    ma.compute(u16::MAX as i64, false);
    assert_eq!(ma.latest(), Some(32768));
    assert_eq!(ma.prices().len(), u16::MAX as usize);
}

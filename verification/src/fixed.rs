//! Fixed-point prices.
//!
//! A price, and every quantity derived from prices (averages, the MACD
//! differential), is a whole number of *units*, one unit being
//! `10^-PRICE_DECIMALS` of the quote currency. All arithmetic on them is
//! exact integer arithmetic; where a quotient is not whole it is rounded
//! down, towards negative infinity.
use vstd::arithmetic::div_mod::lemma_fundamental_div_mod;
use vstd::arithmetic::div_mod::lemma_fundamental_div_mod_converse;
use vstd::prelude::*;

verus! {

/// A price in units of `10^-PRICE_DECIMALS`.
pub type Price = i64;

/// Number of decimal places that a `Price` carries.
pub const PRICE_DECIMALS: i8 = 8;

/// The price 1.0 in units.
pub const UNITS_PER_WHOLE: Price = 100_000_000;

/// The largest magnitude of a price whose difference to another such price
/// is a `Price` again: half of the largest `Price`.
pub const PRICE_LIMIT: Price = 4_611_686_018_427_387_903;

/// Ten to the power `e`.
pub open spec fn pow10(e: nat) -> int
    decreases e,
{
    if e == 0 {
        1
    } else {
        10 * pow10((e - 1) as nat)
    }
}

/// The number of units between two neighbouring values that have `dps`
/// decimal digits: `10^(PRICE_DECIMALS - dps)`, and one unit where `dps`
/// asks for more digits than a price carries. A negative `dps` counts
/// trailing zeroes of the whole part.
pub open spec fn price_step(dps: i8) -> int {
    if dps >= PRICE_DECIMALS {
        1
    } else {
        pow10((PRICE_DECIMALS - dps) as nat)
    }
}

/// How many whole steps of `price_step(dps)` lie at or below `value`.
pub open spec fn steps_below(value: int, dps: i8) -> int {
    value / price_step(dps)
}

/// `value` rounded down to `dps` decimal digits: the largest multiple of
/// `price_step(dps)` that is not above `value`.
pub open spec fn floor_to_precision(value: int, dps: i8) -> int {
    steps_below(value, dps) * price_step(dps)
}

/// Powers of ten are positive and grow with the exponent.
pub proof fn lemma_pow10_grows(e1: nat, e2: nat)
    requires
        e1 <= e2,
    ensures
        0 < pow10(e1) <= pow10(e2),
    decreases e2,
{
    if e2 == 0 {
    } else if e1 == e2 {
        lemma_pow10_grows((e1 - 1) as nat, (e2 - 1) as nat);
    } else {
        lemma_pow10_grows(e1, (e2 - 1) as nat);
    }
}

/// The step is at least one unit.
pub proof fn lemma_price_step_positive(dps: i8)
    ensures
        price_step(dps) >= 1,
{
    if dps < PRICE_DECIMALS {
        lemma_pow10_grows(0, (PRICE_DECIMALS - dps) as nat);
    }
}

/// Rounding down never raises a value, and lowers it by less than a step.
pub proof fn lemma_floor_to_precision_bounds(value: int, dps: i8)
    ensures
        floor_to_precision(value, dps) <= value < floor_to_precision(value, dps) + price_step(dps),
        floor_to_precision(value, dps) % price_step(dps) == 0,
{
    let step = price_step(dps);
    lemma_price_step_positive(dps);
    lemma_fundamental_div_mod(value, step);
    assert(step * (value / step) == (value / step) * step) by (nonlinear_arith);
    lemma_fundamental_div_mod_converse(floor_to_precision(value, dps), step, value / step, 0);
}

/// Rounded values compare as their step counts do, so a comparison after
/// rounding can be made on the counts.
pub proof fn lemma_floor_order(a: int, b: int, dps: i8)
    ensures
        floor_to_precision(a, dps) < floor_to_precision(b, dps) <==> steps_below(a, dps)
            < steps_below(b, dps),
        floor_to_precision(a, dps) == floor_to_precision(b, dps) <==> steps_below(a, dps)
            == steps_below(b, dps),
{
    let step = price_step(dps);
    let qa = steps_below(a, dps);
    let qb = steps_below(b, dps);
    lemma_price_step_positive(dps);
    assert((qa < qb <==> qa * step < qb * step) && (qa == qb <==> qa * step == qb * step))
        by (nonlinear_arith)
        requires
            step >= 1,
    ;
}

/// Rounding down keeps the order of two values.
pub proof fn lemma_floor_monotonic(a: int, b: int, dps: i8)
    requires
        a <= b,
    ensures
        floor_to_precision(a, dps) <= floor_to_precision(b, dps),
{
    lemma_price_step_positive(dps);
    vstd::arithmetic::div_mod::lemma_div_is_ordered(a, b, price_step(dps));
    lemma_floor_order(b, a, dps);
}

/// Quotient of `a` by a positive `b`, rounded towards negative infinity.
pub fn floor_div(a: i128, b: i128) -> (q: i128)
    requires
        b > 0,
    ensures
        q == a / b,
{
    if a >= 0 {
        a / b
    } else {
        // For negative `a`, count how many times `b` fits into `-a - 1`.
        let m: i128 = -(a + 1);
        let k: i128 = m / b;
        let r: i128 = m % b;
        proof {
            lemma_fundamental_div_mod(m as int, b as int);
            assert((-k - 1) * b + (b - r - 1) == -(b * k) - b + b - r - 1) by (nonlinear_arith);
            lemma_fundamental_div_mod_converse(a as int, b as int, -k - 1, b - r - 1);
        }
        -k - 1
    }
}

/// Ten to the power `e`, for exponents whose power fits in 64 bits.
fn ten_to(e: u8) -> (p: i128)
    requires
        e <= 18,
    ensures
        p == pow10(e as nat),
        1 <= p <= 1_000_000_000_000_000_000,
{
    let mut p: i128 = 1;
    let mut i: u8 = 0;
    while i < e
        invariant
            i <= e <= 18,
            p == pow10(i as nat),
            1 <= p,
            p * pow10((18 - i) as nat) == pow10(18),
        decreases e - i,
    {
        proof {
            lemma_pow10_grows(0, (18 - i - 1) as nat);
            assert(p * (10 * pow10((18 - i - 1) as nat)) == (p * 10) * pow10((18 - i - 1) as nat))
                by (nonlinear_arith);
            assert(p * 10 <= (p * 10) * pow10((18 - i - 1) as nat)) by (nonlinear_arith)
                requires
                    p >= 1,
                    pow10((18 - i - 1) as nat) >= 1,
            ;
            lemma_pow10_18();
        }
        p = p * 10;
        i = i + 1;
    }
    proof {
        lemma_pow10_grows(0, (18 - i) as nat);
        lemma_pow10_18();
        assert(p <= p * pow10((18 - i) as nat)) by (nonlinear_arith)
            requires
                p >= 1,
                pow10((18 - i) as nat) >= 1,
        ;
    }
    p
}

/// The value of `10^18`, the largest power of ten below `2^63`.
proof fn lemma_pow10_18()
    ensures
        pow10(18) == 1_000_000_000_000_000_000,
{
    reveal_with_fuel(pow10, 19);
}

/// The number of whole steps of `price_step(dps)` at or below `value`:
/// the price rounded down to `dps` decimal digits, counted in steps.
pub fn whole_steps(value: Price, dps: i8) -> (q: i64)
    ensures
        q == steps_below(value as int, dps),
        q * price_step(dps) == floor_to_precision(value as int, dps),
{
    if dps >= PRICE_DECIMALS {
        value
    } else {
        let e: i16 = PRICE_DECIMALS as i16 - dps as i16;
        if e > 18 {
            // The step is larger than any price: everything rounds down
            // to zero, or to one step below zero.
            proof {
                lemma_pow10_18();
                lemma_pow10_grows(19, e as nat);
                assert(pow10(19) == 10 * pow10(18));
                let step = price_step(dps);
                assert(step == pow10(e as nat));
                if value >= 0 {
                    lemma_fundamental_div_mod_converse(value as int, step, 0, value as int);
                } else {
                    lemma_fundamental_div_mod_converse(value as int, step, -1, value + step);
                }
            }
            if value < 0 {
                -1
            } else {
                0
            }
        } else {
            let step: i128 = ten_to(e as u8);
            let q: i128 = floor_div(value as i128, step);
            proof {
                // |q| cannot exceed |value|, so it is a 64-bit number again.
                lemma_fundamental_div_mod(value as int, step as int);
                assert(i64::MIN <= q <= i64::MAX) by (nonlinear_arith)
                    requires
                        value == step * q + (value as int % step as int),
                        0 <= (value as int % step as int) < step,
                        step >= 1,
                        i64::MIN <= value <= i64::MAX,
                ;
            }
            q as i64
        }
    }
}

} // verus!

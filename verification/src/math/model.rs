//! The integer model of the logarithm and exponential: what each function
//! of the engine returns, stated over mathematical integers.
//!
//! All numbers are fixed-point: 18 decimals at the boundary, 20 or 36 inside.

use crate::error::ErrorCode;
use crate::math::i256::{trunc_div, trunc_rem};
use crate::math::u256::two_255;
use vstd::prelude::*;

verus! {

/// 10^18, the number 1 with 18 decimals.
pub open spec fn one_18() -> int {
    1_000_000_000_000_000_000
}

/// 10^20, the number 1 with 20 decimals.
pub open spec fn one_20() -> int {
    100_000_000_000_000_000_000
}

/// 10^36, the number 1 with 36 decimals.
pub open spec fn one_36() -> int {
    1_000_000_000_000_000_000_000_000_000_000_000_000
}

/// The largest argument of the exponential, 130.
pub open spec fn max_natural_exponent() -> int {
    130_000_000_000_000_000_000
}

/// The smallest argument of the exponential, -41.
pub open spec fn min_natural_exponent() -> int {
    -41_000_000_000_000_000_000
}

/// The logarithm of an argument strictly between this, 0.9, and the upper
/// bound is computed with 36 decimals.
pub open spec fn ln_36_lower_bound() -> int {
    900_000_000_000_000_000
}

/// The upper bound of the 36-decimal logarithm, 1.1.
pub open spec fn ln_36_upper_bound() -> int {
    1_100_000_000_000_000_000
}

/// 2^254 / 10^20: an exponent of `pow` must lie below it.
pub open spec fn mild_exponent_bound() -> int {
    289_480_223_093_290_488_558_927_462_521_719_769_633_174_961_664_101_410_098int
}

/// The breakpoints: `x_const(n)` is 2^(7 - n), with 18 decimals for the
/// first two and 20 decimals for the others.
pub open spec fn x_const(n: int) -> int {
    if n == 0 {
        128_000_000_000_000_000_000int
    } else if n == 1 {
        64_000_000_000_000_000_000int
    } else if n == 2 {
        3_200_000_000_000_000_000_000int
    } else if n == 3 {
        1_600_000_000_000_000_000_000int
    } else if n == 4 {
        800_000_000_000_000_000_000int
    } else if n == 5 {
        400_000_000_000_000_000_000int
    } else if n == 6 {
        200_000_000_000_000_000_000int
    } else if n == 7 {
        100_000_000_000_000_000_000int
    } else if n == 8 {
        50_000_000_000_000_000_000int
    } else if n == 9 {
        25_000_000_000_000_000_000int
    } else if n == 10 {
        12_500_000_000_000_000_000int
    } else {
        6_250_000_000_000_000_000int
    }
}

/// The exponentials of the breakpoints: `a_const(n)` is e^(2^(7 - n)), a
/// plain integer for the first two and with 20 decimals for the others.
pub open spec fn a_const(n: int) -> int {
    if n == 0 {
        38_877_084_059_945_950_922_200_000_000_000_000_000_000_000_000_000_000_000int
    } else if n == 1 {
        6_235_149_080_811_616_882_910_000_000int
    } else if n == 2 {
        7_896_296_018_268_069_516_100_000_000_000_000int
    } else if n == 3 {
        888_611_052_050_787_263_676_000_000int
    } else if n == 4 {
        298_095_798_704_172_827_474_000int
    } else if n == 5 {
        5_459_815_003_314_423_907_810int
    } else if n == 6 {
        738_905_609_893_065_022_723int
    } else if n == 7 {
        271_828_182_845_904_523_536int
    } else if n == 8 {
        164_872_127_070_012_814_685int
    } else if n == 9 {
        128_402_541_668_774_148_407int
    } else if n == 10 {
        113_314_845_306_682_631_683int
    } else {
        106_449_445_891_785_942_956int
    }
}

/// Whether `x` is an argument that the exponential accepts.
pub open spec fn exp_in_domain(x: int) -> bool {
    min_natural_exponent() <= x <= max_natural_exponent()
}

/// The first stage of the exponential, on an argument with 18 decimals: the
/// larger of the two plain breakpoints that fits is taken out. The result is
/// its exponential (1 where none fits) and what is left of the argument.
pub open spec fn exp_first(x: int) -> (int, int) {
    if x >= x_const(0) {
        (a_const(0), x - x_const(0))
    } else if x >= x_const(1) {
        (a_const(1), x - x_const(1))
    } else {
        (1, x)
    }
}

/// One step of the second stage, on 20 decimals: breakpoint `n` is taken
/// out of `x` where it fits, and its exponential multiplied into `product`.
pub open spec fn exp_step(x: int, product: int, n: int) -> (int, int) {
    if x >= x_const(n) {
        (x - x_const(n), (product * a_const(n)) / one_20())
    } else {
        (x, product)
    }
}

/// The steps of the second stage from breakpoint `n` to breakpoint 9, in
/// turn. The result is what is left of `x` and the product.
pub open spec fn exp_reduce(x: int, product: int, n: int) -> (int, int)
    decreases 10 - n,
{
    if n < 2 || n > 9 {
        (x, product)
    } else {
        let next = exp_step(x, product, n);
        exp_reduce(next.0, next.1, n + 1)
    }
}

/// The second stage: breakpoints 2 to 9 in turn, starting from the product 1.
pub open spec fn exp_product(x: int) -> (int, int) {
    exp_reduce(x, one_20(), 2)
}

/// The term x^k / k! of the Taylor series, from the term before it.
pub open spec fn taylor_term(previous: int, x: int, k: int) -> int {
    ((previous * x) / one_20()) / k
}

/// The sum of the terms x^k / k! of the Taylor series for `k` up to 12,
/// where `previous` is the term before them.
pub open spec fn taylor_tail(x: int, previous: int, k: int) -> int
    decreases 13 - k,
{
    if k < 2 || k > 12 {
        0
    } else {
        let term = taylor_term(previous, x, k);
        term + taylor_tail(x, term, k + 1)
    }
}

/// The Taylor series 1 + x + x^2/2! + ... + x^12/12! on 20 decimals.
pub open spec fn exp_taylor(x: int) -> int {
    one_20() + x + taylor_tail(x, x, 2)
}

/// The exponential of an argument between 0 and 130, with 18 decimals.
pub open spec fn exp_positive(x: int) -> int {
    let first = exp_first(x);
    let reduced = exp_product(first.1 * 100);
    ((((reduced.1 * exp_taylor(reduced.0)) / one_20()) * first.0) / 100)
}

/// The exponential of an argument between -41 and 130, with 18 decimals:
/// below zero it is the reciprocal of the exponential of the negation.
pub open spec fn exp_value(x: int) -> int {
    if x < 0 {
        (one_18() * one_18()) / exp_positive(-x)
    } else {
        exp_positive(x)
    }
}

/// The power of `z` that follows `numerator` in the series of the
/// logarithm, on a scale where `one` is the number 1.
pub open spec fn series_next(numerator: int, z_squared: int, one: int) -> int {
    trunc_div(numerator * z_squared, one)
}

/// z^(2k + 1), on a scale where `one` is the number 1, rounded toward zero
/// at each multiplication by z^2.
pub open spec fn odd_power(z: int, one: int, k: nat) -> int
    decreases k,
{
    if k == 0 {
        z
    } else {
        series_next(odd_power(z, one, (k - 1) as nat), trunc_div(z * z, one), one)
    }
}

/// The first `terms` terms of z + z^3/3 + z^5/5 + ..., each rounded toward
/// zero.
pub open spec fn odd_series(z: int, one: int, terms: nat) -> int
    decreases terms,
{
    if terms == 0 {
        0
    } else {
        odd_series(z, one, (terms - 1) as nat) + trunc_div(
            odd_power(z, one, (terms - 1) as nat),
            2 * terms - 1,
        )
    }
}

/// Whether the logarithm of `x` is computed with 36 decimals.
pub open spec fn near_one(x: int) -> bool {
    ln_36_lower_bound() < x < ln_36_upper_bound()
}

/// The logarithm with 36 decimals of an argument near 1: with
/// z = (x - 1) / (x + 1) it is twice the series of eight terms.
pub open spec fn ln_36_value(x: int) -> int {
    let x36 = x * one_18();
    let z = trunc_div((x36 - one_36()) * one_36(), x36 + one_36());
    odd_series(z, one_36(), 8) * 2
}

/// The first stage of the logarithm, on an argument of at least 1 with 18
/// decimals: the exponentials of the two plain breakpoints are divided out
/// where they fit. The result is what is left and the sum of the
/// breakpoints taken.
pub open spec fn ln_first(a: int) -> (int, int) {
    let s0 = if a >= a_const(0) * one_18() {
        (a / a_const(0), x_const(0))
    } else {
        (a, 0int)
    };
    if s0.0 >= a_const(1) * one_18() {
        (s0.0 / a_const(1), s0.1 + x_const(1))
    } else {
        s0
    }
}

/// One step of the second stage, on 20 decimals: the exponential of
/// breakpoint `n` is divided out of `a` where it fits, and the breakpoint
/// added to `sum`.
pub open spec fn ln_step(a: int, sum: int, n: int) -> (int, int) {
    if a >= a_const(n) {
        ((a * one_20()) / a_const(n), sum + x_const(n))
    } else {
        (a, sum)
    }
}

/// The steps of the second stage from breakpoint `n` to breakpoint 11, in
/// turn. The result is what is left of `a` and the sum.
pub open spec fn ln_reduce_from(a: int, sum: int, n: int) -> (int, int)
    decreases 12 - n,
{
    if n < 2 || n > 11 {
        (a, sum)
    } else {
        let next = ln_step(a, sum, n);
        ln_reduce_from(next.0, next.1, n + 1)
    }
}

/// The second stage: breakpoints 2 to 11 in turn.
pub open spec fn ln_reduce(a: int, sum: int) -> (int, int) {
    ln_reduce_from(a, sum, 2)
}

/// The logarithm of an argument of at least 1, with 18 decimals: the sum of
/// the breakpoints taken, and for what is left, with z = (a - 1) / (a + 1),
/// twice the series of six terms.
pub open spec fn ln_positive(a: int) -> int {
    let first = ln_first(a);
    let reduced = ln_reduce(first.0 * 100, first.1 * 100);
    let z = ((reduced.0 - one_20()) * one_20()) / (reduced.0 + one_20());
    (reduced.1 + odd_series(z, one_20(), 6) * 2) / 100
}

/// The logarithm with 18 decimals of an argument above zero, by
/// breakpoints: below 1 it is the negation of the logarithm of the
/// reciprocal.
pub open spec fn ln_internal_value(a: int) -> int {
    if a < one_18() {
        -ln_positive((one_18() * one_18()) / a)
    } else {
        ln_positive(a)
    }
}

/// The logarithm with 18 decimals of an argument above zero.
pub open spec fn ln_value(a: int) -> int {
    if near_one(a) {
        trunc_div(ln_36_value(a), one_18())
    } else {
        ln_internal_value(a)
    }
}

/// The logarithm with 36 decimals of an argument above zero.
pub open spec fn ln_wide_value(a: int) -> int {
    if near_one(a) {
        ln_36_value(a)
    } else {
        ln_internal_value(a) * one_18()
    }
}

/// The logarithm of `arg` in base `base`, both above zero and the base's
/// logarithm not zero: the quotient of the two logarithms.
pub open spec fn log_value(arg: int, base: int) -> int {
    trunc_div(ln_wide_value(arg) * one_18(), ln_wide_value(base))
}

/// What `log` returns: `DivideByZero` for the base 0 and for a base whose
/// logarithm is 0, `MathOverflow` for a base or an argument that has no
/// logarithm.
pub open spec fn log_result(arg: int, base: int) -> Result<int, ErrorCode> {
    if base == 0 {
        Err(ErrorCode::DivideByZero)
    } else if base < 0 || arg <= 0 {
        Err(ErrorCode::MathOverflow)
    } else if ln_wide_value(base) == 0 {
        Err(ErrorCode::DivideByZero)
    } else {
        Ok(log_value(arg, base))
    }
}

/// The exponent of `e` that `pow` hands to the exponential: `y` times the
/// logarithm of `x`, with 18 decimals. Near 1 the logarithm has 36
/// decimals, and its first and last 18 are multiplied apart.
pub open spec fn pow_exponent(x: int, y: int) -> int {
    if near_one(x) {
        let wide = ln_36_value(x);
        let high = trunc_div(wide, one_18());
        let low = trunc_rem(wide, one_18());
        trunc_div(high * y + trunc_div(low * y, one_18()), one_18())
    } else {
        trunc_div(ln_internal_value(x) * y, one_18())
    }
}

/// What `pow` returns for the base `x` and the exponent `y`: 1 for the
/// exponent 0, 0 for the base 0 and another exponent, else the exponential
/// of `y` times the logarithm of `x`; `MathOverflow` for a base from 2^255
/// on, an exponent from 2^254 / 10^20 on, or a product outside the domain
/// of the exponential.
pub open spec fn pow_result(x: nat, y: nat) -> Result<nat, ErrorCode> {
    if y == 0 {
        Ok(one_18() as nat)
    } else if x == 0 {
        Ok(0nat)
    } else if x >= two_255() || y >= mild_exponent_bound() {
        Err(ErrorCode::MathOverflow)
    } else if !exp_in_domain(pow_exponent(x as int, y as int)) {
        Err(ErrorCode::MathOverflow)
    } else {
        Ok(exp_value(pow_exponent(x as int, y as int)) as nat)
    }
}

} // verus!

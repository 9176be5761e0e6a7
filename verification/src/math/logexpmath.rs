//! Natural logarithm, exponential and power on signed fixed-point numbers
//! with 18 decimals, computed with integers only.

use crate::error::ErrorCode;
use crate::math::i256::{
    abs_int, i256_max, lemma_abs_product, lemma_rem_bound, lemma_trunc_div_bound, trunc_div, I256,
};
use crate::math::model;
use crate::math::u256::{from_u64, lemma_pow2_254, to_nat, wide_div, wide_lt};
use core::ops::Neg;
use primitive_types::U256;
use vstd::prelude::*;

verus! {

/// The number 1 with 18 decimals.
pub fn one_18() -> (r: I256)
    ensures
        r@ == model::one_18(),
{
    I256::from_words([0xde0b6b3a7640000, 0, 0, 0])
}

/// The number 1 with 20 decimals.
pub fn one_20() -> (r: I256)
    ensures
        r@ == model::one_20(),
{
    I256::from_words([0x6bc75e2d63100000, 5, 0, 0])
}

/// The number 1 with 36 decimals.
pub fn one_36() -> (r: I256)
    ensures
        r@ == model::one_36(),
{
    I256::from_words([0xb34b9f1000000000, 0xc097ce7bc90715, 0, 0])
}

/// The largest argument of the exponential, 130.
pub fn max_natural_exponent() -> (r: I256)
    ensures
        r@ == model::max_natural_exponent(),
{
    I256::from_words([0xc1cc73b00c80000, 7, 0, 0])
}

/// The smallest argument of the exponential, -41.
pub fn min_natural_exponent() -> (r: I256)
    ensures
        r@ == model::min_natural_exponent(),
{
    I256::from_words(
        [0xc702bd3a30fc0000, 0xfffffffffffffffd, 0xffffffffffffffff, 0xffffffffffffffff],
    )
}

/// The lower bound, 0.9, of the arguments whose logarithm is computed with 36
/// decimals.
pub fn ln_36_lower_bound() -> (r: I256)
    ensures
        r@ == model::ln_36_lower_bound(),
{
    I256::from_words([0xc7d713b49da0000, 0, 0, 0])
}

/// The upper bound, 1.1, of those arguments.
pub fn ln_36_upper_bound() -> (r: I256)
    ensures
        r@ == model::ln_36_upper_bound(),
{
    I256::from_words([0xf43fc2c04ee0000, 0, 0, 0])
}

/// Breakpoint `n`: 2^(7 - n), with 18 decimals for the first two and 20
/// decimals for the others.
pub fn breakpoint(n: usize) -> (r: I256)
    requires
        n < 12,
    ensures
        r@ == model::x_const(n as int),
{
    if n == 0 {
        I256::from_words([0xf05b59d3b2000000, 6, 0, 0])
    } else if n == 1 {
        I256::from_words([0x782dace9d9000000, 3, 0, 0])
    } else if n == 2 {
        I256::from_words([0x78ebc5ac62000000, 0xad, 0, 0])
    } else if n == 3 {
        I256::from_words([0xbc75e2d631000000, 0x56, 0, 0])
    } else if n == 4 {
        I256::from_words([0x5e3af16b18800000, 0x2b, 0, 0])
    } else if n == 5 {
        I256::from_words([0xaf1d78b58c400000, 0x15, 0, 0])
    } else if n == 6 {
        I256::from_words([0xd78ebc5ac6200000, 0xa, 0, 0])
    } else if n == 7 {
        I256::from_words([0x6bc75e2d63100000, 5, 0, 0])
    } else if n == 8 {
        I256::from_words([0xb5e3af16b1880000, 2, 0, 0])
    } else if n == 9 {
        I256::from_words([0x5af1d78b58c40000, 1, 0, 0])
    } else if n == 10 {
        I256::from_words([0xad78ebc5ac620000, 0, 0, 0])
    } else {
        I256::from_words([0x56bc75e2d6310000, 0, 0, 0])
    }
}

/// The exponential of breakpoint `n`: a plain integer for the first two, with
/// 20 decimals for the others.
pub fn breakpoint_exp(n: usize) -> (r: I256)
    requires
        n < 12,
    ensures
        r@ == model::a_const(n as int),
{
    if n == 0 {
        I256::from_words([0x262827000000000, 0xf53a27172fa9ec63, 0x195e54c5dd42177, 0])
    } else if n == 1 {
        I256::from_words([0xf597cd205cef7380, 0x1425982c, 0, 0])
    } else if n == 2 {
        I256::from_words([0xf805980ff0084000, 0x1855144814a7f, 0, 0])
    } else if n == 3 {
        I256::from_words([0xa80a22c61ab5a700, 0x2df0ab5, 0, 0])
    } else if n == 4 {
        I256::from_words([0xce3da636ea5cf850, 0x3f1f, 0, 0])
    } else if n == 5 {
        I256::from_words([0xfa27722cc06cc5e2, 0x127, 0, 0])
    } else if n == 6 {
        I256::from_words([0xe60114edb805d03, 0x28, 0, 0])
    } else if n == 7 {
        I256::from_words([0xbc5fb41746121110, 0xe, 0, 0])
    } else if n == 8 {
        I256::from_words([0xf00f760a4b2db55d, 8, 0, 0])
    } else if n == 9 {
        I256::from_words([0xf5f1775788937937, 6, 0, 0])
    } else if n == 10 {
        I256::from_words([0x248f33704b286603, 6, 0, 0])
    } else {
        I256::from_words([0xc548670b9510e7ac, 5, 0, 0])
    }
}

/// A bound of the product of exponentials before step `n` of the exponential.
spec fn product_bound(n: int) -> int {
    if n <= 2 {
        100_000_000_000_000_000_000int
    } else if n == 3 {
        7_896_296_018_268_069_516_100_000_000_000_000int
    } else if n == 4 {
        70_167_359_120_976_317_386_542_812_965_656_684_271_836int
    } else if n == 5 {
        209_165_949_601_299_615_390_442_109_296_360_546_958_270_159int
    } else if n == 6 {
        11_420_073_898_156_842_836_612_956_676_649_479_145_085_902_416int
    } else if n == 7 {
        84_383_566_687_414_544_890_605_642_861_479_893_980_206_797_382int
    } else if n == 8 {
        229_378_315_946_960_987_909_564_032_213_814_069_774_054_870_815int
    } else if n == 9 {
        378_180_908_539_128_987_898_230_655_692_248_765_927_019_707_301int
    } else {
        485_593_898_670_303_750_249_326_089_141_478_710_917_884_464_781int
    }
}

/// A bound of what is left of the argument before step `n` of the logarithm.
spec fn remainder_bound(n: int) -> int {
    if n <= 2 {
        630_000_000_000_000_000_000_000_000_000_000_000_000_000_000_000int
    } else if n == 3 {
        7_978_424_295_929_330_705_563_949_023_416_994int
    } else if n == 4 {
        897_853_372_126_789_116_959_807_871int
    } else if n == 5 {
        301_196_251_684_784_552_120_843int
    } else if n == 6 {
        5_516_601_780_498_807_813_255int
    } else if n == 7 {
        746_590_864_467_408_033_960int
    } else if n == 8 {
        274_655_430_003_974_101_338int
    } else if n == 9 {
        166_586_939_153_967_423_698int
    } else if n == 10 {
        129_738_038_662_578_305_574int
    } else if n == 11 {
        114_493_417_267_125_838_980int
    } else {
        107_556_611_786_891_978_952int
    }
}

/// A product of two numbers within bounds is within the product of the bounds.
proof fn lemma_product_bound(a: int, b: int, a_max: int, b_max: int)
    requires
        0 <= a <= a_max,
        0 <= b <= b_max,
    ensures
        0 <= a * b <= a_max * b_max,
{
    assert(0 <= a * b <= a_max * b_max) by (nonlinear_arith)
        requires
            0 <= a <= a_max,
            0 <= b <= b_max,
    ;
}

/// A product of two numbers above bounds is above the product of the bounds.
proof fn lemma_product_lower_bound(a: int, b: int, a_min: int, b_min: int)
    requires
        0 <= a_min <= a,
        0 <= b_min <= b,
    ensures
        a_min * b_min <= a * b,
{
    assert(a_min * b_min <= a * b) by (nonlinear_arith)
        requires
            0 <= a_min <= a,
            0 <= b_min <= b,
    ;
}

/// A quotient grows with what is divided and shrinks with the divisor.
proof fn lemma_quotient_bound(a: int, b: int, a_max: int, b_min: int)
    requires
        0 <= a <= a_max,
        0 < b_min <= b,
    ensures
        0 <= a / b <= a_max / b_min,
{
    vstd::arithmetic::div_mod::lemma_div_is_ordered_by_denominator(a, b_min, b);
    vstd::arithmetic::div_mod::lemma_div_is_ordered(a, a_max, b_min);
    vstd::arithmetic::div_mod::lemma_div_pos_is_pos(a, b);
}

/// The quotient of two numbers that are not negative, rounded toward zero,
/// is the quotient rounded down.
proof fn lemma_trunc_div_nonnegative(a: int, b: int)
    requires
        0 <= a,
        0 < b,
    ensures
        trunc_div(a, b) == a / b,
        0 <= a / b <= a,
{
    lemma_trunc_div_bound(a, b);
}

/// One step of the second stage of the exponential.
fn exp_step(x: I256, product: I256, n: usize) -> (r: (I256, I256))
    requires
        2 <= n <= 9,
        0 <= x@ < 2 * model::x_const(n as int),
        model::one_20() <= product@ <= product_bound(n as int),
    ensures
        (r.0@, r.1@) == model::exp_step(x@, product@, n as int),
        0 <= r.0@ < model::x_const(n as int),
        model::one_20() <= r.1@ <= product_bound(n + 1),
{
    let x_n = breakpoint(n);
    if x >= x_n {
        let a_n = breakpoint_exp(n);
        proof {
            lemma_product_bound(product@, a_n@, product_bound(n as int), a_n@);
            lemma_product_lower_bound(product@, a_n@, model::one_20(), model::one_20());
            lemma_trunc_div_nonnegative(product@ * a_n@, model::one_20());
        }
        (x - x_n, (product * a_n) / one_20())
    } else {
        (x, product)
    }
}

/// The next term of the Taylor series of the exponential.
fn taylor_term(previous: I256, x: I256, k: u64) -> (r: I256)
    requires
        2 <= k <= 12,
        0 <= x@ < model::x_const(9),
        0 <= previous@ <= model::x_const(9),
    ensures
        r@ == model::taylor_term(previous@, x@, k as int),
        0 <= 4 * r@ <= previous@,
{
    proof {
        lemma_product_bound(previous@, x@, previous@, model::x_const(9));
        lemma_trunc_div_nonnegative(previous@ * x@, model::one_20());
        lemma_trunc_div_nonnegative((previous@ * x@) / model::one_20(), k as int);
    }
    ((previous * x) / one_20()) / I256::from(k)
}

/// The Taylor series of the exponential, on 20 decimals, for an argument
/// below the last breakpoint taken.
fn exp_taylor(x: I256) -> (r: I256)
    requires
        0 <= x@ < model::x_const(9),
    ensures
        r@ == model::exp_taylor(x@),
        model::one_20() <= r@ <= model::one_20() + 2 * x@,
{
    let mut series_sum = one_20() + x;
    let t2 = taylor_term(x, x, 2);
    series_sum = series_sum + t2;
    let t3 = taylor_term(t2, x, 3);
    series_sum = series_sum + t3;
    let t4 = taylor_term(t3, x, 4);
    series_sum = series_sum + t4;
    let t5 = taylor_term(t4, x, 5);
    series_sum = series_sum + t5;
    let t6 = taylor_term(t5, x, 6);
    series_sum = series_sum + t6;
    let t7 = taylor_term(t6, x, 7);
    series_sum = series_sum + t7;
    let t8 = taylor_term(t7, x, 8);
    series_sum = series_sum + t8;
    let t9 = taylor_term(t8, x, 9);
    series_sum = series_sum + t9;
    let t10 = taylor_term(t9, x, 10);
    series_sum = series_sum + t10;
    let t11 = taylor_term(t10, x, 11);
    series_sum = series_sum + t11;
    let t12 = taylor_term(t11, x, 12);
    series_sum = series_sum + t12;
    proof {
        reveal_with_fuel(model::taylor_tail, 12);
    }
    series_sum
}

/// The second stage of the exponential: breakpoints 2 to 9 in turn.
fn exp_product(x: I256) -> (r: (I256, I256))
    requires
        0 <= x@ < 2 * model::x_const(2),
    ensures
        (r.0@, r.1@) == model::exp_product(x@),
        0 <= r.0@ < model::x_const(9),
        model::one_20() <= r.1@ <= product_bound(10),
        x@ <= model::x_const(6) ==> r.1@ <= model::a_const(6),
{
    let s2 = exp_step(x, one_20(), 2);
    let s3 = exp_step(s2.0, s2.1, 3);
    let s4 = exp_step(s3.0, s3.1, 4);
    let s5 = exp_step(s4.0, s4.1, 5);
    let s6 = exp_step(s5.0, s5.1, 6);
    let s7 = exp_step(s6.0, s6.1, 7);
    let s8 = exp_step(s7.0, s7.1, 8);
    let s9 = exp_step(s8.0, s8.1, 9);
    proof {
        reveal_with_fuel(model::exp_reduce, 9);
    }
    s9
}

/// The exponential of an argument between 0 and 130.
fn exp_positive(x: I256) -> (r: I256)
    requires
        0 <= x@ <= model::max_natural_exponent(),
    ensures
        r@ == model::exp_positive(x@),
        model::one_18() <= r@,
{
    // The first two exponentials are too large for 18 decimals and are kept
    // as plain integers; at most one of them can be part of the argument.
    let (first_an, rest) = if x >= breakpoint(0) {
        (breakpoint_exp(0), x - breakpoint(0))
    } else if x >= breakpoint(1) {
        (breakpoint_exp(1), x - breakpoint(1))
    } else {
        (I256::from(1u64), x)
    };
    // From here on with 20 decimals.
    let (remainder, product) = exp_product(rest * I256::from(100u64));
    let series_sum = exp_taylor(remainder);
    proof {
        lemma_product_lower_bound(
            product@,
            series_sum@,
            model::one_20(),
            model::one_20(),
        );
        if x@ >= model::x_const(0) {
            lemma_product_bound(
                product@,
                series_sum@,
                model::a_const(6),
                150_000_000_000_000_000_000,
            );
        } else {
            lemma_product_bound(
                product@,
                series_sum@,
                product_bound(10),
                150_000_000_000_000_000_000,
            );
        }
        lemma_trunc_div_nonnegative(product@ * series_sum@, model::one_20());
    }
    let scaled = (product * series_sum) / one_20();
    proof {
        if x@ >= model::x_const(0) {
            lemma_product_bound(scaled@, first_an@, 1_200_000_000_000_000_000_000, first_an@);
        } else {
            lemma_product_bound(
                scaled@,
                first_an@,
                product_bound(10) * 150_000_000_000_000_000_000 / model::one_20(),
                first_an@,
            );
        }
        lemma_product_lower_bound(scaled@, first_an@, model::one_20(), 1);
        lemma_trunc_div_nonnegative(scaled@ * first_an@, 100);
    }
    (scaled * first_an) / I256::from(100u64)
}

/// The next power of `z` in the series of the logarithm.
fn series_next(numerator: I256, z_squared: I256, one: I256) -> (r: I256)
    requires
        0 < one@ <= model::one_36(),
        0 <= z_squared@ <= one@,
        abs_int(numerator@) <= one@,
    ensures
        r@ == model::series_next(numerator@, z_squared@, one@),
        abs_int(r@) <= abs_int(numerator@),
        numerator@ >= 0 ==> r@ >= 0,
        numerator@ <= 0 ==> r@ <= 0,
{
    proof {
        lemma_abs_product(numerator@, z_squared@);
        lemma_product_bound(
            abs_int(numerator@) as int,
            z_squared@,
            abs_int(numerator@) as int,
            one@,
        );
        lemma_product_bound(abs_int(numerator@) as int, one@, model::one_36(), model::one_36());
        lemma_trunc_div_bound(numerator@ * z_squared@, one@);
        vstd::arithmetic::div_mod::lemma_div_is_ordered(
            abs_int(numerator@ * z_squared@) as int,
            abs_int(numerator@) * one@,
            one@,
        );
        vstd::arithmetic::div_mod::lemma_div_multiples_vanish(abs_int(numerator@) as int, one@);
    }
    (numerator * z_squared) / one
}

/// The first `terms` terms of the series z + z^3/3 + z^5/5 + ..., on a scale
/// where `one` is the number 1, for `z` of at most an eighth.
fn odd_series(z: I256, one: I256, terms: u64) -> (r: I256)
    requires
        0 < one@ <= model::one_36(),
        8 * abs_int(z@) <= one@,
        1 <= terms <= 8,
    ensures
        r@ == model::odd_series(z@, one@, terms as nat),
        abs_int(r@) <= 8 * abs_int(z@),
        z@ >= 0 ==> r@ >= 0,
        z@ <= 0 ==> r@ <= 0,
{
    proof {
        lemma_abs_product(z@, z@);
        lemma_product_bound(abs_int(z@) as int, abs_int(z@) as int, one@, one@);
        lemma_product_bound(one@, one@, model::one_36(), model::one_36());
        lemma_trunc_div_bound(z@ * z@, one@);
        vstd::arithmetic::div_mod::lemma_div_is_ordered(abs_int(z@ * z@) as int, one@ * one@, one@);
        vstd::arithmetic::div_mod::lemma_div_multiples_vanish(one@, one@);
        assert(z@ * z@ >= 0) by (nonlinear_arith);
    }
    let z_squared = (z * z) / one;
    // `num` runs through the odd powers of z; each term is one of them
    // divided by its exponent.
    let mut num = z;
    let mut series_sum = z;
    let mut k: u64 = 1;
    proof {
        z.lemma_view();
        reveal_with_fuel(model::odd_series, 2);
        assert(model::odd_series(z@, one@, 1) == z@);
    }
    while k < terms
        invariant
            1 <= k <= terms <= 8,
            0 < one@ <= model::one_36(),
            8 * abs_int(z@) <= one@,
            z_squared@ == trunc_div(z@ * z@, one@),
            0 <= z_squared@ <= one@,
            num@ == model::odd_power(z@, one@, (k - 1) as nat),
            series_sum@ == model::odd_series(z@, one@, k as nat),
            abs_int(num@) <= abs_int(z@),
            abs_int(series_sum@) <= k * abs_int(z@),
            z@ >= 0 ==> num@ >= 0 && series_sum@ >= 0,
            z@ <= 0 ==> num@ <= 0 && series_sum@ <= 0,
        decreases terms - k,
    {
        num = series_next(num, z_squared, one);
        proof {
            lemma_trunc_div_bound(num@, 2 * k + 1);
            let m = abs_int(z@) as int;
            assert(k * m <= 7 * m && (k + 1) * m == k * m + m) by (nonlinear_arith)
                requires
                    1 <= k <= 7,
                    0 <= m,
            ;
        }
        series_sum = series_sum + num / I256::from(2 * k + 1);
        k = k + 1;
    }
    proof {
        let m = abs_int(z@) as int;
        assert(k * m <= 8 * m) by (nonlinear_arith)
            requires
                1 <= k <= 8,
                0 <= m,
        ;
    }
    series_sum
}

/// One step of the second stage of the logarithm.
fn ln_step(a: I256, sum: I256, n: usize) -> (r: (I256, I256))
    requires
        2 <= n <= 11,
        model::one_20() <= a@ <= remainder_bound(n as int),
        0 <= sum@ <= 20_000_000_000_000_000_000_000,
    ensures
        (r.0@, r.1@) == model::ln_step(a@, sum@, n as int),
        model::one_20() <= r.0@ <= remainder_bound(n + 1),
        r.0@ <= a@,
        sum@ <= r.1@ <= sum@ + model::x_const(n as int),
{
    let a_n = breakpoint_exp(n);
    if a >= a_n {
        proof {
            lemma_trunc_div_nonnegative(a@ * model::one_20(), a_n@);
            lemma_quotient_bound(
                a@ * model::one_20(),
                a_n@,
                remainder_bound(n as int) * model::one_20(),
                a_n@,
            );
            lemma_ln_step_shrinks(a@, a_n@);
        }
        ((a * one_20()) / a_n, sum + breakpoint(n))
    } else {
        (a, sum)
    }
}

/// Dividing out an exponential, which is at least 1, leaves no more than
/// there was, and leaves at least 1 of what was at least the exponential.
proof fn lemma_ln_step_shrinks(a: int, a_n: int)
    requires
        model::one_20() <= a_n <= a,
    ensures
        model::one_20() <= (a * model::one_20()) / a_n <= a,
{
    let one = model::one_20();
    // a * one / a_n <= a * one / one == a
    vstd::arithmetic::div_mod::lemma_div_is_ordered_by_denominator(a * one, one, a_n);
    vstd::arithmetic::div_mod::lemma_div_multiples_vanish(a, one);
    // a * one / a_n >= a_n * one / a_n == one
    assert(a_n * one <= a * one) by (nonlinear_arith)
        requires
            a_n <= a,
            one > 0,
    ;
    vstd::arithmetic::div_mod::lemma_div_is_ordered(a_n * one, a * one, a_n);
    assert(a_n * one == one * a_n) by (nonlinear_arith);
    vstd::arithmetic::div_mod::lemma_div_multiples_vanish(one, a_n);
}

/// The second stage of the logarithm: breakpoints 2 to 11 in turn.
fn ln_reduce(a: I256, sum: I256) -> (r: (I256, I256))
    requires
        model::one_20() <= a@ <= remainder_bound(2),
        0 <= sum@ <= 12_800_000_000_000_000_000_000,
        sum@ > 6_400_000_000_000_000_000_000 ==> a@ < model::a_const(4),
    ensures
        (r.0@, r.1@) == model::ln_reduce(a@, sum@),
        model::one_20() <= r.0@ <= remainder_bound(12),
        0 <= r.1@ <= 13_600_000_000_000_000_000_000,
{
    let s2 = ln_step(a, sum, 2);
    let s3 = ln_step(s2.0, s2.1, 3);
    let s4 = ln_step(s3.0, s3.1, 4);
    let s5 = ln_step(s4.0, s4.1, 5);
    let s6 = ln_step(s5.0, s5.1, 6);
    let s7 = ln_step(s6.0, s6.1, 7);
    let s8 = ln_step(s7.0, s7.1, 8);
    let s9 = ln_step(s8.0, s8.1, 9);
    let s10 = ln_step(s9.0, s9.1, 10);
    let s11 = ln_step(s10.0, s10.1, 11);
    proof {
        reveal_with_fuel(model::ln_reduce_from, 11);
    }
    s11
}

/// The first stage of the logarithm: the two plain exponentials are divided
/// out where they fit.
fn ln_first(a: I256) -> (r: (I256, I256))
    requires
        model::one_18() <= a@,
    ensures
        (r.0@, r.1@) == model::ln_first(a@),
        model::one_18() <= r.0@ <= 6_300_000_000_000_000_000_000_000_000_000_000_000_000_000_000,
        0 <= r.1@ <= model::x_const(0),
        r.1@ > model::x_const(1) ==> r.0@ < 1_500_000_000_000_000_000_000,
{
    proof {
        a.lemma_view();
    }
    let mut a = a;
    let mut sum = I256::zero();
    let a0 = breakpoint_exp(0);
    if a >= a0 * one_18() {
        proof {
            lemma_trunc_div_nonnegative(a@, a0@);
            lemma_quotient_bound(a@, a0@, i256_max(), a0@);
            vstd::arithmetic::div_mod::lemma_div_is_ordered(a0@ * model::one_18(), a@, a0@);
            assert(a0@ * model::one_18() == model::one_18() * a0@) by (nonlinear_arith);
            vstd::arithmetic::div_mod::lemma_div_multiples_vanish(model::one_18(), a0@);
        }
        a = a / a0;
        sum = sum + breakpoint(0);
    }
    let a1 = breakpoint_exp(1);
    if a >= a1 * one_18() {
        proof {
            lemma_trunc_div_nonnegative(a@, a1@);
            lemma_quotient_bound(a@, a1@, a0@ * model::one_18(), a1@);
            vstd::arithmetic::div_mod::lemma_div_is_ordered(a1@ * model::one_18(), a@, a1@);
            assert(a1@ * model::one_18() == model::one_18() * a1@) by (nonlinear_arith);
            vstd::arithmetic::div_mod::lemma_div_multiples_vanish(model::one_18(), a1@);
        }
        a = a / a1;
        sum = sum + breakpoint(1);
    }
    (a, sum)
}

/// The logarithm of an argument of at least 1.
fn ln_positive(a: I256) -> (r: I256)
    requires
        model::one_18() <= a@,
    ensures
        r@ == model::ln_positive(a@),
        0 <= r@ <= 137_000_000_000_000_000_000,
{
    let (rest, first_sum) = ln_first(a);
    // From here on with 20 decimals.
    let hundred = I256::from(100u64);
    let (remainder, sum) = ln_reduce(rest * hundred, first_sum * hundred);
    // What is left is close to 1: with z = (a - 1) / (a + 1),
    // ln(a) = 2 * (z + z^3/3 + z^5/5 + ...).
    proof {
        lemma_product_bound(
            remainder@ - model::one_20(),
            model::one_20(),
            remainder_bound(12) - model::one_20(),
            model::one_20(),
        );
        lemma_trunc_div_nonnegative(
            (remainder@ - model::one_20()) * model::one_20(),
            remainder@ + model::one_20(),
        );
        lemma_quotient_bound(
            (remainder@ - model::one_20()) * model::one_20(),
            remainder@ + model::one_20(),
            (remainder_bound(12) - model::one_20()) * model::one_20(),
            2 * model::one_20(),
        );
    }
    let z = ((remainder - one_20()) * one_20()) / (remainder + one_20());
    let series_sum = odd_series(z, one_20(), 6) * I256::from(2u64);
    proof {
        lemma_trunc_div_nonnegative(sum@ + series_sum@, 100);
    }
    (sum + series_sum) / hundred
}

/// The logarithm with 36 decimals of an argument near 1.
fn ln_36(x: I256) -> (r: I256)
    requires
        model::near_one(x@),
    ensures
        r@ == model::ln_36_value(x@),
        abs_int(r@) <= model::one_36(),
        x@ >= model::one_18() ==> r@ >= 0,
        x@ <= model::one_18() ==> r@ <= 0,
{
    // The argument with 36 decimals.
    let x = x * one_18();
    let numerator = (x - one_36()) * one_36();
    let denominator = x + one_36();
    proof {
        lemma_trunc_div_bound(numerator@, denominator@);
        lemma_abs_product(x@ - model::one_36(), model::one_36());
        lemma_quotient_bound(
            abs_int(numerator@) as int,
            denominator@,
            100_000_000_000_000_000_000_000_000_000_000_000 * model::one_36(),
            1_900_000_000_000_000_000_000_000_000_000_000_000,
        );
    }
    let z = numerator / denominator;
    odd_series(z, one_36(), 8) * I256::from(2u64)
}

pub struct LogExpMath;

impl LogExpMath {
    /// The exponential of `x`, for `x` between -41 and 130; `MathOverflow`
    /// outside. It is at least 1 from 0 on, and between 0 and 1 below.
    pub fn exp(x: I256) -> (r: Result<I256, ErrorCode>)
        ensures
            match r {
                Ok(v) => {
                    &&& model::exp_in_domain(x@)
                    &&& v@ == model::exp_value(x@)
                    &&& x@ >= 0 ==> v@ >= model::one_18()
                    &&& x@ < 0 ==> 0 <= v@ <= model::one_18()
                },
                Err(e) => !model::exp_in_domain(x@) && e == ErrorCode::MathOverflow,
            },
    {
        if !(x >= min_natural_exponent() && x <= max_natural_exponent()) {
            return Err(ErrorCode::MathOverflow);
        }
        if x < I256::zero() {
            // e^x is 1 / e^(-x), and -x is at most 41.
            let exp_neg_x = exp_positive(x.neg());
            let one_18_squared = one_18() * one_18();
            proof {
                lemma_trunc_div_nonnegative(one_18_squared@, exp_neg_x@);
                lemma_quotient_bound(
                    one_18_squared@,
                    exp_neg_x@,
                    one_18_squared@,
                    model::one_18(),
                );
            }
            Ok(one_18_squared / exp_neg_x)
        } else {
            Ok(exp_positive(x))
        }
    }
}

impl LogExpMath {
    /// The logarithm of `a` by breakpoints, for `a` above zero.
    fn ln_internal(a: I256) -> (r: I256)
        requires
            a@ > 0,
        ensures
            r@ == model::ln_internal_value(a@),
            abs_int(r@) <= 137_000_000_000_000_000_000,
            a@ >= model::one_18() ==> r@ >= 0,
            a@ < model::one_18() ==> r@ <= 0,
    {
        if a < one_18() {
            // ln(a) is -ln(1 / a), and 1 / a is above 1.
            let one_18_squared = one_18() * one_18();
            proof {
                lemma_trunc_div_nonnegative(one_18_squared@, a@);
                vstd::arithmetic::div_mod::lemma_div_is_ordered_by_denominator(
                    one_18_squared@,
                    a@,
                    model::one_18(),
                );
            }
            ln_positive(one_18_squared / a).neg()
        } else {
            ln_positive(a)
        }
    }

    /// The logarithm of `a`, for `a` above zero; `MathOverflow` for others.
    /// It is not negative from 1 on and not positive up to 1, and its
    /// magnitude is at most 137.
    pub fn ln(a: I256) -> (r: Result<I256, ErrorCode>)
        ensures
            match r {
                Ok(v) => {
                    &&& a@ > 0
                    &&& v@ == model::ln_value(a@)
                    &&& abs_int(v@) <= 137_000_000_000_000_000_000
                    &&& a@ >= model::one_18() ==> v@ >= 0
                    &&& a@ <= model::one_18() ==> v@ <= 0
                },
                Err(e) => a@ <= 0 && e == ErrorCode::MathOverflow,
            },
    {
        if !(a > I256::zero()) {
            return Err(ErrorCode::MathOverflow);
        }
        if ln_36_lower_bound() < a && a < ln_36_upper_bound() {
            let wide = ln_36(a);
            proof {
                lemma_trunc_div_bound(wide@, model::one_18());
                assert(abs_int(wide@) / abs_int(model::one_18()) <= model::one_18());
            }
            Ok(wide / one_18())
        } else {
            Ok(Self::ln_internal(a))
        }
    }

    /// The logarithm of `x` with 36 decimals, for `x` above zero.
    fn ln_wide(x: I256) -> (r: I256)
        requires
            x@ > 0,
        ensures
            r@ == model::ln_wide_value(x@),
            abs_int(r@) <= 137_000_000_000_000_000_000 * model::one_18(),
    {
        if ln_36_lower_bound() < x && x < ln_36_upper_bound() {
            ln_36(x)
        } else {
            let narrow = Self::ln_internal(x);
            proof {
                lemma_abs_product(narrow@, model::one_18());
                lemma_product_bound(
                    abs_int(narrow@) as int,
                    model::one_18(),
                    137_000_000_000_000_000_000,
                    model::one_18(),
                );
            }
            narrow * one_18()
        }
    }

    /// The logarithm of `arg` in base `base`: the quotient of their
    /// logarithms. `DivideByZero` for the base 0 and for a base whose
    /// logarithm is 0, `MathOverflow` for a base below zero or an argument
    /// that is not above zero.
    pub fn log(arg: I256, base: I256) -> (r: Result<I256, ErrorCode>)
        ensures
            match r {
                Ok(v) => model::log_result(arg@, base@) == Ok::<int, ErrorCode>(v@),
                Err(e) => model::log_result(arg@, base@) == Err::<int, ErrorCode>(e),
            },
    {
        let zero = I256::zero();
        if base == zero {
            return Err(ErrorCode::DivideByZero);
        }
        if base < zero || !(arg > zero) {
            return Err(ErrorCode::MathOverflow);
        }
        // Both logarithms with 36 decimals.
        let log_base = Self::ln_wide(base);
        let log_arg = Self::ln_wide(arg);
        if log_base == zero {
            return Err(ErrorCode::DivideByZero);
        }
        proof {
            lemma_abs_product(log_arg@, model::one_18());
            lemma_product_bound(
                abs_int(log_arg@) as int,
                model::one_18(),
                137_000_000_000_000_000_000 * model::one_18(),
                model::one_18(),
            );
        }
        Ok((log_arg * one_18()) / log_base)
    }

    /// `y` times the logarithm of `x`, with 18 decimals.
    fn pow_exponent(x: I256, y: I256) -> (r: I256)
        requires
            x@ > 0,
            0 <= y@ < model::mild_exponent_bound(),
        ensures
            r@ == model::pow_exponent(x@, y@),
    {
        let logx_times_y = if ln_36_lower_bound() < x && x < ln_36_upper_bound() {
            let ln_36_x = ln_36(x);
            // The logarithm has 36 decimals, and `y` with 36 decimals might
            // not fit: multiply the first 18 decimals and the last 18 apart.
            proof {
                lemma_trunc_div_bound(ln_36_x@, model::one_18());
                lemma_rem_bound(ln_36_x@, model::one_18());
                assert(abs_int(ln_36_x@) / abs_int(model::one_18()) <= model::one_18());
                assert(abs_int(ln_36_x@) % abs_int(model::one_18()) < model::one_18());
            }
            let ln_36_x_high = ln_36_x / one_18();
            let ln_36_x_low = ln_36_x % one_18();
            proof {
                lemma_abs_product(ln_36_x_high@, y@);
                lemma_abs_product(ln_36_x_low@, y@);
                lemma_product_bound(
                    abs_int(ln_36_x_high@) as int,
                    y@,
                    model::one_18(),
                    model::mild_exponent_bound(),
                );
                lemma_product_bound(
                    abs_int(ln_36_x_low@) as int,
                    y@,
                    model::one_18(),
                    model::mild_exponent_bound(),
                );
                lemma_trunc_div_bound(ln_36_x_low@ * y@, model::one_18());
            }
            (ln_36_x_high * y) + ((ln_36_x_low * y) / one_18())
        } else {
            let ln_x = Self::ln_internal(x);
            proof {
                lemma_abs_product(ln_x@, y@);
                lemma_product_bound(
                    abs_int(ln_x@) as int,
                    y@,
                    137_000_000_000_000_000_000,
                    model::mild_exponent_bound(),
                );
            }
            ln_x * y
        };
        logx_times_y / one_18()
    }

    /// `x` to the power `y`, both unsigned with 18 decimals: 1 for the
    /// exponent 0, 0 for the base 0 and another exponent, else the
    /// exponential of `y` times the logarithm of `x`. `MathOverflow` for a
    /// base from 2^255 on, an exponent from 2^254 / 10^20 on, or where `y`
    /// times the logarithm of `x` is not between -41 and 130.
    pub fn pow(x: U256, y: U256) -> (r: Result<U256, ErrorCode>)
        ensures
            match r {
                Ok(v) => model::pow_result(to_nat(x), to_nat(y)) == Ok::<nat, ErrorCode>(
                    to_nat(v),
                ),
                Err(e) => model::pow_result(to_nat(x), to_nat(y)) == Err::<nat, ErrorCode>(e),
            },
    {
        if y.is_zero() {
            // 0^0 is taken to be 1.
            return Ok(one_18().to_u256()?);
        }
        if x.is_zero() {
            return Ok(U256::zero());
        }
        // The logarithm takes a signed argument.
        let x_int256 = I256::try_from(x)?;
        // Below this bound `y` times a logarithm cannot overflow.
        let one_20_u256 = one_20().to_u256()?;
        proof {
            lemma_pow2_254();
        }
        let mild_exponent_bound = wide_div(from_u64(2).pow(from_u64(254)), one_20_u256);
        if !wide_lt(y, mild_exponent_bound) {
            return Err(ErrorCode::MathOverflow);
        }
        let y_int256 = I256::try_from(y)?;
        let logx_times_y = Self::pow_exponent(x_int256, y_int256);
        let exp_result = Self::exp(logx_times_y)?;
        Ok(exp_result.to_u256()?)
    }
}

} // verus!

//! Arithmetic on unsigned fixed-point numbers with 18 decimals.

use crate::error::ErrorCode;
use crate::math::logexpmath::LogExpMath;
use crate::math::math::{div_ceil, lemma_div_ceil};
use crate::math::model::pow_result;
use crate::math::u256::{result_to_nat, to_nat, two_256, wide_div, wide_eq, wide_lt};
use primitive_types::U256;
use vstd::prelude::*;

verus! {

/// 10^18, the fixed-point number 1.
pub open spec fn one_nat() -> nat {
    1_000_000_000_000_000_000
}

/// The fixed-point product rounded down.
pub open spec fn mul_down_nat(a: nat, b: nat) -> nat {
    (a * b) / one_nat()
}

/// The fixed-point product rounded up.
pub open spec fn mul_up_nat(a: nat, b: nat) -> nat {
    div_ceil(a * b, one_nat())
}

/// The fixed-point quotient rounded down, `b` not zero.
pub open spec fn div_down_nat(a: nat, b: nat) -> nat {
    (a * one_nat()) / b
}

/// The fixed-point quotient rounded up, `b` not zero.
pub open spec fn div_up_nat(a: nat, b: nat) -> nat {
    div_ceil(a * one_nat(), b)
}

/// What `mul_down` returns: `MathOverflow` where the raw product does not
/// fit 256 bits.
pub open spec fn mul_down_result(a: nat, b: nat) -> Result<nat, ErrorCode> {
    if a * b >= two_256() {
        Err(ErrorCode::MathOverflow)
    } else {
        Ok(mul_down_nat(a, b))
    }
}

/// What `mul_up` returns: `MathOverflow` where the raw product does not fit
/// 256 bits.
pub open spec fn mul_up_result(a: nat, b: nat) -> Result<nat, ErrorCode> {
    if a * b >= two_256() {
        Err(ErrorCode::MathOverflow)
    } else {
        Ok(mul_up_nat(a, b))
    }
}

/// What `div_down` returns: `DivideByZero` for a zero divisor,
/// `MathOverflow` where `a` times 10^18 does not fit 256 bits.
pub open spec fn div_down_result(a: nat, b: nat) -> Result<nat, ErrorCode> {
    if b == 0 {
        Err(ErrorCode::DivideByZero)
    } else if a * one_nat() >= two_256() {
        Err(ErrorCode::MathOverflow)
    } else {
        Ok(div_down_nat(a, b))
    }
}

/// What `div_up` returns: `DivideByZero` for a zero divisor, `MathOverflow`
/// where `a` times 10^18 does not fit 256 bits.
pub open spec fn div_up_result(a: nat, b: nat) -> Result<nat, ErrorCode> {
    if b == 0 {
        Err(ErrorCode::DivideByZero)
    } else if a * one_nat() >= two_256() {
        Err(ErrorCode::MathOverflow)
    } else {
        Ok(div_up_nat(a, b))
    }
}

/// The error that a power computed by logarithm and exponential may have:
/// 10^-14 of it, rounded up, and one unit more.
pub open spec fn pow_max_error(raw: nat) -> nat {
    mul_up_nat(raw, 10000) + 1
}

/// What `pow_down` returns. The exponents 1, 2 and 4 are computed by
/// multiplication rounded down. For another exponent the power by
/// logarithm and exponential is lowered by its largest error, and not below
/// zero; `MathOverflow` where that power times 10000 does not fit 256 bits.
pub open spec fn pow_down_result(x: nat, y: nat) -> Result<nat, ErrorCode> {
    if y == one_nat() {
        Ok(x)
    } else if y == 2 * one_nat() {
        mul_down_result(x, x)
    } else if y == 4 * one_nat() {
        match mul_down_result(x, x) {
            Ok(square) => mul_down_result(square, square),
            Err(e) => Err(e),
        }
    } else {
        match pow_result(x, y) {
            Ok(raw) => if raw * 10000 >= two_256() {
                Err(ErrorCode::MathOverflow)
            } else if raw < pow_max_error(raw) {
                Ok(0nat)
            } else {
                Ok((raw - pow_max_error(raw)) as nat)
            },
            Err(e) => Err(e),
        }
    }
}

/// What `pow_up` returns. The exponents 1, 2 and 4 are computed by
/// multiplication rounded up. For another exponent the power by logarithm
/// and exponential is raised by its largest error; `MathOverflow` where
/// that power times 10000 does not fit 256 bits.
pub open spec fn pow_up_result(x: nat, y: nat) -> Result<nat, ErrorCode> {
    if y == one_nat() {
        Ok(x)
    } else if y == 2 * one_nat() {
        mul_up_result(x, x)
    } else if y == 4 * one_nat() {
        match mul_up_result(x, x) {
            Ok(square) => mul_up_result(square, square),
            Err(e) => Err(e),
        }
    } else {
        match pow_result(x, y) {
            Ok(raw) => if raw * 10000 >= two_256() {
                Err(ErrorCode::MathOverflow)
            } else {
                Ok(raw + pow_max_error(raw))
            },
            Err(e) => Err(e),
        }
    }
}

pub struct FixedPoint;

impl FixedPoint {
    /// The number 1, which is 10^18.
    pub fn one() -> (r: U256)
        ensures
            to_nat(r) == one_nat(),
    {
        U256([1000000000000000000, 0, 0, 0])
    }

    /// The number 2.
    pub fn two() -> (r: U256)
        ensures
            to_nat(r) == 2 * one_nat(),
    {
        U256([2000000000000000000, 0, 0, 0])
    }

    /// The number 4.
    pub fn four() -> (r: U256)
        ensures
            to_nat(r) == 4 * one_nat(),
    {
        U256([4000000000000000000, 0, 0, 0])
    }

    /// The largest relative error of a power, 10^-14.
    pub fn max_pow_relative_error() -> (r: U256)
        ensures
            to_nat(r) == 10000,
    {
        U256([10000, 0, 0, 0])
    }

    /// The smallest base of a power whose exponent is above 1: 0.7.
    pub fn min_pow_base_free_exponent() -> (r: U256)
        ensures
            to_nat(r) == 700_000_000_000_000_000,
    {
        U256([700000000000000000, 0, 0, 0])
    }

    /// The sum, or `MathOverflow` where it does not fit 256 bits.
    pub fn add(a: U256, b: U256) -> (r: Result<U256, ErrorCode>)
        ensures
            match r {
                Ok(c) => to_nat(c) == to_nat(a) + to_nat(b),
                Err(e) => to_nat(a) + to_nat(b) >= two_256() && e == ErrorCode::MathOverflow,
            },
    {
        match a.checked_add(b) {
            Some(c) => Ok(c),
            None => Err(ErrorCode::MathOverflow),
        }
    }

    /// The difference, or `MathUnderflow` where `b` is above `a`.
    pub fn sub(a: U256, b: U256) -> (r: Result<U256, ErrorCode>)
        ensures
            match r {
                Ok(c) => to_nat(c) == to_nat(a) - to_nat(b),
                Err(e) => to_nat(a) < to_nat(b) && e == ErrorCode::MathUnderflow,
            },
    {
        match a.checked_sub(b) {
            Some(c) => Ok(c),
            None => Err(ErrorCode::MathUnderflow),
        }
    }

    /// The raw product, or `MathOverflow` where it does not fit 256 bits.
    /// The product is divided by `a` again and compared with `b`.
    fn raw_product(a: U256, b: U256) -> (r: Result<U256, ErrorCode>)
        ensures
            match r {
                Ok(c) => to_nat(c) == to_nat(a) * to_nat(b),
                Err(e) => to_nat(a) * to_nat(b) >= two_256() && e == ErrorCode::MathOverflow,
            },
    {
        let product = match a.checked_mul(b) {
            Some(p) => p,
            None => {
                return Err(ErrorCode::MathOverflow);
            },
        };
        if !a.is_zero() {
            proof {
                assert(to_nat(a) * to_nat(b) == to_nat(b) * to_nat(a)) by (nonlinear_arith);
                vstd::arithmetic::div_mod::lemma_div_multiples_vanish(
                    to_nat(b) as int,
                    to_nat(a) as int,
                );
            }
            let matches_b = match product.checked_div(a) {
                Some(d) => wide_eq(d, b),
                None => false,
            };
            if !matches_b {
                return Err(ErrorCode::MathOverflow);
            }
        }
        Ok(product)
    }

    /// The product rounded down, or `MathOverflow` where the raw product
    /// does not fit 256 bits.
    pub fn mul_down(a: U256, b: U256) -> (r: Result<U256, ErrorCode>)
        ensures
            result_to_nat(r) == mul_down_result(to_nat(a), to_nat(b)),
    {
        let product = Self::raw_product(a, b)?;
        Ok(wide_div(product, Self::one()))
    }

    /// The product rounded up, or `MathOverflow` where the raw product does
    /// not fit 256 bits.
    pub fn mul_up(a: U256, b: U256) -> (r: Result<U256, ErrorCode>)
        ensures
            result_to_nat(r) == mul_up_result(to_nat(a), to_nat(b)),
    {
        let product = Self::raw_product(a, b)?;
        Self::round_up_quotient(product, Self::one())
    }

    /// The quotient rounded down; `DivideByZero` for a zero divisor,
    /// `MathOverflow` where `a` times 10^18 does not fit 256 bits.
    pub fn div_down(a: U256, b: U256) -> (r: Result<U256, ErrorCode>)
        ensures
            result_to_nat(r) == div_down_result(to_nat(a), to_nat(b)),
    {
        if b.is_zero() {
            return Err(ErrorCode::DivideByZero);
        }
        let a_inflated = Self::raw_product(a, Self::one())?;
        Ok(wide_div(a_inflated, b))
    }

    /// The quotient rounded up; `DivideByZero` for a zero divisor,
    /// `MathOverflow` where `a` times 10^18 does not fit 256 bits.
    pub fn div_up(a: U256, b: U256) -> (r: Result<U256, ErrorCode>)
        ensures
            result_to_nat(r) == div_up_result(to_nat(a), to_nat(b)),
    {
        if b.is_zero() {
            return Err(ErrorCode::DivideByZero);
        }
        let a_inflated = Self::raw_product(a, Self::one())?;
        Self::round_up_quotient(a_inflated, b)
    }

    /// `x / y` rounded up, computed as `(x - 1) / y + 1` so that no sum can
    /// overflow.
    fn round_up_quotient(x: U256, y: U256) -> (r: Result<U256, ErrorCode>)
        requires
            to_nat(y) != 0,
        ensures
            r is Ok,
            to_nat(r->Ok_0) == div_ceil(to_nat(x), to_nat(y)),
    {
        if x.is_zero() {
            Ok(U256::zero())
        } else {
            proof {
                lemma_div_ceil(to_nat(x), to_nat(y));
            }
            let x_minus_one = match x.checked_sub(U256::one()) {
                Some(v) => v,
                None => {
                    return Err(ErrorCode::MathOverflow);
                },
            };
            let div_result = wide_div(x_minus_one, y);
            match div_result.checked_add(U256::one()) {
                Some(v) => Ok(v),
                None => Err(ErrorCode::MathOverflow),
            }
        }
    }

    /// The largest error of the power `raw`, or `MathOverflow` where `raw`
    /// times 10000 does not fit 256 bits.
    fn max_error(raw: U256) -> (r: Result<U256, ErrorCode>)
        ensures
            match r {
                Ok(v) => to_nat(raw) * 10000 < two_256() && to_nat(v) == pow_max_error(
                    to_nat(raw),
                ),
                Err(e) => to_nat(raw) * 10000 >= two_256() && e == ErrorCode::MathOverflow,
            },
    {
        let relative = Self::mul_up(raw, Self::max_pow_relative_error())?;
        proof {
            if to_nat(raw) > 0 {
                lemma_div_ceil(to_nat(raw) * 10000, one_nat());
            }
        }
        Self::add(relative, U256::one())
    }

    /// `x` to the power `y`, not above the true value.
    pub fn pow_down(x: U256, y: U256) -> (r: Result<U256, ErrorCode>)
        ensures
            result_to_nat(r) == pow_down_result(to_nat(x), to_nat(y)),
    {
        // The exponents 1, 2 and 4 are frequent and need no logarithm.
        if wide_eq(y, Self::one()) {
            Ok(x)
        } else if wide_eq(y, Self::two()) {
            Self::mul_down(x, x)
        } else if wide_eq(y, Self::four()) {
            let square = Self::mul_down(x, x)?;
            Self::mul_down(square, square)
        } else {
            let raw = LogExpMath::pow(x, y)?;
            let max_error = Self::max_error(raw)?;
            if wide_lt(raw, max_error) {
                Ok(U256::zero())
            } else {
                Self::sub(raw, max_error)
            }
        }
    }

    /// `x` to the power `y`, not below the true value.
    pub fn pow_up(x: U256, y: U256) -> (r: Result<U256, ErrorCode>)
        ensures
            result_to_nat(r) == pow_up_result(to_nat(x), to_nat(y)),
    {
        // The exponents 1, 2 and 4 are frequent and need no logarithm.
        if wide_eq(y, Self::one()) {
            Ok(x)
        } else if wide_eq(y, Self::two()) {
            Self::mul_up(x, x)
        } else if wide_eq(y, Self::four()) {
            let square = Self::mul_up(x, x)?;
            Self::mul_up(square, square)
        } else {
            let raw = LogExpMath::pow(x, y)?;
            let max_error = Self::max_error(raw)?;
            Self::add(raw, max_error)
        }
    }

    /// `1 - x` where `x` is below 1, else 0.
    pub fn complement(x: U256) -> (r: Result<U256, ErrorCode>)
        ensures
            r is Ok,
            to_nat(r->Ok_0) == (if to_nat(x) < one_nat() {
                one_nat() - to_nat(x)
            } else {
                0
            }),
    {
        if wide_lt(x, Self::one()) {
            Self::sub(Self::one(), x)
        } else {
            Ok(U256::zero())
        }
    }
}

/// Rounding down gives no more than the true product and rounding up no
/// less, and the two differ by one unit at most.
pub proof fn lemma_mul_rounding(x: nat, y: nat)
    ensures
        mul_down_nat(x, y) * one_nat() <= x * y <= mul_up_nat(x, y) * one_nat(),
        mul_down_nat(x, y) <= mul_up_nat(x, y) <= mul_down_nat(x, y) + 1,
{
    let p = x * y;
    vstd::arithmetic::div_mod::lemma_fundamental_div_mod(p as int, one_nat() as int);
    if p > 0 {
        lemma_div_ceil(p, one_nat());
    }
}

/// A quotient rounded up, multiplied by the divisor and divided by it again,
/// comes back to where it started. `x` divided by `y` and rounded up is `q`.
/// `q` times `y`, rounded down, is no less than `x` and above it by less
/// than `y`: it is `x` where `y` is at most 1, and within one unit of `x`
/// where `y` is at most 2. That product divided by `y`, rounded down, lies
/// between the two roundings of `x` by `y`, so within one unit of `q`.
pub proof fn lemma_div_mul_round_trip(x: nat, y: nat)
    requires
        y != 0,
    ensures
        x <= mul_down_nat(div_up_nat(x, y), y) <= x + (y - 1) / (one_nat() as int),
        y <= one_nat() ==> mul_down_nat(div_up_nat(x, y), y) == x,
        y <= 2 * one_nat() ==> mul_down_nat(div_up_nat(x, y), y) <= x + 1,
        div_down_nat(x, y) <= div_down_nat(mul_down_nat(div_up_nat(x, y), y), y) <= div_up_nat(
            x,
            y,
        ),
        div_up_nat(x, y) - 1 <= div_down_nat(mul_down_nat(div_up_nat(x, y), y), y),
{
    let one = one_nat() as int;
    let a = x * one_nat();
    let q = div_up_nat(x, y);
    let p = mul_down_nat(q, y);
    let r = div_down_nat(p, y);
    assert(x * one_nat() == a);
    if a > 0 {
        lemma_div_ceil(a, y);
    } else {
        vstd::arithmetic::div_mod::lemma_fundamental_div_mod_converse(0, y as int, 0, 0);
    }
    // q * y >= x * one, so p >= x.
    assert(q * y >= a);
    vstd::arithmetic::div_mod::lemma_div_is_ordered(a as int, (q * y) as int, one);
    vstd::arithmetic::div_mod::lemma_div_multiples_vanish(x as int, one);
    assert(p >= x);
    // p * one <= q * y, so r <= q.
    vstd::arithmetic::div_mod::lemma_fundamental_div_mod((q * y) as int, one);
    assert(p * one_nat() <= q * y);
    vstd::arithmetic::div_mod::lemma_div_is_ordered(
        (p * one_nat()) as int,
        (q * y) as int,
        y as int,
    );
    vstd::arithmetic::div_mod::lemma_div_multiples_vanish(q as int, y as int);
    assert(r <= q);
    // p >= x, so r >= x * one / y.
    assert(p * one_nat() >= a) by (nonlinear_arith)
        requires
            p >= x,
            a == x * one_nat(),
    ;
    vstd::arithmetic::div_mod::lemma_div_is_ordered(a as int, (p * one_nat()) as int, y as int);
    assert(r >= div_down_nat(x, y));
    // (q - 1) * y < x * one, so q * y <= x * one + y - 1.
    assert(q * y <= (y - 1) + x * one) by (nonlinear_arith)
        requires
            a == 0 ==> q == 0,
            a > 0 ==> (q - 1) * y < a,
            a == x * one_nat(),
            0 < y,
            one == one_nat(),
    ;
    vstd::arithmetic::div_mod::lemma_div_is_ordered((q * y) as int, (y - 1) + x * one, one);
    vstd::arithmetic::div_mod::lemma_hoist_over_denominator(y - 1, x as int, one as nat);
    assert(p <= x + (y - 1) / one);
}

/// The power with exponent 1 is the base, whatever the rounding; with
/// exponent 2 it is the base times itself, and with exponent 4 that square
/// times itself, each product rounded as the power is.
pub proof fn lemma_pow_small_exponents(x: nat)
    ensures
        pow_down_result(x, one_nat()) == Ok::<nat, ErrorCode>(x),
        pow_up_result(x, one_nat()) == Ok::<nat, ErrorCode>(x),
        pow_down_result(x, 2 * one_nat()) == mul_down_result(x, x),
        pow_up_result(x, 2 * one_nat()) == mul_up_result(x, x),
        pow_down_result(x, 4 * one_nat()) == (match mul_down_result(x, x) {
            Ok(square) => mul_down_result(square, square),
            Err(e) => Err(e),
        }),
        pow_up_result(x, 4 * one_nat()) == (match mul_up_result(x, x) {
            Ok(square) => mul_up_result(square, square),
            Err(e) => Err(e),
        }),
{
}

} // verus!

//! Checked arithmetic on unsigned 256-bit and signed 128-bit integers.

use crate::error::ErrorCode;
use crate::math::u256::{from_u128, to_nat, two_256, wide_div, wide_lt};
use primitive_types::U256;
use vstd::prelude::*;

verus! {

/// The quotient of `a` by `b` rounded up, `b` not zero.
pub open spec fn div_ceil(a: nat, b: nat) -> nat {
    if a % b == 0 {
        a / b
    } else {
        a / b + 1
    }
}

/// For `a` above zero, rounding up is one more than the quotient of `a - 1`.
pub proof fn lemma_div_ceil(a: nat, b: nat)
    requires
        a > 0,
        b > 0,
    ensures
        div_ceil(a, b) == (a - 1) / (b as int) + 1,
        div_ceil(a, b) * b >= a,
        (div_ceil(a, b) - 1) * b < a,
        div_ceil(a, b) <= a,
{
    let q = a as int / b as int;
    let m = a as int % b as int;
    vstd::arithmetic::div_mod::lemma_fundamental_div_mod(a as int, b as int);
    assert(a == b * q + m);
    assert(0 <= m < b);
    assert(q >= 0) by (nonlinear_arith)
        requires
            a == b * q + m,
            0 <= m < b,
            a > 0,
            b > 0,
    ;
    if m == 0 {
        assert(a - 1 == (q - 1) * b + (b - 1)) by (nonlinear_arith)
            requires
                a == b * q + m,
                m == 0,
        ;
        vstd::arithmetic::div_mod::lemma_fundamental_div_mod_converse(
            a as int - 1,
            b as int,
            q - 1,
            b as int - 1,
        );
        assert(q * b == a) by (nonlinear_arith)
            requires
                a == b * q + m,
                m == 0,
        ;
        assert((q - 1) * b < a) by (nonlinear_arith)
            requires
                q * b == a,
                b > 0,
        ;
        assert(q <= a) by (nonlinear_arith)
            requires
                q * b == a,
                b > 0,
                q >= 0,
        ;
    } else {
        assert(a - 1 == q * b + (m - 1)) by (nonlinear_arith)
            requires
                a == b * q + m,
        ;
        vstd::arithmetic::div_mod::lemma_fundamental_div_mod_converse(
            a as int - 1,
            b as int,
            q,
            m - 1,
        );
        assert((q + 1) * b >= a && q * b < a) by (nonlinear_arith)
            requires
                a == b * q + m,
                0 < m < b,
        ;
        assert(q + 1 <= a) by (nonlinear_arith)
            requires
                a == b * q + m,
                0 < m < b,
                q >= 0,
        ;
    }
}

pub struct Math;

impl Math {
    /// The distance of `a` from zero.
    pub fn abs(a: i128) -> (r: Result<U256, ErrorCode>)
        ensures
            r is Ok,
            to_nat(r->Ok_0) == (if a >= 0 {
                a as int
            } else {
                -(a as int)
            }),
    {
        if a >= 0 {
            Ok(from_u128(a as u128))
        } else if a == i128::MIN {
            Ok(from_u128(0x8000_0000_0000_0000_0000_0000_0000_0000u128))
        } else {
            let neg_a = -a;
            Ok(from_u128(neg_a as u128))
        }
    }

    /// The sum, or `MathOverflow` where it does not fit 256 bits.
    pub fn add(a: U256, b: U256) -> (r: Result<U256, ErrorCode>)
        ensures
            match r {
                Ok(c) => to_nat(c) == to_nat(a) + to_nat(b),
                Err(e) => to_nat(a) + to_nat(b) >= two_256() && e == ErrorCode::MathOverflow,
            },
    {
        match a.checked_add(b) {
            Some(c) => Ok(c),
            None => Err(ErrorCode::MathOverflow),
        }
    }

    /// The sum, or `MathOverflow` where it does not fit 128 bits.
    pub fn add_signed(a: i128, b: i128) -> (r: Result<i128, ErrorCode>)
        ensures
            match r {
                Ok(c) => c == a + b,
                Err(e) => !(i128::MIN <= a + b <= i128::MAX) && e == ErrorCode::MathOverflow,
            },
    {
        match a.checked_add(b) {
            Some(c) => Ok(c),
            None => Err(ErrorCode::MathOverflow),
        }
    }

    /// The difference, or `MathUnderflow` where `b` is above `a`.
    pub fn sub(a: U256, b: U256) -> (r: Result<U256, ErrorCode>)
        ensures
            match r {
                Ok(c) => to_nat(c) == to_nat(a) - to_nat(b),
                Err(e) => to_nat(a) < to_nat(b) && e == ErrorCode::MathUnderflow,
            },
    {
        match a.checked_sub(b) {
            Some(c) => Ok(c),
            None => Err(ErrorCode::MathUnderflow),
        }
    }

    /// The difference, or `MathOverflow` where it does not fit 128 bits.
    pub fn sub_signed(a: i128, b: i128) -> (r: Result<i128, ErrorCode>)
        ensures
            match r {
                Ok(c) => c == a - b,
                Err(e) => !(i128::MIN <= a - b <= i128::MAX) && e == ErrorCode::MathOverflow,
            },
    {
        match a.checked_sub(b) {
            Some(c) => Ok(c),
            None => Err(ErrorCode::MathOverflow),
        }
    }

    /// The larger of the two.
    pub fn max(a: U256, b: U256) -> (r: Result<U256, ErrorCode>)
        ensures
            r == Ok::<U256, ErrorCode>(
                if to_nat(a) < to_nat(b) {
                    b
                } else {
                    a
                },
            ),
    {
        Ok(
            if wide_lt(a, b) {
                b
            } else {
                a
            },
        )
    }

    /// The smaller of the two.
    pub fn min(a: U256, b: U256) -> (r: Result<U256, ErrorCode>)
        ensures
            r == Ok::<U256, ErrorCode>(
                if to_nat(a) < to_nat(b) {
                    a
                } else {
                    b
                },
            ),
    {
        Ok(
            if wide_lt(a, b) {
                a
            } else {
                b
            },
        )
    }

    /// The product, or `MathOverflow` where it does not fit 256 bits.
    pub fn mul(a: U256, b: U256) -> (r: Result<U256, ErrorCode>)
        ensures
            match r {
                Ok(c) => to_nat(c) == to_nat(a) * to_nat(b),
                Err(e) => to_nat(a) * to_nat(b) >= two_256() && e == ErrorCode::MathOverflow,
            },
    {
        match a.checked_mul(b) {
            Some(c) => Ok(c),
            None => Err(ErrorCode::MathOverflow),
        }
    }

    /// The quotient, rounded up or down as asked; `DivideByZero` for a zero
    /// divisor.
    pub fn div(a: U256, b: U256, round_up: bool) -> (r: Result<U256, ErrorCode>)
        ensures
            match r {
                Ok(c) => to_nat(b) != 0 && to_nat(c) == (if round_up {
                    div_ceil(to_nat(a), to_nat(b))
                } else {
                    to_nat(a) / to_nat(b)
                }),
                Err(e) => to_nat(b) == 0 && e == ErrorCode::DivideByZero,
            },
    {
        if round_up {
            Self::div_up(a, b)
        } else {
            Self::div_down(a, b)
        }
    }

    /// The quotient rounded down; `DivideByZero` for a zero divisor.
    pub fn div_down(a: U256, b: U256) -> (r: Result<U256, ErrorCode>)
        ensures
            match r {
                Ok(c) => to_nat(b) != 0 && to_nat(c) == to_nat(a) / to_nat(b),
                Err(e) => to_nat(b) == 0 && e == ErrorCode::DivideByZero,
            },
    {
        if b.is_zero() {
            return Err(ErrorCode::DivideByZero);
        }
        Ok(wide_div(a, b))
    }

    /// The quotient rounded up; `DivideByZero` for a zero divisor.
    pub fn div_up(a: U256, b: U256) -> (r: Result<U256, ErrorCode>)
        ensures
            match r {
                Ok(c) => to_nat(b) != 0 && to_nat(c) == div_ceil(to_nat(a), to_nat(b)),
                Err(e) => to_nat(b) == 0 && e == ErrorCode::DivideByZero,
            },
    {
        if b.is_zero() {
            return Err(ErrorCode::DivideByZero);
        }
        if a.is_zero() {
            Ok(U256::zero())
        } else {
            proof {
                lemma_div_ceil(to_nat(a), to_nat(b));
            }
            let a_minus_one = match a.checked_sub(U256::one()) {
                Some(v) => v,
                None => {
                    return Err(ErrorCode::MathOverflow);
                },
            };
            let div_result = wide_div(a_minus_one, b);
            match div_result.checked_add(U256::one()) {
                Some(v) => Ok(v),
                None => Err(ErrorCode::MathOverflow),
            }
        }
    }
}

} // verus!

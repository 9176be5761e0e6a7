//! A signed 256-bit integer, held in two's complement in a `U256`.

use crate::error::ErrorCode;
use crate::math::u256::{
    from_u128, from_u64, lemma_to_nat_bound, lemma_to_nat_injective, to_nat, try_to_u128,
    two_255, two_256, wide_add, wide_div, wide_eq, wide_le, wide_lt, wide_not, wide_rem,
    wide_sub, words_to_nat,
};
use core::cmp::Ordering;
use primitive_types::U256;
use vstd::pervasive::unreached;
use vstd::prelude::*;
use vstd::std_specs::cmp::{PartialEqSpecImpl, PartialOrdSpecImpl};
use vstd::std_specs::convert::{FromSpecImpl, TryFromSpecImpl};
use vstd::std_specs::ops::{
    AddSpecImpl, DivSpecImpl, MulSpecImpl, NegSpecImpl, RemSpecImpl, SubSpecImpl,
};

verus! {

/// A signed integer between -2^255 and 2^255 - 1.
#[derive(Debug, Clone, Copy)]
pub struct I256 {
    /// The two's complement representation.
    pub value: U256,
}

/// The smallest value of an `I256`, -2^255.
pub open spec fn i256_min() -> int {
    -(two_255() as int)
}

/// The largest value of an `I256`, 2^255 - 1.
pub open spec fn i256_max() -> int {
    two_255() - 1
}

/// Whether `x` is the value of some `I256`.
pub open spec fn fits_i256(x: int) -> bool {
    i256_min() <= x <= i256_max()
}

/// The signed number that the 256-bit pattern `raw` stands for.
pub open spec fn signed_of(raw: nat) -> int {
    if raw >= two_255() {
        raw - two_256()
    } else {
        raw as int
    }
}

/// The distance of `x` from zero.
pub open spec fn abs_int(x: int) -> nat {
    if x < 0 {
        (-x) as nat
    } else {
        x as nat
    }
}

/// The quotient of `a` by `b` rounded toward zero, `b` not zero.
pub open spec fn trunc_div(a: int, b: int) -> int {
    if (a < 0) != (b < 0) {
        -((abs_int(a) / abs_int(b)) as int)
    } else {
        (abs_int(a) / abs_int(b)) as int
    }
}

/// The remainder that goes with `trunc_div`: it has the sign of `a`.
pub open spec fn trunc_rem(a: int, b: int) -> int {
    if a < 0 {
        -((abs_int(a) % abs_int(b)) as int)
    } else {
        (abs_int(a) % abs_int(b)) as int
    }
}

impl View for I256 {
    type V = int;

    /// The signed number that this value stands for.
    closed spec fn view(&self) -> int {
        signed_of(to_nat(self.value))
    }
}

impl I256 {
    /// The view is the two's complement reading of the raw value, and lies
    /// in the range of the type.
    pub proof fn lemma_view(self)
        ensures
            self@ == signed_of(to_nat(self.value)),
            fits_i256(self@),
    {
        lemma_to_nat_bound(self.value);
    }

    /// Two values with the same view are the same value.
    pub proof fn lemma_view_injective(self, other: I256)
        requires
            self@ == other@,
        ensures
            self == other,
    {
        lemma_to_nat_bound(self.value);
        lemma_to_nat_bound(other.value);
        lemma_to_nat_injective(self.value, other.value);
    }

    /// The value that stands for `i`, for `i` in the range of the type.
    pub closed spec fn of_int(i: int) -> I256 {
        choose|x: I256| x@ == i
    }

    /// `of_int` gives back the value from its view.
    pub proof fn lemma_of_int(self)
        ensures
            I256::of_int(self@) == self,
    {
        let found = choose|x: I256| x@ == self@;
        found.lemma_view_injective(self);
    }

    /// The number 0.
    pub fn zero() -> (r: I256)
        ensures
            r@ == 0,
    {
        I256 { value: U256([0, 0, 0, 0]) }
    }

    /// The smallest value, -2^255.
    pub fn min_value() -> (r: I256)
        ensures
            r@ == i256_min(),
    {
        I256 { value: U256([0, 0, 0, 0x8000000000000000]) }
    }

    /// The largest value, 2^255 - 1.
    pub fn max_value() -> (r: I256)
        ensures
            r@ == i256_max(),
    {
        I256 {
            value: U256(
                [0xFFFFFFFFFFFFFFFF, 0xFFFFFFFFFFFFFFFF, 0xFFFFFFFFFFFFFFFF, 0x7FFFFFFFFFFFFFFF],
            ),
        }
    }

    /// The value whose two's complement representation is made of the four
    /// given words, the lowest first.
    pub fn from_words(words: [u64; 4]) -> (r: I256)
        ensures
            r.value.0 == words,
            r@ == signed_of(words_to_nat(words@)),
    {
        I256 { value: U256(words) }
    }

    /// The value whose two's complement representation is `value`.
    pub fn from_raw(value: U256) -> (r: I256)
        ensures
            r.value == value,
            r@ == signed_of(to_nat(value)),
    {
        I256 { value }
    }

    /// The two's complement representation.
    pub fn as_raw(&self) -> (r: U256)
        ensures
            r == self.value,
            signed_of(to_nat(r)) == self@,
    {
        self.value
    }

    /// The value as a `u64`, for a value that is one.
    pub fn as_u64(&self) -> (r: u64)
        requires
            0 <= self@ <= u64::MAX,
        ensures
            r == self@,
    {
        self.value.as_u64()
    }

    /// Whether the value is below zero.
    pub fn is_negative(&self) -> (r: bool)
        ensures
            r == (self@ < 0),
    {
        let sign_bit = U256([0, 0, 0, 0x8000000000000000]);
        proof {
            lemma_to_nat_bound(self.value);
        }
        wide_le(sign_bit, self.value)
    }

    /// The distance from zero, which always fits a `U256`.
    pub fn abs(&self) -> (r: Result<U256, ErrorCode>)
        ensures
            r is Ok,
            to_nat(r->Ok_0) == abs_int(self@),
    {
        if self.is_negative() {
            let inverted = wide_not(self.value);
            Ok(wide_add(inverted, U256::one()))
        } else {
            Ok(self.value)
        }
    }

    /// The value with the given sign and magnitude.
    pub fn from_sign_magnitude(negative: bool, magnitude: U256) -> (r: I256)
        requires
            to_nat(magnitude) <= two_255(),
            !negative ==> to_nat(magnitude) < two_255(),
        ensures
            r@ == (if negative {
                -(to_nat(magnitude) as int)
            } else {
                to_nat(magnitude) as int
            }),
    {
        if negative && !magnitude.is_zero() {
            let max = U256(
                [0xFFFFFFFFFFFFFFFF, 0xFFFFFFFFFFFFFFFF, 0xFFFFFFFFFFFFFFFF, 0xFFFFFFFFFFFFFFFF],
            );
            let complement = wide_add(wide_sub(max, magnitude), U256::one());
            I256 { value: complement }
        } else {
            I256 { value: magnitude }
        }
    }

    /// The product, or `MathOverflow` where it does not fit.
    pub fn checked_mul(&self, other: &I256) -> (r: Result<I256, ErrorCode>)
        ensures
            match r {
                Ok(v) => fits_i256(self@ * other@) && v@ == self@ * other@,
                Err(e) => !fits_i256(self@ * other@) && e == ErrorCode::MathOverflow,
            },
    {
        let self_abs = self.abs()?;
        let other_abs = other.abs()?;
        let result_neg = self.is_negative() != other.is_negative();
        proof {
            lemma_abs_product(self@, other@);
        }
        match self_abs.checked_mul(other_abs) {
            None => Err(ErrorCode::MathOverflow),
            Some(abs_product) => {
                let max_abs = U256([0, 0, 0, 0x8000000000000000]);
                if wide_lt(abs_product, max_abs) || (result_neg && wide_eq(abs_product, max_abs)) {
                    Ok(I256::from_sign_magnitude(result_neg, abs_product))
                } else {
                    Err(ErrorCode::MathOverflow)
                }
            },
        }
    }

    /// The quotient rounded toward zero; `DivideByZero` for a zero divisor,
    /// `MathOverflow` for -2^255 divided by -1.
    pub fn checked_div(&self, other: &I256) -> (r: Result<I256, ErrorCode>)
        ensures
            match r {
                Ok(v) => other@ != 0 && fits_i256(trunc_div(self@, other@)) && v@ == trunc_div(
                    self@,
                    other@,
                ),
                Err(e) => if other@ == 0 {
                    e == ErrorCode::DivideByZero
                } else {
                    self@ == i256_min() && other@ == -1 && e == ErrorCode::MathOverflow
                },
            },
    {
        if other.value.is_zero() {
            proof {
                other.lemma_view();
            }
            return Err(ErrorCode::DivideByZero);
        }
        let self_abs = self.abs()?;
        let other_abs = other.abs()?;
        let result_neg = self.is_negative() != other.is_negative();
        proof {
            other.lemma_view();
            self.lemma_view();
            lemma_trunc_div_bound(self@, other@);
        }
        let quotient = wide_div(self_abs, other_abs);
        let max_abs = U256([0, 0, 0, 0x8000000000000000]);
        if !result_neg && wide_eq(quotient, max_abs) {
            Err(ErrorCode::MathOverflow)
        } else {
            Ok(I256::from_sign_magnitude(result_neg, quotient))
        }
    }

    /// The negation, or `MathOverflow` for -2^255.
    pub fn checked_neg(&self) -> (r: Result<I256, ErrorCode>)
        ensures
            match r {
                Ok(v) => self@ != i256_min() && v@ == -self@,
                Err(e) => self@ == i256_min() && e == ErrorCode::MathOverflow,
            },
    {
        let min = U256([0, 0, 0, 0x8000000000000000]);
        proof {
            self.lemma_view();
        }
        if wide_eq(self.value, min) {
            return Err(ErrorCode::MathOverflow);
        }
        let magnitude = self.abs()?;
        Ok(I256::from_sign_magnitude(!self.is_negative(), magnitude))
    }

    /// The value as a `U256`, or `MathOverflow` where it is negative.
    pub fn to_u256(&self) -> (r: Result<U256, ErrorCode>)
        ensures
            match r {
                Ok(v) => self@ >= 0 && to_nat(v) == self@ && v == self.value,
                Err(e) => self@ < 0 && e == ErrorCode::MathOverflow,
            },
    {
        if self.is_negative() {
            Err(ErrorCode::MathOverflow)
        } else {
            Ok(self.value)
        }
    }

    /// The value of an `i128`.
    pub fn from_i128_const(value: i128) -> (r: I256)
        ensures
            r@ == value,
    {
        if value >= 0 {
            I256::from_sign_magnitude(false, from_u128(value as u128))
        } else {
            let magnitude: u128 = if value == i128::MIN {
                0x8000_0000_0000_0000_0000_0000_0000_0000u128
            } else {
                (-value) as u128
            };
            I256::from_sign_magnitude(true, from_u128(magnitude))
        }
    }
}

impl Default for I256 {
    fn default() -> (r: I256)
        ensures
            r@ == 0,
    {
        I256::zero()
    }
}

impl PartialEqSpecImpl for I256 {
    open spec fn obeys_eq_spec() -> bool {
        true
    }

    open spec fn eq_spec(&self, other: &I256) -> bool {
        self@ == other@
    }
}

impl PartialEq for I256 {
    fn eq(&self, other: &I256) -> (r: bool) {
        proof {
            self.lemma_view();
            other.lemma_view();
        }
        wide_eq(self.value, other.value)
    }
}

impl Eq for I256 {}

impl PartialOrdSpecImpl for I256 {
    open spec fn obeys_partial_cmp_spec() -> bool {
        true
    }

    open spec fn partial_cmp_spec(&self, other: &I256) -> Option<Ordering> {
        if self@ < other@ {
            Some(Ordering::Less)
        } else if self@ == other@ {
            Some(Ordering::Equal)
        } else {
            Some(Ordering::Greater)
        }
    }
}

impl PartialOrd for I256 {
    /// Orders by sign first, then by the raw value within one sign.
    fn partial_cmp(&self, other: &I256) -> (r: Option<Ordering>) {
        let self_neg = self.is_negative();
        let other_neg = other.is_negative();
        proof {
            self.lemma_view();
            other.lemma_view();
        }
        if self_neg != other_neg {
            if self_neg {
                Some(Ordering::Less)
            } else {
                Some(Ordering::Greater)
            }
        } else if wide_lt(self.value, other.value) {
            Some(Ordering::Less)
        } else if wide_eq(self.value, other.value) {
            Some(Ordering::Equal)
        } else {
            Some(Ordering::Greater)
        }
    }
}

impl NegSpecImpl for I256 {
    open spec fn obeys_neg_spec() -> bool {
        true
    }

    open spec fn neg_req(self) -> bool {
        self@ != i256_min()
    }

    open spec fn neg_spec(self) -> I256 {
        I256::of_int(-self@)
    }
}

impl core::ops::Neg for I256 {
    type Output = I256;

    /// The negation of a value that is not -2^255.
    fn neg(self) -> (r: I256)
        ensures
            r@ == -self@,
    {
        match self.checked_neg() {
            Ok(v) => {
                proof {
                    v.lemma_of_int();
                }
                v
            },
            Err(_) => unreached(),
        }
    }
}

impl AddSpecImpl for I256 {
    open spec fn obeys_add_spec() -> bool {
        true
    }

    open spec fn add_req(self, rhs: I256) -> bool {
        fits_i256(self@ + rhs@)
    }

    open spec fn add_spec(self, rhs: I256) -> I256 {
        I256::of_int(self@ + rhs@)
    }
}

impl core::ops::Add for I256 {
    type Output = I256;

    /// The sum of two values whose sum fits.
    fn add(self, other: I256) -> (r: I256)
        ensures
            r@ == self@ + other@,
    {
        let self_neg = self.is_negative();
        let other_neg = other.is_negative();
        proof {
            self.lemma_view();
            other.lemma_view();
        }
        let result = match self.value.checked_add(other.value) {
            Some(raw) => I256 { value: raw },
            None => {
                // The raw sum passes 2^256: work on the magnitudes instead.
                let self_abs = self.abs().unwrap();
                let other_abs = other.abs().unwrap();
                if self_neg == other_neg {
                    if self_neg {
                        let sum_abs = wide_add(self_abs, other_abs);
                        I256::from_sign_magnitude(true, sum_abs)
                    } else {
                        unreached()
                    }
                } else if wide_le(other_abs, self_abs) {
                    let diff = wide_sub(self_abs, other_abs);
                    I256::from_sign_magnitude(self_neg, diff)
                } else {
                    let diff = wide_sub(other_abs, self_abs);
                    I256::from_sign_magnitude(other_neg, diff)
                }
            },
        };
        // Two values of one sign whose sum has the other sign have overflowed.
        let result_neg = result.is_negative();
        if (!self_neg && !other_neg && result_neg) || (self_neg && other_neg && !result_neg) {
            unreached()
        } else {
            proof {
                result.lemma_of_int();
            }
            result
        }
    }
}

impl SubSpecImpl for I256 {
    open spec fn obeys_sub_spec() -> bool {
        true
    }

    open spec fn sub_req(self, rhs: I256) -> bool {
        fits_i256(self@ - rhs@)
    }

    open spec fn sub_spec(self, rhs: I256) -> I256 {
        I256::of_int(self@ - rhs@)
    }
}

impl core::ops::Sub for I256 {
    type Output = I256;

    /// The difference of two values whose difference fits.
    fn sub(self, other: I256) -> (r: I256)
        ensures
            r@ == self@ - other@,
    {
        let result = match other.checked_neg() {
            Ok(negated) => self + negated,
            Err(_) => {
                // -2^255 has no negation: add 2^255 in two steps.
                proof {
                    self.lemma_view();
                }
                (self + I256::max_value()) + I256::from_i128_const(1)
            },
        };
        proof {
            result.lemma_of_int();
        }
        result
    }
}

impl MulSpecImpl for I256 {
    open spec fn obeys_mul_spec() -> bool {
        true
    }

    open spec fn mul_req(self, rhs: I256) -> bool {
        fits_i256(self@ * rhs@)
    }

    open spec fn mul_spec(self, rhs: I256) -> I256 {
        I256::of_int(self@ * rhs@)
    }
}

impl core::ops::Mul for I256 {
    type Output = I256;

    /// The product of two values whose product fits.
    fn mul(self, other: I256) -> (r: I256)
        ensures
            r@ == self@ * other@,
    {
        match self.checked_mul(&other) {
            Ok(v) => {
                proof {
                    v.lemma_of_int();
                }
                v
            },
            Err(_) => unreached(),
        }
    }
}

impl DivSpecImpl for I256 {
    open spec fn obeys_div_spec() -> bool {
        true
    }

    open spec fn div_req(self, rhs: I256) -> bool {
        rhs@ != 0 && !(self@ == i256_min() && rhs@ == -1)
    }

    open spec fn div_spec(self, rhs: I256) -> I256 {
        I256::of_int(trunc_div(self@, rhs@))
    }
}

impl core::ops::Div for I256 {
    type Output = I256;

    /// The quotient rounded toward zero, for a divisor that is not zero and
    /// a quotient that fits.
    fn div(self, other: I256) -> (r: I256)
        ensures
            r@ == trunc_div(self@, other@),
    {
        match self.checked_div(&other) {
            Ok(v) => {
                proof {
                    v.lemma_of_int();
                }
                v
            },
            Err(_) => unreached(),
        }
    }
}

impl RemSpecImpl for I256 {
    open spec fn obeys_rem_spec() -> bool {
        true
    }

    open spec fn rem_req(self, rhs: I256) -> bool {
        rhs@ != 0
    }

    open spec fn rem_spec(self, rhs: I256) -> I256 {
        I256::of_int(trunc_rem(self@, rhs@))
    }
}

impl core::ops::Rem for I256 {
    type Output = I256;

    /// The remainder of the division rounded toward zero: it has the sign
    /// of `self`.
    fn rem(self, other: I256) -> (r: I256)
        ensures
            r@ == trunc_rem(self@, other@),
    {
        proof {
            self.lemma_view();
            other.lemma_view();
        }
        let self_abs = self.abs().unwrap();
        let other_abs = other.abs().unwrap();
        let remainder = wide_rem(self_abs, other_abs);
        proof {
            lemma_rem_bound(self@, other@);
        }
        let result = I256::from_sign_magnitude(self.is_negative(), remainder);
        proof {
            result.lemma_of_int();
        }
        result
    }
}

impl core::ops::AddAssign for I256 {
    fn add_assign(&mut self, other: I256)
        requires
            fits_i256(old(self)@ + other@),
        ensures
            final(self)@ == old(self)@ + other@,
    {
        *self = *self + other;
    }
}

impl core::ops::SubAssign for I256 {
    fn sub_assign(&mut self, other: I256)
        requires
            fits_i256(old(self)@ - other@),
        ensures
            final(self)@ == old(self)@ - other@,
    {
        *self = *self - other;
    }
}

impl core::ops::MulAssign for I256 {
    fn mul_assign(&mut self, other: I256)
        requires
            fits_i256(old(self)@ * other@),
        ensures
            final(self)@ == old(self)@ * other@,
    {
        *self = *self * other;
    }
}

impl core::ops::DivAssign for I256 {
    fn div_assign(&mut self, other: I256)
        requires
            other@ != 0,
            !(old(self)@ == i256_min() && other@ == -1),
        ensures
            final(self)@ == trunc_div(old(self)@, other@),
    {
        *self = *self / other;
    }
}

impl FromSpecImpl<i128> for I256 {
    open spec fn obeys_from_spec() -> bool {
        true
    }

    open spec fn from_spec(v: i128) -> I256 {
        I256::of_int(v as int)
    }
}

impl From<i128> for I256 {
    fn from(value: i128) -> (r: I256)
        ensures
            r@ == value,
    {
        let result = I256::from_i128_const(value);
        proof {
            result.lemma_of_int();
        }
        result
    }
}

impl FromSpecImpl<u64> for I256 {
    open spec fn obeys_from_spec() -> bool {
        true
    }

    open spec fn from_spec(v: u64) -> I256 {
        I256::of_int(v as int)
    }
}

impl From<u64> for I256 {
    fn from(value: u64) -> (r: I256)
        ensures
            r@ == value,
    {
        let result = I256 { value: from_u64(value) };
        proof {
            result.lemma_of_int();
        }
        result
    }
}

impl TryFromSpecImpl<u128> for I256 {
    open spec fn obeys_try_from_spec() -> bool {
        true
    }

    open spec fn try_from_spec(v: u128) -> Result<I256, ErrorCode> {
        if v <= i128::MAX {
            Ok(I256::of_int(v as int))
        } else {
            Err(ErrorCode::MathOverflow)
        }
    }
}

impl TryFrom<u128> for I256 {
    type Error = ErrorCode;

    /// The same number, or `MathOverflow` above 2^127 - 1.
    fn try_from(value: u128) -> (r: Result<I256, ErrorCode>)
        ensures
            match r {
                Ok(v) => value <= i128::MAX && v@ == value,
                Err(e) => value > i128::MAX && e == ErrorCode::MathOverflow,
            },
    {
        if value > 0x7FFF_FFFF_FFFF_FFFF_FFFF_FFFF_FFFF_FFFFu128 {
            return Err(ErrorCode::MathOverflow);
        }
        let result = I256 { value: from_u128(value) };
        proof {
            result.lemma_of_int();
        }
        Ok(result)
    }
}

impl TryFromSpecImpl<U256> for I256 {
    open spec fn obeys_try_from_spec() -> bool {
        true
    }

    open spec fn try_from_spec(v: U256) -> Result<I256, ErrorCode> {
        if to_nat(v) < two_255() {
            Ok(I256 { value: v })
        } else {
            Err(ErrorCode::MathOverflow)
        }
    }
}

impl TryFrom<U256> for I256 {
    type Error = ErrorCode;

    /// The same number, or `MathOverflow` from 2^255 on.
    fn try_from(value: U256) -> (r: Result<I256, ErrorCode>)
        ensures
            match r {
                Ok(v) => to_nat(value) < two_255() && v@ == to_nat(value) && v.value == value,
                Err(e) => to_nat(value) >= two_255() && e == ErrorCode::MathOverflow,
            },
    {
        let max_positive = U256(
            [0xFFFFFFFFFFFFFFFF, 0xFFFFFFFFFFFFFFFF, 0xFFFFFFFFFFFFFFFF, 0x7FFFFFFFFFFFFFFF],
        );
        if wide_le(value, max_positive) {
            Ok(I256 { value })
        } else {
            Err(ErrorCode::MathOverflow)
        }
    }
}

impl TryFromSpecImpl<I256> for U256 {
    open spec fn obeys_try_from_spec() -> bool {
        true
    }

    open spec fn try_from_spec(v: I256) -> Result<U256, ErrorCode> {
        if v@ >= 0 {
            Ok(v.value)
        } else {
            Err(ErrorCode::MathOverflow)
        }
    }
}

impl TryFrom<I256> for U256 {
    type Error = ErrorCode;

    /// The same number, or `MathOverflow` below zero.
    fn try_from(value: I256) -> (r: Result<U256, ErrorCode>)
        ensures
            match r {
                Ok(v) => value@ >= 0 && to_nat(v) == value@,
                Err(e) => value@ < 0 && e == ErrorCode::MathOverflow,
            },
    {
        value.to_u256()
    }
}

impl TryFromSpecImpl<I256> for i128 {
    open spec fn obeys_try_from_spec() -> bool {
        true
    }

    open spec fn try_from_spec(v: I256) -> Result<i128, ErrorCode> {
        if i128::MIN <= v@ <= i128::MAX {
            Ok(v@ as i128)
        } else {
            Err(ErrorCode::MathOverflow)
        }
    }
}

impl TryFrom<I256> for i128 {
    type Error = ErrorCode;

    /// The same number, or `MathOverflow` outside the range of `i128`.
    fn try_from(value: I256) -> (r: Result<i128, ErrorCode>) {
        let magnitude = match try_to_u128(value.abs()?) {
            Some(m) => m,
            None => {
                return Err(ErrorCode::MathOverflow);
            },
        };
        if value.is_negative() {
            if magnitude > 0x8000_0000_0000_0000_0000_0000_0000_0000u128 {
                Err(ErrorCode::MathOverflow)
            } else if magnitude == 0x8000_0000_0000_0000_0000_0000_0000_0000u128 {
                Ok(i128::MIN)
            } else {
                Ok(-(magnitude as i128))
            }
        } else if magnitude > 0x7FFF_FFFF_FFFF_FFFF_FFFF_FFFF_FFFF_FFFFu128 {
            Err(ErrorCode::MathOverflow)
        } else {
            Ok(magnitude as i128)
        }
    }
}

/// The sum of the first `n` of the values.
pub open spec fn sum_of(values: Seq<I256>, n: nat) -> int
    decreases n,
{
    if n == 0 {
        0
    } else {
        sum_of(values, (n - 1) as nat) + values[n - 1]@
    }
}

/// Whether the sum of the first `n` of the values fits, for every `n`.
pub open spec fn sums_fit(values: Seq<I256>) -> bool {
    forall|n: nat| n <= values.len() ==> fits_i256(#[trigger] sum_of(values, n))
}

/// The sum of the values, added from the first on, where every sum on the
/// way fits.
pub fn sum(values: &[I256]) -> (r: I256)
    requires
        sums_fit(values@),
    ensures
        r@ == sum_of(values@, values@.len()),
{
    let mut total = I256::zero();
    let mut i: usize = 0;
    while i < values.len()
        invariant
            i <= values@.len(),
            sums_fit(values@),
            total@ == sum_of(values@, i as nat),
        decreases values@.len() - i,
    {
        assert(fits_i256(sum_of(values@, (i + 1) as nat)));
        total = total + values[i];
        i = i + 1;
    }
    total
}

/// A remainder is smaller than the divisor and no larger than what is divided.
pub proof fn lemma_rem_bound(a: int, b: int)
    requires
        b != 0,
    ensures
        abs_int(a) % abs_int(b) < abs_int(b),
        abs_int(a) % abs_int(b) <= abs_int(a),
{
    let x = abs_int(a) as int;
    let y = abs_int(b) as int;
    assert(0 <= x % y < y && x % y <= x) by (nonlinear_arith)
        requires
            0 <= x,
            0 < y,
    ;
}

/// The magnitude of a product is the product of the magnitudes.
pub proof fn lemma_abs_product(a: int, b: int)
    ensures
        abs_int(a * b) == abs_int(a) * abs_int(b),
        (a < 0) != (b < 0) ==> a * b == -(abs_int(a) * abs_int(b)),
        (a < 0) == (b < 0) ==> a * b == abs_int(a) * abs_int(b),
{
    assert(abs_int(a * b) == abs_int(a) * abs_int(b) && ((a < 0) != (b < 0) ==> a * b == -(abs_int(
        a,
    ) * abs_int(b))) && ((a < 0) == (b < 0) ==> a * b == abs_int(a) * abs_int(b)))
        by (nonlinear_arith);
}

/// A quotient is no larger in magnitude than what is divided.
pub proof fn lemma_trunc_div_bound(a: int, b: int)
    requires
        b != 0,
    ensures
        abs_int(a) / abs_int(b) <= abs_int(a),
        abs_int(trunc_div(a, b)) == abs_int(a) / abs_int(b),
        abs_int(b) >= 2 ==> abs_int(a) / abs_int(b) <= abs_int(a) / 2,
{
    let x = abs_int(a) as int;
    let y = abs_int(b) as int;
    assert(0 <= x / y <= x) by (nonlinear_arith)
        requires
            0 <= x,
            0 < y,
    ;
    if y >= 2 {
        vstd::arithmetic::div_mod::lemma_div_is_ordered_by_denominator(x, 2, y);
    }
}

} // verus!

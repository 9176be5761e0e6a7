//! The unsigned 256-bit integer of `primitive_types`, its mathematical value,
//! and the contracts under which this crate calls its arithmetic.

use crate::error::ErrorCode;
use primitive_types::U256;
use vstd::arithmetic::power::pow;
use vstd::prelude::*;

verus! {

/// `primitive_types::U256`: four 64-bit words, least significant first. The
/// words are its one field, which is public, so the type is declared with
/// its field and nothing is assumed of what a value holds.
#[verifier::external_type_specification]
pub struct ExU256(U256);

/// 2^255, the magnitude of the smallest signed 256-bit integer.
pub open spec fn two_255() -> nat {
    0x8000_0000_0000_0000_0000_0000_0000_0000_0000_0000_0000_0000_0000_0000_0000_0000nat
}

/// 2^256, one more than the largest value of a `U256`.
pub open spec fn two_256() -> nat {
    0x1_0000_0000_0000_0000_0000_0000_0000_0000_0000_0000_0000_0000_0000_0000_0000_0000nat
}

/// The number that four little-endian 64-bit words stand for.
pub open spec fn words_to_nat(w: Seq<u64>) -> nat {
    (w[0] as nat) + (w[1] as nat) * 0x1_0000_0000_0000_0000nat + (w[2] as nat)
        * 0x1_0000_0000_0000_0000_0000_0000_0000_0000nat + (w[3] as nat)
        * 0x1_0000_0000_0000_0000_0000_0000_0000_0000_0000_0000_0000_0000nat
}

/// The number that `x` stands for.
pub open spec fn to_nat(x: U256) -> nat {
    words_to_nat(x.0@)
}

/// A result read as a number.
pub open spec fn result_to_nat(r: Result<U256, ErrorCode>) -> Result<nat, ErrorCode> {
    match r {
        Ok(v) => Ok(to_nat(v)),
        Err(e) => Err(e),
    }
}

/// Every `U256` is below 2^256.
pub proof fn lemma_to_nat_bound(x: U256)
    ensures
        to_nat(x) < two_256(),
{
}

/// A number has one low part below `base` and one high part.
proof fn lemma_split_unique(low: int, high: int, other_low: int, other_high: int, base: int)
    requires
        0 <= low < base,
        0 <= other_low < base,
        low + base * high == other_low + base * other_high,
    ensures
        low == other_low,
        high == other_high,
{
    let x = low + base * high;
    assert(x == high * base + low && x == other_high * base + other_low) by (nonlinear_arith)
        requires
            x == low + base * high,
            x == other_low + base * other_high,
    ;
    vstd::arithmetic::div_mod::lemma_fundamental_div_mod_converse(x, base, high, low);
    vstd::arithmetic::div_mod::lemma_fundamental_div_mod_converse(x, base, other_high, other_low);
}

/// Two `U256` that stand for the same number are the same value.
pub proof fn lemma_to_nat_injective(x: U256, y: U256)
    requires
        to_nat(x) == to_nat(y),
    ensures
        x == y,
{
    let a = x.0@;
    let b = y.0@;
    let base = 0x1_0000_0000_0000_0000int;
    // The words above the lowest, and above the two lowest, as numbers.
    let a_top = a[2] as int + base * (a[3] as int);
    let b_top = b[2] as int + base * (b[3] as int);
    let a_rest = a[1] as int + base * a_top;
    let b_rest = b[1] as int + base * b_top;
    assert(to_nat(x) == a[0] as int + base * a_rest);
    assert(to_nat(y) == b[0] as int + base * b_rest);
    lemma_split_unique(a[0] as int, a_rest, b[0] as int, b_rest, base);
    lemma_split_unique(a[1] as int, a_top, b[1] as int, b_top, base);
    lemma_split_unique(a[2] as int, a[3] as int, b[2] as int, b[3] as int, base);
    assert(a =~= b);
    assert(x.0 == y.0);
}

/// 2^254 as a power.
pub(crate) proof fn lemma_pow2_254()
    ensures
        pow(2, 254)
            == 0x4000_0000_0000_0000_0000_0000_0000_0000_0000_0000_0000_0000_0000_0000_0000_0000int,
{
    vstd::arithmetic::power2::lemma2_to64();
    vstd::arithmetic::power2::lemma2_to64_rest();
    vstd::arithmetic::power2::lemma_pow2_adds(64, 64);
    vstd::arithmetic::power2::lemma_pow2_adds(128, 64);
    vstd::arithmetic::power2::lemma_pow2_adds(192, 62);
    vstd::arithmetic::power2::lemma_pow2(254);
}

/// `U256::zero`: the number 0.
pub assume_specification[ U256::zero ]() -> (r: U256)
    ensures
        to_nat(r) == 0,
;

/// `U256::one`: the number 1.
pub assume_specification[ U256::one ]() -> (r: U256)
    ensures
        to_nat(r) == 1,
;

/// `U256::is_zero`: whether all four words are zero.
pub assume_specification[ U256::is_zero ](x: &U256) -> (r: bool)
    ensures
        r == (to_nat(*x) == 0),
;

/// `U256::as_u64`: the lowest word; the call panics where a higher word is
/// not zero, so the contract asks that the number fits 64 bits.
pub assume_specification[ U256::as_u64 ](x: &U256) -> (r: u64)
    requires
        to_nat(*x) <= u64::MAX,
    ensures
        r == to_nat(*x),
;

/// `U256::checked_add`: the sum where it fits 256 bits, `None` where it does not.
pub assume_specification[ U256::checked_add ](a: U256, b: U256) -> (r: Option<U256>)
    ensures
        match r {
            Some(c) => to_nat(c) == to_nat(a) + to_nat(b),
            None => to_nat(a) + to_nat(b) >= two_256(),
        },
;

/// `U256::checked_sub`: the difference where it is not negative, else `None`.
pub assume_specification[ U256::checked_sub ](a: U256, b: U256) -> (r: Option<U256>)
    ensures
        match r {
            Some(c) => to_nat(c) == to_nat(a) - to_nat(b),
            None => to_nat(a) < to_nat(b),
        },
;

/// `U256::checked_mul`: the product where it fits 256 bits, `None` where it does not.
pub assume_specification[ U256::checked_mul ](a: U256, b: U256) -> (r: Option<U256>)
    ensures
        match r {
            Some(c) => to_nat(c) == to_nat(a) * to_nat(b),
            None => to_nat(a) * to_nat(b) >= two_256(),
        },
;

/// `U256::checked_div`: the quotient rounded down, `None` for a zero divisor.
pub assume_specification[ U256::checked_div ](a: U256, b: U256) -> (r: Option<U256>)
    ensures
        match r {
            Some(c) => to_nat(b) != 0 && to_nat(c) == to_nat(a) / to_nat(b),
            None => to_nat(b) == 0,
        },
;

/// `U256::pow`: the power by repeated squaring; the call panics where the
/// result does not fit 256 bits, so the contract asks that it does.
pub assume_specification[ U256::pow ](base: U256, expon: U256) -> (r: U256)
    requires
        pow(to_nat(base) as int, to_nat(expon)) < two_256(),
    ensures
        to_nat(r) == pow(to_nat(base) as int, to_nat(expon)),
;

/// `U256::from(u64)`: the same number, in the lowest word.
#[verifier::external_body]
pub(crate) fn from_u64(v: u64) -> (r: U256)
    ensures
        to_nat(r) == v,
{
    U256::from(v)
}

/// `U256::from(u128)`: the same number, in the two lowest words.
#[verifier::external_body]
pub(crate) fn from_u128(v: u128) -> (r: U256)
    ensures
        to_nat(r) == v,
{
    U256::from(v)
}

/// `u128::try_from(U256)`: the same number where the two highest words are
/// zero, else nothing.
#[verifier::external_body]
pub(crate) fn try_to_u128(x: U256) -> (r: Option<u128>)
    ensures
        match r {
            Some(v) => to_nat(x) == v,
            None => to_nat(x) > u128::MAX,
        },
{
    u128::try_from(x).ok()
}

/// `a + b` on `U256`, which panics on overflow: the contract asks that the
/// sum fits 256 bits.
#[verifier::external_body]
pub(crate) fn wide_add(a: U256, b: U256) -> (r: U256)
    requires
        to_nat(a) + to_nat(b) < two_256(),
    ensures
        to_nat(r) == to_nat(a) + to_nat(b),
{
    a + b
}

/// `a - b` on `U256`, which panics on underflow: the contract asks that `b`
/// is not above `a`.
#[verifier::external_body]
pub(crate) fn wide_sub(a: U256, b: U256) -> (r: U256)
    requires
        to_nat(b) <= to_nat(a),
    ensures
        to_nat(r) == to_nat(a) - to_nat(b),
{
    a - b
}

/// `a / b` on `U256`, which panics for a zero divisor: the contract asks for
/// another one. The quotient is rounded down.
#[verifier::external_body]
pub(crate) fn wide_div(a: U256, b: U256) -> (r: U256)
    requires
        to_nat(b) != 0,
    ensures
        to_nat(r) == to_nat(a) / to_nat(b),
{
    a / b
}

/// `a % b` on `U256`, which panics for a zero divisor: the contract asks for
/// another one.
#[verifier::external_body]
pub(crate) fn wide_rem(a: U256, b: U256) -> (r: U256)
    requires
        to_nat(b) != 0,
    ensures
        to_nat(r) == to_nat(a) % to_nat(b),
{
    a % b
}

/// `!a` on `U256`: every bit flipped, which is 2^256 - 1 - a.
#[verifier::external_body]
pub(crate) fn wide_not(a: U256) -> (r: U256)
    ensures
        to_nat(r) == two_256() - 1 - to_nat(a),
{
    !a
}

/// `a == b` on `U256`: whether the words are the same.
#[verifier::external_body]
pub(crate) fn wide_eq(a: U256, b: U256) -> (r: bool)
    ensures
        r == (to_nat(a) == to_nat(b)),
{
    a == b
}

/// `a < b` on `U256`: the words compared from the highest down.
#[verifier::external_body]
pub(crate) fn wide_lt(a: U256, b: U256) -> (r: bool)
    ensures
        r == (to_nat(a) < to_nat(b)),
{
    a < b
}

/// `a <= b` on `U256`: the words compared from the highest down.
#[verifier::external_body]
pub(crate) fn wide_le(a: U256, b: U256) -> (r: bool)
    ensures
        r == (to_nat(a) <= to_nat(b)),
{
    a <= b
}

} // verus!

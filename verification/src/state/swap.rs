//! Quotes for swaps that keep the weighted sum of the logarithms of the
//! reserves: tokens come in, and one token goes out.
//!
//! A swap with more than one token going out is not quoted: how the change
//! of the sum would be shared between them is not defined, and such a swap
//! is refused with `InvalidTokenCount`.

use crate::error::ErrorCode;
use crate::math::i256::{abs_int, lemma_abs_product, lemma_trunc_div_bound, trunc_div, I256};
use crate::math::logexpmath::{one_18, LogExpMath};
use crate::math::model;
use crate::state::liquidity::{any_zero_weight, has_zero_weight, lemma_share_bound};
use crate::state::pool::{fee_is_valid, fee_of, split_fee, AnySwapPool};
use vstd::pervasive::unreached;
use vstd::prelude::*;

verus! {

/// What a swap moves.
#[derive(Debug, Clone)]
pub struct SwapResult {
    /// The amount of each token: what comes in of a token that comes in,
    /// what goes out, the fee taken off, of the token that goes out.
    pub amounts: Vec<u64>,
    /// The fee kept of each token.
    pub burn_fees: Vec<u64>,
}

/// A whole number of tokens as a fixed-point number with 18 decimals.
pub open spec fn to_fixed(amount: int) -> int {
    amount * model::one_18()
}

/// Whether token `i` comes in: it is not the token that goes out, and its
/// amount is not zero.
pub open spec fn is_input(amounts_in: Seq<u64>, output_index: int, i: int) -> bool {
    i != output_index && amounts_in[i] > 0
}

/// By how much `amount_in` more of a token raises the weighted logarithm of
/// its reserve.
pub open spec fn log_delta(reserve: u64, weight: u64, amount_in: u64) -> int {
    weight * (model::ln_value(to_fixed(reserve + amount_in)) - model::ln_value(
        to_fixed(reserve as int),
    ))
}

/// The sum of `log_delta` over the tokens among the first `n` that come in.
pub open spec fn total_delta(
    reserves: Seq<u64>,
    weights: Seq<u64>,
    amounts_in: Seq<u64>,
    output_index: int,
    n: nat,
) -> int
    decreases n,
{
    if n == 0 {
        0
    } else {
        total_delta(reserves, weights, amounts_in, output_index, (n - 1) as nat) + (if is_input(
            amounts_in,
            output_index,
            n - 1,
        ) {
            log_delta(reserves[n - 1], weights[n - 1], amounts_in[n - 1])
        } else {
            0
        })
    }
}

/// Whether the token that goes out, or one that comes in, has no reserve.
pub open spec fn lacks_reserve(
    reserves: Seq<u64>,
    amounts_in: Seq<u64>,
    output_index: int,
) -> bool {
    reserves[output_index] == 0 || exists|i: int|
        0 <= i < reserves.len() && #[trigger] is_input(amounts_in, output_index, i) && reserves[i]
            == 0
}

/// The logarithm of what a reserve becomes for the total `delta` of
/// `log_delta` of the tokens that come in: its logarithm less `delta`
/// divided by its weight.
pub open spec fn new_logarithm(reserve: u64, weight: u64, delta: int) -> int {
    model::ln_value(to_fixed(reserve as int)) - trunc_div(delta, weight as int)
}

/// What goes out of a reserve, and the fee on it, for the total `delta` of
/// `log_delta` of the tokens that come in. The reserve becomes the
/// exponential of its new logarithm; the difference to the old reserve, in
/// whole tokens, goes out, less the fee on it. `MathOverflow` where the new
/// logarithm is outside the domain of the exponential, `MathUnderflow`
/// where the new reserve comes out above the old one.
pub open spec fn output_result(
    reserve: u64,
    weight: u64,
    delta: int,
    fee_numerator: u64,
    fee_denominator: u64,
) -> Result<(u64, u64), ErrorCode> {
    let before = to_fixed(reserve as int);
    let exponent = new_logarithm(reserve, weight, delta);
    if !model::exp_in_domain(exponent) {
        Err(ErrorCode::MathOverflow)
    } else if model::exp_value(exponent) > before {
        Err(ErrorCode::MathUnderflow)
    } else {
        let gross = ((before - model::exp_value(exponent)) / model::one_18()) as nat;
        let fee = fee_of(gross, fee_numerator as nat, fee_denominator as nat);
        Ok(((gross - fee) as u64, fee as u64))
    }
}

/// What `quote_swap` returns.
pub open spec fn quote_swap_result(
    reserves: Seq<u64>,
    weights: Seq<u64>,
    fee_numerator: u64,
    fee_denominator: u64,
    amounts_in: Seq<u64>,
    output_index: usize,
) -> Result<(u64, u64), ErrorCode> {
    let n = reserves.len();
    let out = output_index as int;
    if n == 0 || weights.len() != n || amounts_in.len() != n {
        Err(ErrorCode::InvalidTokenCount)
    } else if output_index >= n {
        Err(ErrorCode::InvalidTokenIndex)
    } else if !fee_is_valid(fee_numerator, fee_denominator) {
        Err(ErrorCode::MathOverflow)
    } else if has_zero_weight(weights) {
        Err(ErrorCode::InvalidTokenCount)
    } else if amounts_in[out] != 0 {
        Err(ErrorCode::SameTokenSwap)
    } else if lacks_reserve(reserves, amounts_in, out) {
        Err(ErrorCode::InsufficientLiquidity)
    } else {
        output_result(
            reserves[out],
            weights[out],
            total_delta(reserves, weights, amounts_in, out, n),
            fee_numerator,
            fee_denominator,
        )
    }
}

/// The largest magnitude of one `log_delta`: a weight of 64 bits times twice
/// the largest logarithm.
spec fn delta_bound() -> int {
    0xFFFF_FFFF_FFFF_FFFFint * 274_000_000_000_000_000_000int
}

/// The logarithm of a whole number of tokens above zero.
fn ln_of_tokens(amount: I256) -> (r: I256)
    requires
        0 < amount@ <= 2 * u64::MAX,
    ensures
        r@ == model::ln_value(to_fixed(amount@)),
        abs_int(r@) <= 137_000_000_000_000_000_000,
{
    match LogExpMath::ln(amount * one_18()) {
        Ok(v) => v,
        Err(_) => unreached(),
    }
}

/// By how much `amount_in` more of a token raises the weighted logarithm of
/// its reserve, for a reserve that is not zero.
fn weighted_log_delta(reserve: u64, weight: u64, amount_in: u64) -> (r: I256)
    requires
        reserve > 0,
    ensures
        r@ == log_delta(reserve, weight, amount_in),
        abs_int(r@) <= delta_bound(),
{
    let before = I256::from(reserve);
    let after = before + I256::from(amount_in);
    let difference = ln_of_tokens(after) - ln_of_tokens(before);
    proof {
        lemma_abs_product(weight as int, difference@);
        assert(abs_int(weight as int) * abs_int(difference@) <= 0xFFFF_FFFF_FFFF_FFFF
            * 274_000_000_000_000_000_000) by (nonlinear_arith)
            requires
                abs_int(weight as int) <= 0xFFFF_FFFF_FFFF_FFFF,
                abs_int(difference@) <= 274_000_000_000_000_000_000,
        ;
    }
    I256::from(weight) * difference
}

/// The total of `log_delta` over the tokens that come in, or `None` where
/// one of them has no reserve.
fn sum_of_deltas(
    reserves: &[u64],
    weights: &[u64],
    amounts_in: &[u64],
    output_index: usize,
) -> (r: Option<I256>)
    requires
        weights@.len() == reserves@.len(),
        amounts_in@.len() == reserves@.len(),
    ensures
        match r {
            Some(total) => {
                &&& total@ == total_delta(
                    reserves@,
                    weights@,
                    amounts_in@,
                    output_index as int,
                    reserves@.len(),
                )
                &&& abs_int(total@) <= reserves@.len() * delta_bound()
                &&& forall|j: int|
                    0 <= j < reserves@.len() ==> !(#[trigger] is_input(
                        amounts_in@,
                        output_index as int,
                        j,
                    ) && reserves@[j] == 0)
            },
            None => exists|j: int|
                0 <= j < reserves@.len() && #[trigger] is_input(amounts_in@, output_index as int, j)
                    && reserves@[j] == 0,
        },
{
    let n = reserves.len();
    let ghost out = output_index as int;
    let mut delta_total = I256::zero();
    let mut i: usize = 0;
    while i < n
        invariant
            i <= n == reserves@.len(),
            weights@.len() == n,
            amounts_in@.len() == n,
            out == output_index,
            delta_total@ == total_delta(reserves@, weights@, amounts_in@, out, i as nat),
            abs_int(delta_total@) <= i * delta_bound(),
            forall|j: int|
                0 <= j < i ==> !(#[trigger] is_input(amounts_in@, out, j) && reserves@[j] == 0),
        decreases n - i,
    {
        if i != output_index && amounts_in[i] > 0 {
            if reserves[i] == 0 {
                assert(is_input(amounts_in@, out, i as int));
                return None;
            }
            let delta = weighted_log_delta(reserves[i], weights[i], amounts_in[i]);
            proof {
                assert((i + 1) * delta_bound() == i * delta_bound() + delta_bound())
                    by (nonlinear_arith);
                assert(i * delta_bound() <= 0xFFFF_FFFF_FFFF_FFFF * delta_bound())
                    by (nonlinear_arith)
                    requires
                        i <= 0xFFFF_FFFF_FFFF_FFFF,
                        delta_bound() >= 0,
                ;
            }
            delta_total = delta_total + delta;
        } else {
            proof {
                assert((i + 1) * delta_bound() == i * delta_bound() + delta_bound())
                    by (nonlinear_arith);
            }
        }
        i = i + 1;
    }
    Some(delta_total)
}

/// What a reserve becomes, with 18 decimals, for the total `delta` of the
/// tokens that come in; `MathOverflow` where its new logarithm is outside
/// the domain of the exponential.
fn reserve_after_delta(reserve: u64, weight: u64, delta_total: I256) -> (r: Result<I256, ErrorCode>)
    requires
        reserve > 0,
        weight > 0,
        abs_int(delta_total@) <= 0xFFFF_FFFF_FFFF_FFFF * delta_bound(),
    ensures
        match r {
            Ok(v) => {
                &&& model::exp_in_domain(new_logarithm(reserve, weight, delta_total@))
                &&& v@ == model::exp_value(new_logarithm(reserve, weight, delta_total@))
                &&& v@ >= 0
            },
            Err(e) => !model::exp_in_domain(new_logarithm(reserve, weight, delta_total@)) && e
                == ErrorCode::MathOverflow,
        },
{
    // The token that goes out takes the same change the other way.
    let weight_out = I256::from(weight);
    proof {
        lemma_trunc_div_bound(delta_total@, weight_out@);
    }
    let share = delta_total / weight_out;
    let ln_before = ln_of_tokens(I256::from(reserve));
    let ln_after = ln_before - share;
    LogExpMath::exp(ln_after)
}

/// The whole tokens between a reserve and what it becomes.
fn whole_tokens_out(reserve: u64, reserve_after: I256) -> (r: u64)
    requires
        0 <= reserve_after@ <= to_fixed(reserve as int),
    ensures
        r == (to_fixed(reserve as int) - reserve_after@) / model::one_18(),
        r <= reserve,
{
    let reserve_before = I256::from(reserve) * one_18();
    let difference = reserve_before - reserve_after;
    proof {
        lemma_trunc_div_bound(difference@, model::one_18());
        assert(0 <= difference@ <= reserve * model::one_18());
        assert(trunc_div(difference@, model::one_18()) == difference@ / model::one_18());
        assert(reserve * model::one_18() == model::one_18() * reserve) by (nonlinear_arith);
        vstd::arithmetic::div_mod::lemma_div_is_ordered(
            difference@,
            model::one_18() * reserve,
            model::one_18(),
        );
        vstd::arithmetic::div_mod::lemma_div_multiples_vanish(reserve as int, model::one_18());
    }
    (difference / one_18()).as_u64()
}

/// What goes out of a reserve, and the fee on it, for the total `delta` of
/// the tokens that come in.
fn output_for_delta(
    reserve: u64,
    weight: u64,
    delta_total: I256,
    fee_numerator: u64,
    fee_denominator: u64,
) -> (r: Result<(u64, u64), ErrorCode>)
    requires
        reserve > 0,
        weight > 0,
        fee_is_valid(fee_numerator, fee_denominator),
        abs_int(delta_total@) <= 0xFFFF_FFFF_FFFF_FFFF * delta_bound(),
    ensures
        r == output_result(reserve, weight, delta_total@, fee_numerator, fee_denominator),
        r matches Ok((net, fee)) ==> net + fee <= reserve,
{
    let reserve_after = reserve_after_delta(reserve, weight, delta_total)?;
    let reserve_before = I256::from(reserve) * one_18();
    if reserve_after > reserve_before {
        return Err(ErrorCode::MathUnderflow);
    }
    let gross = whole_tokens_out(reserve, reserve_after);
    proof {
        lemma_share_bound(gross as nat, fee_numerator as nat, fee_denominator as nat);
    }
    match split_fee(gross, fee_numerator, fee_denominator) {
        Ok((fee, rest)) => Ok((rest, fee)),
        Err(e) => Err(e),
    }
}

/// What a swap pays out of the token at `output_index` for the amounts of
/// the other tokens that come in, and the fee kept of it. `amounts_in` has
/// one amount for each token, zero for a token that does not come in.
///
/// `InvalidTokenCount` for no token, lists of different lengths or a weight
/// of zero; `InvalidTokenIndex` for an output that is no token;
/// `MathOverflow` for a fee that is not above 0 and at most 1, and where the
/// new logarithm is outside the domain of the exponential; `SameTokenSwap`
/// where the token that goes out also comes in; `InsufficientLiquidity`
/// where a token of the swap has no reserve; `MathUnderflow` where the new
/// reserve comes out above the old one.
pub fn quote_swap(
    reserves: &[u64],
    weights: &[u64],
    fee_numerator: u64,
    fee_denominator: u64,
    amounts_in: &[u64],
    output_index: usize,
) -> (r: Result<(u64, u64), ErrorCode>)
    ensures
        r == quote_swap_result(
            reserves@,
            weights@,
            fee_numerator,
            fee_denominator,
            amounts_in@,
            output_index,
        ),
        r matches Ok((net, fee)) ==> net + fee <= reserves@[output_index as int],
{
    let n = reserves.len();
    if n == 0 || weights.len() != n || amounts_in.len() != n {
        return Err(ErrorCode::InvalidTokenCount);
    }
    if output_index >= n {
        return Err(ErrorCode::InvalidTokenIndex);
    }
    if fee_numerator == 0 || fee_numerator > fee_denominator {
        return Err(ErrorCode::MathOverflow);
    }
    if any_zero_weight(weights) {
        return Err(ErrorCode::InvalidTokenCount);
    }
    if amounts_in[output_index] != 0 {
        return Err(ErrorCode::SameTokenSwap);
    }
    if reserves[output_index] == 0 {
        return Err(ErrorCode::InsufficientLiquidity);
    }
    let delta_total = match sum_of_deltas(reserves, weights, amounts_in, output_index) {
        Some(total) => total,
        None => {
            return Err(ErrorCode::InsufficientLiquidity);
        },
    };
    proof {
        assert(n * delta_bound() <= 0xFFFF_FFFF_FFFF_FFFF * delta_bound()) by (nonlinear_arith)
            requires
                n <= 0xFFFF_FFFF_FFFF_FFFF,
                delta_bound() >= 0,
        ;
        assert(weights@[output_index as int] != 0);
    }
    output_for_delta(
        reserves[output_index],
        weights[output_index],
        delta_total,
        fee_numerator,
        fee_denominator,
    )
}

/// The index of the first token from `from` on that goes out, or the number
/// of tokens where there is none.
pub open spec fn first_output(is_in_token: Seq<bool>, from: int) -> int
    decreases is_in_token.len() - from,
{
    if from >= is_in_token.len() {
        is_in_token.len() as int
    } else if !is_in_token[from] {
        from
    } else {
        first_output(is_in_token, from + 1)
    }
}

/// How many of the first `n` tokens go out.
pub open spec fn output_count(is_in_token: Seq<bool>, n: nat) -> nat
    decreases n,
{
    if n == 0 {
        0
    } else {
        output_count(is_in_token, (n - 1) as nat) + (if is_in_token[n - 1] {
            0nat
        } else {
            1nat
        })
    }
}

/// The amount that comes in of each token: the given amount of a token that
/// comes in, zero of the others.
pub open spec fn inputs_of(is_in_token: Seq<bool>, amounts: Seq<u64>) -> Seq<u64> {
    Seq::new(
        amounts.len(),
        |i: int|
            if is_in_token[i] {
                amounts[i]
            } else {
                0u64
            },
    )
}

/// Whether more is to come in of some token than the user holds of it.
pub open spec fn exceeds_balance(
    is_in_token: Seq<bool>,
    amounts: Seq<u64>,
    user_amounts: Seq<u64>,
) -> bool {
    exists|i: int|
        0 <= i < amounts.len() && is_in_token[i] && #[trigger] amounts[i] > user_amounts[i]
}

/// What `AnySwapPool::swap` returns: the amounts and the fees, one of each
/// for each token.
pub open spec fn swap_outcome(
    is_in_token: Seq<bool>,
    amounts_tolerance: Seq<u64>,
    user_vaults_amount: Seq<u64>,
    token_vaults_amount: Seq<u64>,
    weights: Seq<u64>,
    fee_numerator: u64,
    fee_denominator: u64,
) -> Result<(Seq<u64>, Seq<u64>), ErrorCode> {
    let n = amounts_tolerance.len();
    let out = first_output(is_in_token, 0);
    let amounts_in = inputs_of(is_in_token, amounts_tolerance);
    if n == 0 || is_in_token.len() != n || user_vaults_amount.len() != n
        || token_vaults_amount.len() != n || weights.len() != n {
        Err(ErrorCode::InvalidTokenCount)
    } else if output_count(is_in_token, n) != 1 {
        Err(ErrorCode::InvalidTokenCount)
    } else if exceeds_balance(is_in_token, amounts_tolerance, user_vaults_amount) {
        Err(ErrorCode::InsufficientTokenAmount)
    } else {
        match quote_swap_result(
            token_vaults_amount,
            weights,
            fee_numerator,
            fee_denominator,
            amounts_in,
            out as usize,
        ) {
            Err(e) => Err(e),
            Ok((net, fee)) => if net < amounts_tolerance[out] {
                Err(ErrorCode::InsufficientTokenAmount)
            } else {
                Ok(
                    (
                        amounts_in.update(out, net),
                        Seq::new(
                            n,
                            |i: int|
                                if i == out {
                                    fee
                                } else {
                                    0u64
                                },
                        ),
                    ),
                )
            },
        }
    }
}

/// From `from` on, the first token that goes out is the one at `k`.
proof fn lemma_first_output(is_in_token: Seq<bool>, from: int, k: int)
    requires
        0 <= from <= k <= is_in_token.len(),
        forall|j: int| from <= j < k ==> is_in_token[j],
        k < is_in_token.len() ==> !is_in_token[k],
    ensures
        first_output(is_in_token, from) == k,
    decreases k - from,
{
    if from < k {
        lemma_first_output(is_in_token, from + 1, k);
    }
}

/// What comes in of each token, how many tokens go out, and the first of
/// them.
fn split_sides(is_in_token: &[bool], amounts: &[u64]) -> (r: (Vec<u64>, usize, usize))
    requires
        is_in_token@.len() == amounts@.len(),
    ensures
        r.0@ == inputs_of(is_in_token@, amounts@),
        r.1 == output_count(is_in_token@, amounts@.len()),
        r.2 == first_output(is_in_token@, 0),
        r.2 <= amounts@.len(),
        r.1 > 0 ==> r.2 < amounts@.len(),
{
    let n = amounts.len();
    let mut inputs: Vec<u64> = Vec::new();
    let mut outputs: usize = 0;
    let mut output_index: usize = n;
    let mut i: usize = 0;
    while i < n
        invariant
            i <= n == amounts@.len() == is_in_token@.len(),
            outputs == output_count(is_in_token@, i as nat),
            outputs <= i,
            outputs == 0 ==> output_index == n && forall|j: int| 0 <= j < i ==> is_in_token@[j],
            outputs > 0 ==> output_index < i && !is_in_token@[output_index as int] && forall|
                j: int,
            | 0 <= j < output_index ==> is_in_token@[j],
            inputs@.len() == i,
            forall|j: int| 0 <= j < i ==> inputs@[j] == inputs_of(is_in_token@, amounts@)[j],
        decreases n - i,
    {
        if is_in_token[i] {
            inputs.push(amounts[i]);
        } else {
            if outputs == 0 {
                output_index = i;
            }
            outputs = outputs + 1;
            inputs.push(0);
        }
        i = i + 1;
    }
    proof {
        lemma_first_output(is_in_token@, 0, output_index as int);
        assert(inputs@ =~= inputs_of(is_in_token@, amounts@));
    }
    (inputs, outputs, output_index)
}

/// Whether more is to come in of some token than the user holds of it.
fn any_exceeds_balance(is_in_token: &[bool], amounts: &[u64], user_amounts: &[u64]) -> (r: bool)
    requires
        is_in_token@.len() == amounts@.len(),
        user_amounts@.len() == amounts@.len(),
    ensures
        r == exceeds_balance(is_in_token@, amounts@, user_amounts@),
{
    let n = amounts.len();
    let mut k: usize = 0;
    while k < n
        invariant
            k <= n == amounts@.len() == is_in_token@.len() == user_amounts@.len(),
            forall|j: int|
                0 <= j < k ==> !(is_in_token@[j] && #[trigger] amounts@[j] > user_amounts@[j]),
        decreases n - k,
    {
        if is_in_token[k] && amounts[k] > user_amounts[k] {
            assert(is_in_token@[k as int] && amounts@[k as int] > user_amounts@[k as int]);
            return true;
        }
        k = k + 1;
    }
    false
}

/// A list of `n` zeros but for `value` at `index`.
fn single_entry(n: usize, index: usize, value: u64) -> (r: Vec<u64>)
    ensures
        r@ == Seq::new(
            n as nat,
            |i: int|
                if i == index {
                    value
                } else {
                    0u64
                },
        ),
{
    let mut list: Vec<u64> = Vec::new();
    let mut i: usize = 0;
    while i < n
        invariant
            i <= n,
            list@.len() == i,
            forall|j: int|
                0 <= j < i ==> list@[j] == (if j == index {
                    value
                } else {
                    0u64
                }),
        decreases n - i,
    {
        list.push(
            if i == index {
                value
            } else {
                0
            },
        );
        i = i + 1;
    }
    assert(list@ =~= Seq::new(
        n as nat,
        |i: int|
            if i == index {
                value
            } else {
                0u64
            },
    ));
    list
}

impl AnySwapPool {
    /// The amounts that a swap moves. The flags say of each token whether it
    /// comes in; exactly one token goes out. Of a token that comes in,
    /// `amounts_tolerance` is the amount; of the token that goes out it is
    /// the least that the user accepts. The reserves are
    /// `token_vaults_amount`, and `user_vaults_amount` is what the user
    /// holds.
    ///
    /// `InvalidTokenCount` for no token, lists of different lengths, and
    /// for none or several tokens that go out; `InsufficientTokenAmount`
    /// where the user holds less of a token than is to come in, and where
    /// less would go out than the user accepts; else the errors of
    /// `quote_swap`.
    pub fn swap(
        &self,
        is_in_token: &[bool],
        amounts_tolerance: &[u64],
        user_vaults_amount: &[u64],
        token_vaults_amount: &[u64],
        weights: &[u64],
        fee_numerator: u64,
        fee_denominator: u64,
    ) -> (r: Result<SwapResult, ErrorCode>)
        ensures
            match r {
                Ok(moved) => swap_outcome(
                    is_in_token@,
                    amounts_tolerance@,
                    user_vaults_amount@,
                    token_vaults_amount@,
                    weights@,
                    fee_numerator,
                    fee_denominator,
                ) == Ok::<(Seq<u64>, Seq<u64>), ErrorCode>((moved.amounts@, moved.burn_fees@)),
                Err(e) => swap_outcome(
                    is_in_token@,
                    amounts_tolerance@,
                    user_vaults_amount@,
                    token_vaults_amount@,
                    weights@,
                    fee_numerator,
                    fee_denominator,
                ) == Err::<(Seq<u64>, Seq<u64>), ErrorCode>(e),
            },
    {
        let n = amounts_tolerance.len();
        if n == 0 || is_in_token.len() != n || user_vaults_amount.len() != n
            || token_vaults_amount.len() != n || weights.len() != n {
            return Err(ErrorCode::InvalidTokenCount);
        }
        let (mut amounts, outputs, output_index) = split_sides(is_in_token, amounts_tolerance);
        if outputs != 1 {
            return Err(ErrorCode::InvalidTokenCount);
        }
        if any_exceeds_balance(is_in_token, amounts_tolerance, user_vaults_amount) {
            return Err(ErrorCode::InsufficientTokenAmount);
        }
        let (net, fee) = quote_swap(
            token_vaults_amount,
            weights,
            fee_numerator,
            fee_denominator,
            amounts.as_slice(),
            output_index,
        )?;
        if net < amounts_tolerance[output_index] {
            return Err(ErrorCode::InsufficientTokenAmount);
        }
        amounts[output_index] = net;
        let burn_fees = single_entry(n, output_index, fee);
        Ok(SwapResult { amounts, burn_fees })
    }
}

} // verus!

//! Quotes for adding and removing liquidity in proportion to the reserves.
//!
//! The fee does not change what an addition mints: a discount for deposits
//! that are out of proportion is a policy of its own and is not applied here.
//! A removal pays each share less the fee on it.

use crate::error::ErrorCode;
use crate::state::pool::{fee_is_valid, fee_of, split_fee};
use vstd::prelude::*;

verus! {

/// What adding liquidity mints and takes.
#[derive(Debug, Clone)]
pub struct AddLiquidityResult {
    /// The liquidity tokens to mint.
    pub lp_minted: u64,
    /// The amount to take of each token.
    pub amounts_used: Vec<u64>,
}

/// What removing liquidity pays and keeps.
#[derive(Debug, Clone)]
pub struct RemoveLiquidityResult {
    /// The amount to pay of each token, the fee taken off.
    pub amounts_out: Vec<u64>,
    /// The fee kept of each token.
    pub burn_fees: Vec<u64>,
}

/// The index of the first reserve from `from` on that is not zero, or the
/// number of reserves where there is none.
pub open spec fn first_funded(reserves: Seq<u64>, from: int) -> int
    decreases reserves.len() - from,
{
    if from >= reserves.len() {
        reserves.len() as int
    } else if reserves[from] != 0 {
        from
    } else {
        first_funded(reserves, from + 1)
    }
}

/// The sum of the first `n` amounts.
pub open spec fn amounts_sum(amounts: Seq<u64>, n: nat) -> nat
    decreases n,
{
    if n == 0 {
        0
    } else {
        amounts_sum(amounts, (n - 1) as nat) + amounts[n - 1] as nat
    }
}

/// What goes with `amount` of a token whose reserve is `reference`, of
/// something of which there is `quantity`: the same proportion, rounded
/// down.
pub open spec fn in_proportion(amount: nat, quantity: nat, reference: nat) -> nat {
    (amount * quantity) / reference
}

/// Whether some weight is zero.
pub open spec fn has_zero_weight(weights: Seq<u64>) -> bool {
    exists|i: int| 0 <= i < weights.len() && weights[i] == 0
}

/// Whether the deposit into the token at `reference` asks for more of some
/// token than the caller offers.
pub open spec fn asks_too_much(reserves: Seq<u64>, amounts_in: Seq<u64>, reference: int) -> bool {
    exists|i: int|
        0 <= i < reserves.len() && #[trigger] in_proportion(
            amounts_in[reference] as nat,
            reserves[i] as nat,
            reserves[reference] as nat,
        ) > amounts_in[i]
}

/// The error of `quote_add_liquidity`, or `None` where it succeeds.
pub open spec fn add_liquidity_error(
    reserves: Seq<u64>,
    weights: Seq<u64>,
    total_supply: u64,
    fee_numerator: u64,
    fee_denominator: u64,
    amounts_in: Seq<u64>,
) -> Option<ErrorCode> {
    let reference = first_funded(reserves, 0);
    if reserves.len() == 0 || weights.len() != reserves.len() || amounts_in.len()
        != reserves.len() {
        Some(ErrorCode::InvalidTokenCount)
    } else if !fee_is_valid(fee_numerator, fee_denominator) {
        Some(ErrorCode::MathOverflow)
    } else if has_zero_weight(weights) {
        Some(ErrorCode::InvalidTokenCount)
    } else if reference == reserves.len() {
        None
    } else if asks_too_much(reserves, amounts_in, reference) {
        Some(ErrorCode::InsufficientTokenAmount)
    } else if in_proportion(
        amounts_in[reference] as nat,
        total_supply as nat,
        reserves[reference] as nat,
    ) > u64::MAX {
        Some(ErrorCode::MathOverflow)
    } else {
        None
    }
}

/// What `quote_add_liquidity` mints where it succeeds: into a pool without
/// reserves the mean of the amounts, rounded down; else the supply in the
/// proportion of the deposit into the first token that has a reserve.
pub open spec fn add_liquidity_minted(
    reserves: Seq<u64>,
    total_supply: u64,
    amounts_in: Seq<u64>,
) -> nat {
    let reference = first_funded(reserves, 0);
    if reference == reserves.len() {
        amounts_sum(amounts_in, amounts_in.len()) / reserves.len()
    } else {
        in_proportion(
            amounts_in[reference] as nat,
            total_supply as nat,
            reserves[reference] as nat,
        )
    }
}

/// What `quote_add_liquidity` takes of token `i` where it succeeds: into a
/// pool without reserves all that is offered; else the reserve of the token
/// in the proportion of the deposit into the first token that has a reserve.
pub open spec fn add_liquidity_used(reserves: Seq<u64>, amounts_in: Seq<u64>, i: int) -> nat {
    let reference = first_funded(reserves, 0);
    if reference == reserves.len() {
        amounts_in[i] as nat
    } else {
        in_proportion(
            amounts_in[reference] as nat,
            reserves[i] as nat,
            reserves[reference] as nat,
        )
    }
}

/// The error of `quote_remove_liquidity`, or `None` where it succeeds.
pub open spec fn remove_liquidity_error(
    reserves: Seq<u64>,
    total_supply: u64,
    fee_numerator: u64,
    fee_denominator: u64,
    burn_amount: u64,
) -> Option<ErrorCode> {
    if reserves.len() == 0 {
        Some(ErrorCode::InvalidTokenCount)
    } else if !fee_is_valid(fee_numerator, fee_denominator) {
        Some(ErrorCode::MathOverflow)
    } else if burn_amount > total_supply {
        Some(ErrorCode::MathOverflow)
    } else if total_supply == 0 {
        Some(ErrorCode::DivideByZero)
    } else {
        None
    }
}

/// From `from` on, the first reserve that is not zero is the one at `k`.
proof fn lemma_first_funded(reserves: Seq<u64>, from: int, k: int)
    requires
        0 <= from <= k <= reserves.len(),
        forall|j: int| from <= j < k ==> reserves[j] == 0,
        k < reserves.len() ==> reserves[k] != 0,
    ensures
        first_funded(reserves, from) == k,
    decreases k - from,
{
    if from < k {
        lemma_first_funded(reserves, from + 1, k);
    }
}

/// A sum of `n` amounts of 64 bits is below `n` times 2^64.
proof fn lemma_amounts_sum_bound(amounts: Seq<u64>, n: nat)
    ensures
        amounts_sum(amounts, n) <= n * u64::MAX,
    decreases n,
{
    if n > 0 {
        lemma_amounts_sum_bound(amounts, (n - 1) as nat);
        assert(n * u64::MAX == (n - 1) * u64::MAX + u64::MAX) by (nonlinear_arith);
    }
}

/// `amount * quantity / reference` in 128 bits.
fn proportion(amount: u64, quantity: u64, reference: u64) -> (r: u128)
    requires
        reference != 0,
    ensures
        r == in_proportion(amount as nat, quantity as nat, reference as nat),
{
    assert(amount * quantity <= u64::MAX * u64::MAX) by (nonlinear_arith)
        requires
            amount <= u64::MAX,
            quantity <= u64::MAX,
    ;
    ((amount as u128) * (quantity as u128)) / (reference as u128)
}

/// Whether some weight is zero.
pub fn any_zero_weight(weights: &[u64]) -> (r: bool)
    ensures
        r == has_zero_weight(weights@),
{
    let mut i: usize = 0;
    while i < weights.len()
        invariant
            i <= weights@.len(),
            forall|j: int| 0 <= j < i ==> weights@[j] != 0,
        decreases weights@.len() - i,
    {
        if weights[i] == 0 {
            return true;
        }
        i = i + 1;
    }
    false
}

/// The index of the first reserve that is not zero, or the number of
/// reserves where there is none.
fn reference_index(reserves: &[u64]) -> (r: usize)
    ensures
        r == first_funded(reserves@, 0),
        r <= reserves@.len(),
        r < reserves@.len() ==> reserves@[r as int] != 0,
{
    let mut i: usize = 0;
    while i < reserves.len()
        invariant
            i <= reserves@.len(),
            forall|j: int| 0 <= j < i ==> reserves@[j] == 0,
        decreases reserves@.len() - i,
    {
        if reserves[i] != 0 {
            proof {
                lemma_first_funded(reserves@, 0, i as int);
            }
            return i;
        }
        i = i + 1;
    }
    proof {
        lemma_first_funded(reserves@, 0, i as int);
    }
    i
}

/// The mean of the amounts, rounded down.
fn mean_amount(amounts: &[u64]) -> (r: u64)
    requires
        amounts@.len() > 0,
    ensures
        r == amounts_sum(amounts@, amounts@.len()) / amounts@.len(),
{
    let n = amounts.len();
    let mut sum: u128 = 0;
    let mut i: usize = 0;
    while i < n
        invariant
            i <= n == amounts@.len(),
            sum == amounts_sum(amounts@, i as nat),
            sum <= i * u64::MAX,
        decreases n - i,
    {
        proof {
            lemma_amounts_sum_bound(amounts@, (i + 1) as nat);
            assert((i + 1) * u64::MAX <= usize::MAX * u64::MAX) by (nonlinear_arith)
                requires
                    i + 1 <= usize::MAX,
            ;
        }
        sum = sum + amounts[i] as u128;
        i = i + 1;
    }
    proof {
        lemma_amounts_sum_bound(amounts@, n as nat);
        assert(sum / (n as u128) <= u64::MAX) by (nonlinear_arith)
            requires
                sum <= n * u64::MAX,
                n > 0,
        ;
    }
    (sum / (n as u128)) as u64
}

/// What a deposit of `amounts_in` mints and takes. Into a pool without
/// reserves everything offered is taken, and the mean of the amounts is
/// minted. Else the deposit into the first token that has a reserve sets
/// the proportion: of each token the reserve in that proportion is taken,
/// and the supply in that proportion is minted.
///
/// `InvalidTokenCount` for no token, lists of different lengths or a weight
/// of zero; `MathOverflow` for a fee that is not above 0 and at most 1, and
/// for a minted quantity above 64 bits; `InsufficientTokenAmount` where less
/// is offered of some token than is to be taken.
#[verifier::loop_isolation(false)]
pub fn quote_add_liquidity(
    reserves: &[u64],
    weights: &[u64],
    total_supply: u64,
    fee_numerator: u64,
    fee_denominator: u64,
    amounts_in: &[u64],
) -> (r: Result<AddLiquidityResult, ErrorCode>)
    ensures
        match r {
            Ok(quote) => {
                &&& add_liquidity_error(
                    reserves@,
                    weights@,
                    total_supply,
                    fee_numerator,
                    fee_denominator,
                    amounts_in@,
                ) is None
                &&& quote.lp_minted == add_liquidity_minted(reserves@, total_supply, amounts_in@)
                &&& quote.amounts_used@.len() == reserves@.len()
                &&& forall|i: int|
                    0 <= i < reserves@.len() ==> #[trigger] quote.amounts_used@[i]
                        == add_liquidity_used(reserves@, amounts_in@, i)
                &&& forall|i: int|
                    0 <= i < reserves@.len() ==> #[trigger] quote.amounts_used@[i]
                        <= amounts_in@[i]
            },
            Err(e) => add_liquidity_error(
                reserves@,
                weights@,
                total_supply,
                fee_numerator,
                fee_denominator,
                amounts_in@,
            ) == Some(e),
        },
{
    let n = reserves.len();
    if n == 0 || weights.len() != n || amounts_in.len() != n {
        return Err(ErrorCode::InvalidTokenCount);
    }
    if fee_numerator == 0 || fee_numerator > fee_denominator {
        return Err(ErrorCode::MathOverflow);
    }
    if any_zero_weight(weights) {
        return Err(ErrorCode::InvalidTokenCount);
    }
    let reference = reference_index(reserves);
    let mut amounts_used: Vec<u64> = Vec::new();
    if reference == n {
        // No reserves yet: there is no proportion to keep.
        let mut i: usize = 0;
        while i < n
            invariant
                i <= n == reserves@.len() == amounts_in@.len(),
                amounts_used@.len() == i,
                forall|j: int| 0 <= j < i ==> amounts_used@[j] == amounts_in@[j],
            decreases n - i,
        {
            amounts_used.push(amounts_in[i]);
            i = i + 1;
        }
        return Ok(AddLiquidityResult { lp_minted: mean_amount(amounts_in), amounts_used });
    }
    let reference_amount = amounts_in[reference];
    let reference_reserve = reserves[reference];
    let mut i: usize = 0;
    while i < n
        invariant
            i <= n == reserves@.len() == amounts_in@.len(),
            reference < n,
            reference_amount == amounts_in@[reference as int],
            reference_reserve == reserves@[reference as int],
            reference_reserve != 0,
            amounts_used@.len() == i,
            forall|j: int|
                0 <= j < i ==> #[trigger] amounts_used@[j] == in_proportion(
                    reference_amount as nat,
                    reserves@[j] as nat,
                    reference_reserve as nat,
                ),
            forall|j: int| 0 <= j < i ==> #[trigger] amounts_used@[j] <= amounts_in@[j],
        decreases n - i,
    {
        let required = proportion(reference_amount, reserves[i], reference_reserve);
        if required > amounts_in[i] as u128 {
            assert(asks_too_much(reserves@, amounts_in@, reference as int)) by {
                assert(in_proportion(
                    amounts_in@[reference as int] as nat,
                    reserves@[i as int] as nat,
                    reserves@[reference as int] as nat,
                ) > amounts_in@[i as int]);
            }
            return Err(ErrorCode::InsufficientTokenAmount);
        }
        amounts_used.push(required as u64);
        i = i + 1;
    }
    assert(!asks_too_much(reserves@, amounts_in@, reference as int)) by {
        assert forall|k: int| 0 <= k < reserves@.len() implies !(#[trigger] in_proportion(
            amounts_in@[reference as int] as nat,
            reserves@[k] as nat,
            reserves@[reference as int] as nat,
        ) > amounts_in@[k]) by {
            assert(amounts_used@[k] <= amounts_in@[k]);
        }
    }
    let minted = proportion(reference_amount, total_supply, reference_reserve);
    if minted > u64::MAX as u128 {
        return Err(ErrorCode::MathOverflow);
    }
    Ok(AddLiquidityResult { lp_minted: minted as u64, amounts_used })
}

/// What burning `burn_amount` liquidity tokens pays: of each token the
/// reserve in the proportion of the burnt quantity to the supply, rounded
/// down, less the fee on it, which is kept.
///
/// `InvalidTokenCount` for no token; `MathOverflow` for a fee that is not
/// above 0 and at most 1, and for burning more than the supply;
/// `DivideByZero` for a supply of zero.
#[verifier::loop_isolation(false)]
pub fn quote_remove_liquidity(
    reserves: &[u64],
    total_supply: u64,
    fee_numerator: u64,
    fee_denominator: u64,
    burn_amount: u64,
) -> (r: Result<RemoveLiquidityResult, ErrorCode>)
    ensures
        match r {
            Ok(quote) => {
                &&& remove_liquidity_error(
                    reserves@,
                    total_supply,
                    fee_numerator,
                    fee_denominator,
                    burn_amount,
                ) is None
                &&& quote.amounts_out@.len() == reserves@.len()
                &&& quote.burn_fees@.len() == reserves@.len()
                &&& forall|i: int|
                    0 <= i < reserves@.len() ==> (#[trigger] quote.burn_fees@[i]) == fee_of(
                        in_proportion(
                            reserves@[i] as nat,
                            burn_amount as nat,
                            total_supply as nat,
                        ),
                        fee_numerator as nat,
                        fee_denominator as nat,
                    )
                &&& forall|i: int|
                    0 <= i < reserves@.len() ==> (#[trigger] quote.amounts_out@[i])
                        + quote.burn_fees@[i] == in_proportion(
                        reserves@[i] as nat,
                        burn_amount as nat,
                        total_supply as nat,
                    )
                &&& forall|i: int|
                    0 <= i < reserves@.len() ==> (#[trigger] quote.amounts_out@[i])
                        + quote.burn_fees@[i] <= reserves@[i]
            },
            Err(e) => remove_liquidity_error(
                reserves@,
                total_supply,
                fee_numerator,
                fee_denominator,
                burn_amount,
            ) == Some(e),
        },
{
    let n = reserves.len();
    if n == 0 {
        return Err(ErrorCode::InvalidTokenCount);
    }
    if fee_numerator == 0 || fee_numerator > fee_denominator {
        return Err(ErrorCode::MathOverflow);
    }
    if burn_amount > total_supply {
        return Err(ErrorCode::MathOverflow);
    }
    if total_supply == 0 {
        return Err(ErrorCode::DivideByZero);
    }
    let mut amounts_out: Vec<u64> = Vec::new();
    let mut burn_fees: Vec<u64> = Vec::new();
    let mut i: usize = 0;
    while i < n
        invariant
            i <= n == reserves@.len(),
            0 < fee_numerator <= fee_denominator,
            burn_amount <= total_supply,
            total_supply != 0,
            amounts_out@.len() == i,
            burn_fees@.len() == i,
            forall|j: int|
                0 <= j < i ==> (#[trigger] burn_fees@[j]) == fee_of(
                    in_proportion(reserves@[j] as nat, burn_amount as nat, total_supply as nat),
                    fee_numerator as nat,
                    fee_denominator as nat,
                ),
            forall|j: int|
                0 <= j < i ==> (#[trigger] amounts_out@[j]) + burn_fees@[j] == in_proportion(
                    reserves@[j] as nat,
                    burn_amount as nat,
                    total_supply as nat,
                ),
            forall|j: int|
                0 <= j < i ==> (#[trigger] amounts_out@[j]) + burn_fees@[j] <= reserves@[j],
        decreases n - i,
    {
        let share = proportion(reserves[i], burn_amount, total_supply);
        proof {
            lemma_share_bound(reserves@[i as int] as nat, burn_amount as nat, total_supply as nat);
            lemma_share_bound(share as nat, fee_numerator as nat, fee_denominator as nat);
        }
        let (fee, rest) = match split_fee(share as u64, fee_numerator, fee_denominator) {
            Ok(parts) => parts,
            Err(e) => {
                return Err(e);
            },
        };
        amounts_out.push(rest);
        burn_fees.push(fee);
        i = i + 1;
    }
    Ok(RemoveLiquidityResult { amounts_out, burn_fees })
}

/// A part of a whole, taken of a quantity, is no more than the quantity.
pub proof fn lemma_share_bound(quantity: nat, part: nat, whole: nat)
    requires
        part <= whole,
        whole > 0,
    ensures
        in_proportion(quantity, part, whole) <= quantity,
{
    assert(quantity * part <= quantity * whole && quantity * whole == whole * quantity)
        by (nonlinear_arith)
        requires
            part <= whole,
    ;
    vstd::arithmetic::div_mod::lemma_div_is_ordered(
        (quantity * part) as int,
        (quantity * whole) as int,
        whole as int,
    );
    vstd::arithmetic::div_mod::lemma_div_multiples_vanish(quantity as int, whole as int);
}

/// Burning what a deposit minted never pays more than the deposit took, and
/// pays exactly that where the minted quantity was not rounded; where the
/// reserve of the token is no more than the new supply it pays at most one
/// unit less.
///
/// `amount` is the deposit into the token whose reserve `reference` sets the
/// proportion, `reserve` the reserve of any token of the pool and `supply`
/// the supply of the liquidity token, all before the deposit.
pub proof fn lemma_remove_inverts_add(amount: nat, reference: nat, reserve: nat, supply: nat)
    requires
        reference > 0,
        supply + in_proportion(amount, supply, reference) > 0,
    ensures
        ({
            let used = in_proportion(amount, reserve, reference);
            let minted = in_proportion(amount, supply, reference);
            let paid = in_proportion(reserve + used, minted, supply + minted);
            &&& paid <= used
            &&& (amount * supply) % reference == 0 ==> paid == used
            &&& reserve <= supply + minted ==> paid + 1 >= used
        }),
{
    let used = in_proportion(amount, reserve, reference);
    let minted = in_proportion(amount, supply, reference);
    let whole = supply + minted;
    let paid = in_proportion(reserve + used, minted, whole);
    let a = amount as int;
    let f = reference as int;
    let v = reserve as int;
    let s = supply as int;
    let u = used as int;
    let l = minted as int;
    let w = whole as int;
    vstd::arithmetic::div_mod::lemma_fundamental_div_mod(a * v, f);
    vstd::arithmetic::div_mod::lemma_fundamental_div_mod(a * s, f);
    vstd::arithmetic::div_mod::lemma_mod_bound(a * v, f);
    vstd::arithmetic::div_mod::lemma_mod_bound(a * s, f);
    let x = (v + u) * l;
    vstd::arithmetic::div_mod::lemma_fundamental_div_mod(x, w);
    vstd::arithmetic::div_mod::lemma_mod_bound(x, w);
    assert(paid == x / w);
    // used * f <= a * v < (used + 1) * f and minted * f <= a * s.
    assert(u * f <= a * v < (u + 1) * f && l * f <= a * s < (l + 1) * f) by (nonlinear_arith)
        requires
            a * v == f * u + (a * v) % f,
            a * s == f * l + (a * s) % f,
            0 <= (a * v) % f < f,
            0 <= (a * s) % f < f,
    ;
    // So v * minted < (used + 1) * s, unless s is zero and minted with it.
    assert(v * l <= (u + 1) * s) by (nonlinear_arith)
        requires
            a * v < (u + 1) * f,
            l * f <= a * s,
            f > 0,
            v >= 0,
            s >= 0,
            l >= 0,
            u >= 0,
    ;
    assert(x < (u + 1) * w) by (nonlinear_arith)
        requires
            x == (v + u) * l,
            w == s + l,
            v * l <= (u + 1) * s,
            a * v < (u + 1) * f,
            l * f <= a * s,
            f > 0,
            w > 0,
            v >= 0,
            s >= 0,
            l >= 0,
            u >= 0,
    ;
    assert(x / w <= u) by (nonlinear_arith)
        requires
            x == w * (x / w) + x % w,
            0 <= x % w,
            x < (u + 1) * w,
            w > 0,
    ;
    if (a * s) % f == 0 {
        assert(u * s <= v * l) by (nonlinear_arith)
            requires
                u * f <= a * v,
                l * f == a * s,
                f > 0,
                s >= 0,
                u >= 0,
        ;
        assert(x >= u * w) by (nonlinear_arith)
            requires
                x == (v + u) * l,
                w == s + l,
                u * s <= v * l,
        ;
        assert(x / w >= u) by (nonlinear_arith)
            requires
                x == w * (x / w) + x % w,
                x % w < w,
                x >= u * w,
                w > 0,
        ;
    }
    if v <= w {
        assert(u * s <= v * (l + 1)) by (nonlinear_arith)
            requires
                u * f <= a * v,
                a * s < (l + 1) * f,
                f > 0,
                s >= 0,
                v >= 0,
                u >= 0,
                l >= 0,
        ;
        assert(x >= (u - 1) * w) by (nonlinear_arith)
            requires
                x == (v + u) * l,
                w == s + l,
                u * s <= v * (l + 1),
                v <= w,
        ;
        assert(x / w >= u - 1) by (nonlinear_arith)
            requires
                x == w * (x / w) + x % w,
                x % w < w,
                x >= (u - 1) * w,
                w > 0,
        ;
    }
}

/// Burning all that the first deposit into a pool minted pays back the
/// whole deposit.
pub proof fn lemma_remove_inverts_first_add(amount: nat, minted: nat)
    requires
        minted > 0,
    ensures
        in_proportion(amount, minted, minted) == amount,
{
    assert(amount * minted == minted * amount) by (nonlinear_arith);
    vstd::arithmetic::div_mod::lemma_div_multiples_vanish(amount as int, minted as int);
}

} // verus!

//! Adding liquidity: all tokens of the pool, in the proportion of its
//! reserves.

use crate::error::ErrorCode;
use crate::instructions::accounts::{
    check_owners, has_pairs, is_paired, owners_are_valid, pool_weights, read_vaults,
    vault_amounts, vaults_are_valid, TokenAccount,
};
use crate::state::item::Pubkey;
use crate::state::liquidity::{
    add_liquidity_error, add_liquidity_minted, add_liquidity_used, quote_add_liquidity,
    AddLiquidityResult,
};
use crate::state::pool::AnySwapPool;
use vstd::prelude::*;

verus! {

/// What a deposit takes of each token, where the quote succeeds.
pub open spec fn add_liquidity_amounts(reserves: Seq<u64>, amounts_in: Seq<u64>) -> Seq<u64> {
    Seq::new(reserves.len(), |i: int| add_liquidity_used(reserves, amounts_in, i) as u64)
}

/// The error of `add_liquidity`, or `None` where it succeeds.
pub open spec fn add_liquidity_plan_error(
    pool: AnySwapPool,
    pool_authority: Seq<u8>,
    owner: Seq<u8>,
    accounts: Seq<TokenAccount>,
    amounts_in: Seq<u64>,
) -> Option<ErrorCode> {
    let n = pool.token_count as nat;
    let reserves = vault_amounts(accounts, n);
    let quote_error = add_liquidity_error(
        reserves,
        pool_weights(pool),
        pool.total_amount_minted,
        pool.fee_numerator,
        pool.fee_denominator,
        amounts_in,
    );
    if n == 0 || amounts_in.len() != n || !is_paired(accounts, n) {
        Some(ErrorCode::InvalidTokenCount)
    } else if !vaults_are_valid(pool, pool_authority, accounts) {
        Some(ErrorCode::InvalidTokenMint)
    } else if quote_error is Some {
        quote_error
    } else if pool.total_amount_minted + add_liquidity_minted(
        reserves,
        pool.total_amount_minted,
        amounts_in,
    ) > u64::MAX {
        Some(ErrorCode::MathOverflow)
    } else if !owners_are_valid(owner, accounts, add_liquidity_amounts(reserves, amounts_in)) {
        Some(ErrorCode::InvalidTokenMint)
    } else {
        None
    }
}

/// Decides a deposit of `amounts_in`, one amount for each token of the pool
/// in its order, and raises the supply of the liquidity token by what is
/// minted. The caller then mints `lp_minted` to the user and moves
/// `amounts_used` from the user into the vaults, skipping amounts of zero.
///
/// `InvalidTokenCount` for a pool without tokens, not one amount for each
/// token or not one pair of accounts for each; `InvalidTokenMint` for a
/// vault that is not the token's or not held by the authority of the pool,
/// and for an account of the user, of a token that is taken, that is not
/// the owner's; `MathOverflow` where the new supply does not fit 64 bits;
/// else the errors of `quote_add_liquidity`. On an error the pool is
/// unchanged.
pub fn add_liquidity(
    pool: &mut AnySwapPool,
    pool_authority: &Pubkey,
    owner: &Pubkey,
    accounts: &[TokenAccount],
    amounts_in: &[u64],
) -> (r: Result<AddLiquidityResult, ErrorCode>)
    requires
        old(pool).wf(),
    ensures
        final(pool).wf(),
        match r {
            Ok(quote) => {
                let reserves = vault_amounts(accounts@, old(pool).token_count as nat);
                &&& add_liquidity_plan_error(
                    *old(pool),
                    pool_authority@,
                    owner@,
                    accounts@,
                    amounts_in@,
                ) is None
                &&& quote.lp_minted == add_liquidity_minted(
                    reserves,
                    old(pool).total_amount_minted,
                    amounts_in@,
                )
                &&& quote.amounts_used@ == add_liquidity_amounts(reserves, amounts_in@)
                &&& *final(pool) == (AnySwapPool {
                    total_amount_minted: (old(pool).total_amount_minted + quote.lp_minted) as u64,
                    ..*old(pool)
                })
            },
            Err(e) => add_liquidity_plan_error(
                *old(pool),
                pool_authority@,
                owner@,
                accounts@,
                amounts_in@,
            ) == Some(e) && *final(pool) == *old(pool),
        },
{
    let token_count = pool.get_token_count();
    if token_count == 0 || amounts_in.len() != token_count || !has_pairs(accounts, token_count) {
        return Err(ErrorCode::InvalidTokenCount);
    }
    let (reserves, weights) = match read_vaults(pool, pool_authority, accounts) {
        Some(read) => read,
        None => {
            return Err(ErrorCode::InvalidTokenMint);
        },
    };
    let total_lp_supply = pool.get_total_amount_minted();
    let result = quote_add_liquidity(
        reserves.as_slice(),
        weights.as_slice(),
        total_lp_supply,
        pool.get_fee_numerator(),
        pool.get_fee_denominator(),
        amounts_in,
    )?;
    assert(result.amounts_used@ =~= add_liquidity_amounts(reserves@, amounts_in@));
    let new_total = match total_lp_supply.checked_add(result.lp_minted) {
        Some(total) => total,
        None => {
            return Err(ErrorCode::MathOverflow);
        },
    };
    if !check_owners(owner, accounts, result.amounts_used.as_slice()) {
        return Err(ErrorCode::InvalidTokenMint);
    }
    pool.set_total_amount_minted(new_total);
    Ok(result)
}

} // verus!

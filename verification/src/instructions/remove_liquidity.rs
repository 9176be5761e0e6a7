//! Removing liquidity: a share of every token of the pool for liquidity
//! tokens that are burnt.

use crate::error::ErrorCode;
use crate::instructions::accounts::{
    check_owners, has_pairs, is_paired, owners_are_valid, read_vaults, vault_amounts,
    vaults_are_valid, TokenAccount,
};
use crate::state::item::Pubkey;
use crate::state::liquidity::{
    in_proportion, quote_remove_liquidity, remove_liquidity_error, RemoveLiquidityResult,
};
use crate::state::pool::{fee_of, AnySwapPool};
use vstd::prelude::*;

verus! {

/// The fee kept of each token where `burn_amount` of the supply is burnt.
pub open spec fn remove_liquidity_fees(
    reserves: Seq<u64>,
    total_supply: u64,
    fee_numerator: u64,
    fee_denominator: u64,
    burn_amount: u64,
) -> Seq<u64> {
    Seq::new(
        reserves.len(),
        |i: int|
            fee_of(
                in_proportion(reserves[i] as nat, burn_amount as nat, total_supply as nat),
                fee_numerator as nat,
                fee_denominator as nat,
            ) as u64,
    )
}

/// What is paid of each token where `burn_amount` of the supply is burnt:
/// the share less the fee.
pub open spec fn remove_liquidity_amounts(
    reserves: Seq<u64>,
    total_supply: u64,
    fee_numerator: u64,
    fee_denominator: u64,
    burn_amount: u64,
) -> Seq<u64> {
    Seq::new(
        reserves.len(),
        |i: int|
            (in_proportion(reserves[i] as nat, burn_amount as nat, total_supply as nat) - fee_of(
                in_proportion(reserves[i] as nat, burn_amount as nat, total_supply as nat),
                fee_numerator as nat,
                fee_denominator as nat,
            )) as u64,
    )
}

/// The error of `remove_liquidity`, or `None` where it succeeds.
pub open spec fn remove_liquidity_plan_error(
    pool: AnySwapPool,
    pool_authority: Seq<u8>,
    owner: Seq<u8>,
    user_pool_amount: u64,
    accounts: Seq<TokenAccount>,
    burn_amount: u64,
) -> Option<ErrorCode> {
    let n = pool.token_count as nat;
    let reserves = vault_amounts(accounts, n);
    let quote_error = remove_liquidity_error(
        reserves,
        pool.total_amount_minted,
        pool.fee_numerator,
        pool.fee_denominator,
        burn_amount,
    );
    if user_pool_amount < burn_amount {
        Some(ErrorCode::InsufficientTokenAmount)
    } else if n == 0 {
        Some(ErrorCode::InvalidTokenCount)
    } else if pool.total_amount_minted < burn_amount {
        Some(ErrorCode::MathOverflow)
    } else if !is_paired(accounts, n) {
        Some(ErrorCode::InvalidTokenCount)
    } else if !vaults_are_valid(pool, pool_authority, accounts) {
        Some(ErrorCode::InvalidTokenMint)
    } else if quote_error is Some {
        quote_error
    } else if !owners_are_valid(
        owner,
        accounts,
        remove_liquidity_amounts(
            reserves,
            pool.total_amount_minted,
            pool.fee_numerator,
            pool.fee_denominator,
            burn_amount,
        ),
    ) {
        Some(ErrorCode::InvalidTokenMint)
    } else {
        None
    }
}

/// Decides the removal of liquidity for `burn_amount` liquidity tokens, of
/// which the user holds `user_pool_amount`, and lowers the supply by what
/// is burnt. The caller then moves `amounts_out` from the vaults to the
/// user, skipping amounts of zero, and burns the liquidity tokens.
///
/// `InsufficientTokenAmount` where the user holds less than is to be burnt;
/// `InvalidTokenCount` for a pool without tokens or not one pair of accounts
/// for each token; `MathOverflow` where more is to be burnt than the supply;
/// `InvalidTokenMint` for a vault that is not the token's or not held by the
/// authority of the pool, and for an account of the user, of a token that
/// is paid, that is not the owner's; else the errors of
/// `quote_remove_liquidity`. On an error the pool is unchanged.
pub fn remove_liquidity(
    pool: &mut AnySwapPool,
    pool_authority: &Pubkey,
    owner: &Pubkey,
    user_pool_amount: u64,
    accounts: &[TokenAccount],
    burn_amount: u64,
) -> (r: Result<RemoveLiquidityResult, ErrorCode>)
    requires
        old(pool).wf(),
    ensures
        final(pool).wf(),
        match r {
            Ok(quote) => {
                let reserves = vault_amounts(accounts@, old(pool).token_count as nat);
                &&& remove_liquidity_plan_error(
                    *old(pool),
                    pool_authority@,
                    owner@,
                    user_pool_amount,
                    accounts@,
                    burn_amount,
                ) is None
                &&& quote.amounts_out@ == remove_liquidity_amounts(
                    reserves,
                    old(pool).total_amount_minted,
                    old(pool).fee_numerator,
                    old(pool).fee_denominator,
                    burn_amount,
                )
                &&& quote.burn_fees@ == remove_liquidity_fees(
                    reserves,
                    old(pool).total_amount_minted,
                    old(pool).fee_numerator,
                    old(pool).fee_denominator,
                    burn_amount,
                )
                &&& *final(pool) == (AnySwapPool {
                    total_amount_minted: (old(pool).total_amount_minted - burn_amount) as u64,
                    ..*old(pool)
                })
            },
            Err(e) => remove_liquidity_plan_error(
                *old(pool),
                pool_authority@,
                owner@,
                user_pool_amount,
                accounts@,
                burn_amount,
            ) == Some(e) && *final(pool) == *old(pool),
        },
{
    if user_pool_amount < burn_amount {
        return Err(ErrorCode::InsufficientTokenAmount);
    }
    let token_count = pool.get_token_count();
    if token_count == 0 {
        return Err(ErrorCode::InvalidTokenCount);
    }
    let total_minted = pool.get_total_amount_minted();
    if total_minted < burn_amount {
        return Err(ErrorCode::MathOverflow);
    }
    if !has_pairs(accounts, token_count) {
        return Err(ErrorCode::InvalidTokenCount);
    }
    let (reserves, _) = match read_vaults(pool, pool_authority, accounts) {
        Some(read) => read,
        None => {
            return Err(ErrorCode::InvalidTokenMint);
        },
    };
    let result = quote_remove_liquidity(
        reserves.as_slice(),
        total_minted,
        pool.get_fee_numerator(),
        pool.get_fee_denominator(),
        burn_amount,
    )?;
    assert(result.burn_fees@ =~= remove_liquidity_fees(
        reserves@,
        total_minted,
        pool.fee_numerator,
        pool.fee_denominator,
        burn_amount,
    ));
    assert(result.amounts_out@ =~= remove_liquidity_amounts(
        reserves@,
        total_minted,
        pool.fee_numerator,
        pool.fee_denominator,
        burn_amount,
    )) by {
        assert forall|i: int| 0 <= i < reserves@.len() implies result.amounts_out@[i]
            == remove_liquidity_amounts(
            reserves@,
            total_minted,
            pool.fee_numerator,
            pool.fee_denominator,
            burn_amount,
        )[i] by {
            assert(result.amounts_out@[i] + result.burn_fees@[i] == in_proportion(
                reserves@[i] as nat,
                burn_amount as nat,
                total_minted as nat,
            ));
        }
    }
    if !check_owners(owner, accounts, result.amounts_out.as_slice()) {
        return Err(ErrorCode::InvalidTokenMint);
    }
    pool.set_total_amount_minted(total_minted - burn_amount);
    Ok(result)
}

} // verus!

//! Adding a token to a pool.

use crate::error::ErrorCode;
use crate::state::item::{AnySwapItem, Pubkey};
use crate::state::pool::{AnySwapPool, MAX_TOKENS};
use vstd::prelude::*;

verus! {

/// The error of `add_token_to_pool`, or `None` where it succeeds.
pub open spec fn add_token_error(
    pool: AnySwapPool,
    admin: Seq<u8>,
    mint: Seq<u8>,
    admin_token_amount: u64,
    weight: u64,
    liquidity: u64,
) -> Option<ErrorCode> {
    if pool.first_with_mint(mint, 0) < pool.token_count {
        Some(ErrorCode::InvalidTokenMint)
    } else if admin != pool.admin@ {
        Some(ErrorCode::InvalidAdmin)
    } else if weight == 0 {
        Some(ErrorCode::InvalidTokenCount)
    } else if liquidity > admin_token_amount {
        Some(ErrorCode::InsufficientTokenAmount)
    } else if pool.token_count >= MAX_TOKENS {
        Some(ErrorCode::MaxTokensReached)
    } else {
        None
    }
}

/// Adds the token with the mint `mint` and the vault `vault` to the pool and
/// returns its index; the caller then moves `liquidity` from the account of
/// the administrator, which holds `admin_token_amount`, into the vault.
///
/// `InvalidTokenMint` where the pool has the token already, `InvalidAdmin`
/// where `admin` is not the administrator, `InvalidTokenCount` for the
/// weight zero, `InsufficientTokenAmount` where the administrator holds less
/// than `liquidity`, `MaxTokensReached` where the pool is full; the pool is
/// then unchanged.
pub fn add_token_to_pool(
    pool: &mut AnySwapPool,
    admin: &Pubkey,
    mint: &Pubkey,
    vault: &Pubkey,
    admin_token_amount: u64,
    weight: u64,
    liquidity: u64,
) -> (r: Result<usize, ErrorCode>)
    requires
        old(pool).wf(),
    ensures
        final(pool).wf(),
        match r {
            Ok(index) => {
                &&& add_token_error(
                    *old(pool),
                    admin@,
                    mint@,
                    admin_token_amount,
                    weight,
                    liquidity,
                ) is None
                &&& index == old(pool).token_count
                &&& final(pool).token_count == old(pool).token_count + 1
                &&& final(pool).tokens@ == old(pool).tokens@.update(
                    index as int,
                    AnySwapItem { vault_account: *vault, mint_account: *mint, weight },
                )
                &&& *final(pool) == (AnySwapPool {
                    token_count: final(pool).token_count,
                    tokens: final(pool).tokens,
                    ..*old(pool)
                })
            },
            Err(e) => add_token_error(
                *old(pool),
                admin@,
                mint@,
                admin_token_amount,
                weight,
                liquidity,
            ) == Some(e) && *final(pool) == *old(pool),
        },
{
    if pool.find_token_index(mint).is_some() {
        return Err(ErrorCode::InvalidTokenMint);
    }
    pool.verify_admin(admin)?;
    if weight == 0 {
        return Err(ErrorCode::InvalidTokenCount);
    }
    if liquidity > 0 && admin_token_amount < liquidity {
        return Err(ErrorCode::InsufficientTokenAmount);
    }
    pool.add_token(mint, vault, weight)
}

} // verus!

//! Removing a token from a pool.

use crate::error::ErrorCode;
use crate::instructions::accounts::TokenAccount;
use crate::state::item::{same_key, Pubkey};
use crate::state::pool::AnySwapPool;
use vstd::prelude::*;

verus! {

/// The error of `remove_token_from_pool`, or `None` where it succeeds.
pub open spec fn remove_token_error(
    pool: AnySwapPool,
    admin: Seq<u8>,
    mint: Seq<u8>,
    vault: TokenAccount,
) -> Option<ErrorCode> {
    let index = pool.first_with_mint(mint, 0);
    if admin != pool.admin@ {
        Some(ErrorCode::InvalidAdmin)
    } else if vault.amount != 0 {
        Some(ErrorCode::InsufficientTokenAmount)
    } else if index == pool.token_count {
        Some(ErrorCode::InvalidTokenMint)
    } else if vault.key@ != pool.tokens@[index].vault_account@ {
        Some(ErrorCode::InvalidTokenMint)
    } else {
        None
    }
}

/// Takes the token with the mint `mint` out of the pool and returns the
/// index it had: the last token moves to its place. The caller then closes
/// the vault.
///
/// `InvalidAdmin` where `admin` is not the administrator,
/// `InsufficientTokenAmount` where the vault is not empty,
/// `InvalidTokenMint` where the pool has no such token or `vault` is not
/// its vault; the pool is then unchanged.
pub fn remove_token_from_pool(
    pool: &mut AnySwapPool,
    admin: &Pubkey,
    mint: &Pubkey,
    vault: &TokenAccount,
) -> (r: Result<usize, ErrorCode>)
    requires
        old(pool).wf(),
    ensures
        final(pool).wf(),
        match r {
            Ok(index) => {
                &&& remove_token_error(*old(pool), admin@, mint@, *vault) is None
                &&& index == old(pool).first_with_mint(mint@, 0)
                &&& final(pool).token_count == old(pool).token_count - 1
                &&& final(pool).tokens@ == old(pool).tokens@.update(
                    index as int,
                    old(pool).tokens@[old(pool).token_count - 1],
                )
                &&& *final(pool) == (AnySwapPool {
                    token_count: final(pool).token_count,
                    tokens: final(pool).tokens,
                    ..*old(pool)
                })
            },
            Err(e) => remove_token_error(*old(pool), admin@, mint@, *vault) == Some(e)
                && *final(pool) == *old(pool),
        },
{
    pool.verify_admin(admin)?;
    if vault.amount != 0 {
        return Err(ErrorCode::InsufficientTokenAmount);
    }
    let token_index = match pool.find_token_index(mint) {
        Some(i) => i,
        None => {
            return Err(ErrorCode::InvalidTokenMint);
        },
    };
    if !same_key(&vault.key, &pool.tokens[token_index].vault_account) {
        return Err(ErrorCode::InvalidTokenMint);
    }
    pool.remove_token(mint)
}

} // verus!

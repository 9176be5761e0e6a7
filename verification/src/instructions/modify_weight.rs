//! Changing the weight of a token.

use crate::error::ErrorCode;
use crate::state::item::{AnySwapItem, Pubkey};
use crate::state::pool::AnySwapPool;
use vstd::prelude::*;

verus! {

/// The error of `modify_token_weight`, or `None` where it succeeds.
pub open spec fn modify_weight_error(
    pool: AnySwapPool,
    admin: Seq<u8>,
    mint: Seq<u8>,
    new_weight: u64,
) -> Option<ErrorCode> {
    if new_weight == 0 {
        Some(ErrorCode::InvalidTokenCount)
    } else if admin != pool.admin@ {
        Some(ErrorCode::InvalidAdmin)
    } else if pool.first_with_mint(mint, 0) == pool.token_count {
        Some(ErrorCode::InvalidTokenMint)
    } else {
        None
    }
}

/// Sets the weight of the token with the mint `mint` and returns the weight
/// it had. `InvalidTokenCount` for the weight zero, `InvalidAdmin` where
/// `admin` is not the administrator, `InvalidTokenMint` where the pool has
/// no such token; the pool is then unchanged.
pub fn modify_token_weight(
    pool: &mut AnySwapPool,
    admin: &Pubkey,
    mint: &Pubkey,
    new_weight: u64,
) -> (r: Result<u64, ErrorCode>)
    requires
        old(pool).wf(),
    ensures
        final(pool).wf(),
        match r {
            Ok(old_weight) => {
                let index = old(pool).first_with_mint(mint@, 0);
                &&& modify_weight_error(*old(pool), admin@, mint@, new_weight) is None
                &&& old_weight == old(pool).tokens@[index].weight
                &&& final(pool).tokens@ == old(pool).tokens@.update(
                    index,
                    AnySwapItem { weight: new_weight, ..old(pool).tokens@[index] },
                )
                &&& *final(pool) == (AnySwapPool { tokens: final(pool).tokens, ..*old(pool) })
            },
            Err(e) => modify_weight_error(*old(pool), admin@, mint@, new_weight) == Some(e)
                && *final(pool) == *old(pool),
        },
{
    if new_weight == 0 {
        return Err(ErrorCode::InvalidTokenCount);
    }
    pool.verify_admin(admin)?;
    let token_index = match pool.find_token_index(mint) {
        Some(i) => i,
        None => {
            return Err(ErrorCode::InvalidTokenMint);
        },
    };
    let old_weight = pool.tokens[token_index].get_weight();
    let mut item = pool.tokens[token_index];
    item.set_weight(new_weight);
    pool.tokens[token_index] = item;
    Ok(old_weight)
}

} // verus!

//! Creating a pool.

use crate::error::ErrorCode;
use crate::state::item::Pubkey;
use crate::state::pool::{fee_is_valid, AnySwapPool};
use vstd::prelude::*;

verus! {

/// A new pool without tokens, administered by `admin`; `MathOverflow` where
/// the fee is not above 0 and at most 1.
pub fn create_pool(admin: &Pubkey, fee_numerator: u64, fee_denominator: u64) -> (r: Result<
    AnySwapPool,
    ErrorCode,
>)
    ensures
        match r {
            Ok(pool) => fee_is_valid(fee_numerator, fee_denominator) && pool.wf()
                && pool.token_count == 0 && pool.admin == *admin && pool.total_amount_minted == 0
                && pool.fee_numerator == fee_numerator && pool.fee_denominator
                == fee_denominator,
            Err(e) => !fee_is_valid(fee_numerator, fee_denominator) && e
                == ErrorCode::MathOverflow,
        },
{
    AnySwapPool::new(admin, fee_numerator, fee_denominator)
}

} // verus!

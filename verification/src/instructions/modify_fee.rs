//! Changing the fee of a pool.

use crate::error::ErrorCode;
use crate::state::item::Pubkey;
use crate::state::pool::{fee_is_valid, AnySwapPool};
use vstd::prelude::*;

verus! {

/// The error of `modify_fee`, or `None` where it succeeds.
pub open spec fn modify_fee_error(
    pool: AnySwapPool,
    admin: Seq<u8>,
    fee_numerator: u64,
    fee_denominator: u64,
) -> Option<ErrorCode> {
    if fee_denominator == 0 || fee_numerator > fee_denominator {
        Some(ErrorCode::MathOverflow)
    } else if admin != pool.admin@ {
        Some(ErrorCode::InvalidAdmin)
    } else if fee_numerator == 0 {
        Some(ErrorCode::MathOverflow)
    } else {
        None
    }
}

/// Sets the fee of the pool, which every later quote uses. `MathOverflow`
/// where the fee is not above 0 and at most 1, `InvalidAdmin` where `admin`
/// is not the administrator; the pool is then unchanged.
pub fn modify_fee(
    pool: &mut AnySwapPool,
    admin: &Pubkey,
    fee_numerator: u64,
    fee_denominator: u64,
) -> (r: Result<(), ErrorCode>)
    ensures
        match r {
            Ok(_) => {
                &&& modify_fee_error(*old(pool), admin@, fee_numerator, fee_denominator) is None
                &&& fee_is_valid(fee_numerator, fee_denominator)
                &&& *final(pool) == (AnySwapPool { fee_numerator, fee_denominator, ..*old(pool) })
            },
            Err(e) => modify_fee_error(*old(pool), admin@, fee_numerator, fee_denominator)
                == Some(e) && *final(pool) == *old(pool),
        },
{
    if fee_denominator == 0 || fee_numerator > fee_denominator {
        return Err(ErrorCode::MathOverflow);
    }
    pool.verify_admin(admin)?;
    if fee_numerator == 0 {
        return Err(ErrorCode::MathOverflow);
    }
    pool.set_fee(fee_numerator, fee_denominator);
    Ok(())
}

} // verus!

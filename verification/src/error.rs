use vstd::prelude::*;

verus! {

/// Every way in which an operation of this crate can fail.
#[derive(Clone, Copy, Debug, PartialEq, Eq, Structural)]
pub enum ErrorCode {
    /// A result does not fit its type, or an argument lies outside the
    /// domain of the function.
    MathOverflow,
    /// An unsigned subtraction would go below zero.
    MathUnderflow,
    /// The divisor is zero.
    DivideByZero,
    /// The signer is not the administrator of the pool.
    InvalidAdmin,
    /// The pool already holds the largest number of tokens it can.
    MaxTokensReached,
    /// A list has the wrong length, or a weight is zero.
    InvalidTokenCount,
    /// A token index lies outside the pool.
    InvalidTokenIndex,
    /// A swap names the same token on both sides.
    SameTokenSwap,
    /// An account does not belong to the token it was given for.
    InvalidTokenMint,
    /// The caller offers or holds less than the operation needs.
    InsufficientTokenAmount,
    /// The pool holds less than the operation would pay out.
    InsufficientLiquidity,
}

} // verus!

//! The pool: its tokens, its fee and the supply of its liquidity token.

use crate::error::ErrorCode;
use crate::state::item::{same_key, AnySwapItem, Pubkey};
use vstd::prelude::*;

verus! {

/// The largest number of tokens in one pool.
pub const MAX_TOKENS: usize = 1024;

/// A pool of tokens. Only the first `token_count` entries of `tokens` are
/// in use.
#[derive(Debug, Clone, Copy)]
pub struct AnySwapPool {
    /// The number of tokens in use.
    pub token_count: u16,
    /// Unused bytes that keep the stored form aligned.
    pub padding: [u8; 6],
    /// The administrator, who alone may change the pool.
    pub admin: Pubkey,
    /// The supply of the liquidity token.
    pub total_amount_minted: u64,
    /// The fee is `fee_numerator / fee_denominator`.
    pub fee_numerator: u64,
    pub fee_denominator: u64,
    /// The tokens.
    pub tokens: [AnySwapItem; MAX_TOKENS],
}

/// Whether `numerator / denominator` is a fee: above 0 and at most 1.
pub open spec fn fee_is_valid(numerator: u64, denominator: u64) -> bool {
    0 < numerator <= denominator
}

/// The part `numerator / denominator` of `amount`, rounded down.
pub open spec fn fee_of(amount: nat, numerator: nat, denominator: nat) -> nat {
    (amount * numerator) / denominator
}

/// The sum of `reserves[i] * weight of token i` over the first `n` tokens.
pub open spec fn weighted_sum(tokens: Seq<AnySwapItem>, reserves: Seq<u64>, n: nat) -> nat
    decreases n,
{
    if n == 0 {
        0
    } else {
        weighted_sum(tokens, reserves, (n - 1) as nat) + (reserves[n - 1] as nat) * (tokens[n
            - 1].weight as nat)
    }
}

impl AnySwapPool {
    /// The pool is well formed: no more tokens than fit, each with a weight
    /// above zero.
    pub open spec fn wf(&self) -> bool {
        &&& self.token_count <= MAX_TOKENS
        &&& forall|i: int| 0 <= i < self.token_count ==> (#[trigger] self.tokens@[i]).weight > 0
    }

    /// Whether token `i` is in use and has the mint `mint`.
    pub open spec fn has_mint_at(&self, i: int, mint: Seq<u8>) -> bool {
        0 <= i < self.token_count && self.tokens@[i].mint_account@ == mint
    }

    /// The index of the first token in use from `from` on with the mint
    /// `mint`, or the number of tokens in use where there is none.
    pub open spec fn first_with_mint(&self, mint: Seq<u8>, from: int) -> int
        decreases self.token_count - from,
    {
        if from >= self.token_count {
            self.token_count as int
        } else if self.tokens@[from].mint_account@ == mint {
            from
        } else {
            self.first_with_mint(mint, from + 1)
        }
    }

    /// From `from` on, the first token with the mint `mint` is the one at
    /// `k`.
    proof fn lemma_first_with_mint(&self, mint: Seq<u8>, from: int, k: int)
        requires
            0 <= from <= k <= self.token_count,
            forall|j: int| from <= j < k ==> !self.has_mint_at(j, mint),
            k < self.token_count ==> self.has_mint_at(k, mint),
        ensures
            self.first_with_mint(mint, from) == k,
        decreases k - from,
    {
        if from < k {
            assert(!self.has_mint_at(from, mint));
            self.lemma_first_with_mint(mint, from + 1, k);
        }
    }

    /// Whether the pool is well formed.
    pub fn is_well_formed(&self) -> (r: bool)
        ensures
            r == self.wf(),
    {
        let count = self.token_count as usize;
        if count > MAX_TOKENS {
            return false;
        }
        let mut i: usize = 0;
        while i < count
            invariant
                i <= count == self.token_count <= MAX_TOKENS,
                forall|j: int| 0 <= j < i ==> (#[trigger] self.tokens@[j]).weight > 0,
            decreases count - i,
        {
            if self.tokens[i].weight == 0 {
                return false;
            }
            i = i + 1;
        }
        true
    }

    /// A pool without tokens and without supply; `MathOverflow` where the
    /// fee is not above 0 and at most 1.
    pub fn new(admin: &Pubkey, fee_numerator: u64, fee_denominator: u64) -> (r: Result<
        AnySwapPool,
        ErrorCode,
    >)
        ensures
            match r {
                Ok(pool) => fee_is_valid(fee_numerator, fee_denominator) && pool.wf()
                    && pool.token_count == 0 && pool.admin == *admin && pool.total_amount_minted
                    == 0 && pool.fee_numerator == fee_numerator && pool.fee_denominator
                    == fee_denominator,
                Err(e) => !fee_is_valid(fee_numerator, fee_denominator) && e
                    == ErrorCode::MathOverflow,
            },
    {
        if fee_numerator == 0 || fee_numerator > fee_denominator {
            return Err(ErrorCode::MathOverflow);
        }
        Ok(
            AnySwapPool {
                token_count: 0,
                padding: [0u8; 6],
                admin: *admin,
                total_amount_minted: 0,
                fee_numerator,
                fee_denominator,
                tokens: [AnySwapItem::empty(); MAX_TOKENS],
            },
        )
    }

    /// `Ok` for the administrator, `InvalidAdmin` for anyone else.
    pub fn verify_admin(&self, admin: &Pubkey) -> (r: Result<(), ErrorCode>)
        ensures
            r == (if admin@ == self.admin@ {
                Ok::<(), ErrorCode>(())
            } else {
                Err::<(), ErrorCode>(ErrorCode::InvalidAdmin)
            }),
    {
        if same_key(admin, &self.admin) {
            Ok(())
        } else {
            Err(ErrorCode::InvalidAdmin)
        }
    }

    pub fn get_token_count(&self) -> (r: usize)
        ensures
            r == self.token_count,
    {
        self.token_count as usize
    }

    /// The index of the first token in use with the mint `mint`.
    pub fn find_token_index(&self, mint: &Pubkey) -> (r: Option<usize>)
        requires
            self.token_count <= MAX_TOKENS,
        ensures
            match r {
                Some(i) => self.has_mint_at(i as int, mint@) && i == self.first_with_mint(mint@, 0)
                    && forall|j: int| 0 <= j < i ==> !self.has_mint_at(j, mint@),
                None => self.first_with_mint(mint@, 0) == self.token_count && forall|j: int|
                    !self.has_mint_at(j, mint@),
            },
    {
        let count = self.get_token_count();
        let mut i: usize = 0;
        while i < count
            invariant
                i <= count == self.token_count <= MAX_TOKENS,
                forall|j: int| 0 <= j < i ==> !self.has_mint_at(j, mint@),
            decreases count - i,
        {
            if same_key(&self.tokens[i].mint_account, mint) {
                proof {
                    self.lemma_first_with_mint(mint@, 0, i as int);
                }
                return Some(i);
            }
            i = i + 1;
        }
        proof {
            self.lemma_first_with_mint(mint@, 0, count as int);
        }
        None
    }

    /// Token `index`, where it is in use.
    pub fn get_token(&self, index: usize) -> (r: Option<&AnySwapItem>)
        requires
            self.token_count <= MAX_TOKENS,
        ensures
            match r {
                Some(item) => index < self.token_count && *item == self.tokens@[index as int],
                None => index >= self.token_count,
            },
    {
        if index < self.get_token_count() {
            Some(&self.tokens[index])
        } else {
            None
        }
    }

    /// The first token in use with the mint `mint`.
    pub fn get_token_by_mint(&self, mint: &Pubkey) -> (r: Option<&AnySwapItem>)
        requires
            self.token_count <= MAX_TOKENS,
        ensures
            match r {
                Some(item) => self.first_with_mint(mint@, 0) < self.token_count && *item
                    == self.tokens@[self.first_with_mint(mint@, 0)],
                None => self.first_with_mint(mint@, 0) == self.token_count,
            },
    {
        match self.find_token_index(mint) {
            Some(i) => {
                assert(self.has_mint_at(i as int, mint@));
                Some(&self.tokens[i])
            },
            None => None,
        }
    }

    /// Adds a token at the end and returns its index. `MaxTokensReached`
    /// where the pool is full, `InvalidTokenCount` for the weight zero; the
    /// pool is then unchanged.
    pub fn add_token(&mut self, mint: &Pubkey, vault: &Pubkey, weight: u64) -> (r: Result<
        usize,
        ErrorCode,
    >)
        requires
            old(self).wf(),
        ensures
            final(self).wf(),
            match r {
                Ok(index) => {
                    &&& old(self).token_count < MAX_TOKENS
                    &&& weight > 0
                    &&& index == old(self).token_count
                    &&& final(self).token_count == old(self).token_count + 1
                    &&& final(self).tokens@ == old(self).tokens@.update(
                        index as int,
                        AnySwapItem { vault_account: *vault, mint_account: *mint, weight },
                    )
                    &&& *final(self) == (AnySwapPool {
                        token_count: final(self).token_count,
                        tokens: final(self).tokens,
                        ..*old(self)
                    })
                },
                Err(e) => {
                    &&& *final(self) == *old(self)
                    &&& if old(self).token_count >= MAX_TOKENS {
                        e == ErrorCode::MaxTokensReached
                    } else {
                        weight == 0 && e == ErrorCode::InvalidTokenCount
                    }
                },
            },
    {
        if self.get_token_count() >= MAX_TOKENS {
            return Err(ErrorCode::MaxTokensReached);
        }
        if weight == 0 {
            return Err(ErrorCode::InvalidTokenCount);
        }
        let index = self.get_token_count();
        let item = AnySwapItem { vault_account: *vault, mint_account: *mint, weight };
        self.tokens[index] = item;
        self.token_count = self.token_count + 1;
        Ok(index)
    }

    /// Token `index`, to be changed in place, where it is in use.
    pub fn get_token_mut(&mut self, index: usize) -> (r: Option<&mut AnySwapItem>)
        requires
            old(self).token_count <= MAX_TOKENS,
        ensures
            match r {
                Some(item) => {
                    &&& index < old(self).token_count
                    &&& *item == old(self).tokens@[index as int]
                    &&& final(self).tokens@ == old(self).tokens@.update(index as int, *final(item))
                    &&& *final(self) == (AnySwapPool { tokens: final(self).tokens, ..*old(self) })
                },
                None => index >= old(self).token_count && *final(self) == *old(self),
            },
    {
        if index < self.get_token_count() {
            Some(&mut self.tokens[index])
        } else {
            None
        }
    }

    /// Takes the first token with the mint `mint` out of the pool: the last
    /// token moves to its place. `InvalidTokenMint` where no token in use
    /// has the mint; the pool is then unchanged.
    pub fn remove_token(&mut self, mint: &Pubkey) -> (r: Result<usize, ErrorCode>)
        requires
            old(self).wf(),
        ensures
            final(self).wf(),
            match r {
                Ok(index) => {
                    &&& index == old(self).first_with_mint(mint@, 0)
                    &&& index < old(self).token_count
                    &&& final(self).token_count == old(self).token_count - 1
                    &&& final(self).tokens@ == old(self).tokens@.update(
                        index as int,
                        old(self).tokens@[old(self).token_count - 1],
                    )
                    &&& *final(self) == (AnySwapPool {
                        token_count: final(self).token_count,
                        tokens: final(self).tokens,
                        ..*old(self)
                    })
                },
                Err(e) => {
                    &&& *final(self) == *old(self)
                    &&& old(self).first_with_mint(mint@, 0) == old(self).token_count
                    &&& e == ErrorCode::InvalidTokenMint
                },
            },
    {
        let token_index = match self.find_token_index(mint) {
            Some(i) => i,
            None => {
                return Err(ErrorCode::InvalidTokenMint);
            },
        };
        assert(self.has_mint_at(token_index as int, mint@));
        let last_index = self.get_token_count() - 1;
        let last_token = self.tokens[last_index];
        self.tokens[token_index] = last_token;
        self.token_count = self.token_count - 1;
        Ok(token_index)
    }

    pub fn get_total_amount_minted(&self) -> (r: u64)
        ensures
            r == self.total_amount_minted,
    {
        self.total_amount_minted
    }

    pub fn set_total_amount_minted(&mut self, amount: u64)
        ensures
            *final(self) == (AnySwapPool { total_amount_minted: amount, ..*old(self) }),
    {
        self.total_amount_minted = amount;
    }

    /// The bytes that a pool takes when stored, its eight-byte tag included.
    pub fn space() -> (r: usize)
        ensures
            r == 73800,
    {
        8 + 2 + 6 + 32 + 8 + 8 + 8 + (MAX_TOKENS * AnySwapItem::space())
    }

    pub fn get_fee_numerator(&self) -> (r: u64)
        ensures
            r == self.fee_numerator,
    {
        self.fee_numerator
    }

    pub fn get_fee_denominator(&self) -> (r: u64)
        ensures
            r == self.fee_denominator,
    {
        self.fee_denominator
    }

    pub fn set_fee(&mut self, fee_numerator: u64, fee_denominator: u64)
        ensures
            *final(self) == (AnySwapPool { fee_numerator, fee_denominator, ..*old(self) }),
    {
        self.fee_numerator = fee_numerator;
        self.fee_denominator = fee_denominator;
    }

    /// What a swap at constant weighted sum pays out: `amount_in` times the
    /// weight of the token that comes in, divided by the weight of the token
    /// that goes out, rounded down. `InvalidTokenIndex` for an index that is
    /// not in use, `SameTokenSwap` for twice the same token,
    /// `InvalidTokenCount` for a weight that is zero, `MathOverflow` where
    /// the result does not fit 64 bits.
    pub fn calculate_swap_output(
        &self,
        token_in_index: usize,
        token_out_index: usize,
        amount_in: u64,
    ) -> (r: Result<u64, ErrorCode>)
        requires
            self.token_count <= MAX_TOKENS,
        ensures
            r == self.swap_output(token_in_index, token_out_index, amount_in),
    {
        if !(token_in_index < self.get_token_count() && token_out_index < self.get_token_count()) {
            return Err(ErrorCode::InvalidTokenIndex);
        }
        if token_in_index == token_out_index {
            return Err(ErrorCode::SameTokenSwap);
        }
        let weight_in = self.tokens[token_in_index].get_weight();
        let weight_out = self.tokens[token_out_index].get_weight();
        if !(weight_in > 0 && weight_out > 0) {
            return Err(ErrorCode::InvalidTokenCount);
        }
        assert(amount_in * weight_in <= u64::MAX * u64::MAX) by (nonlinear_arith)
            requires
                amount_in <= u64::MAX,
                weight_in <= u64::MAX,
        ;
        let numerator: u128 = (amount_in as u128) * (weight_in as u128);
        let amount_out: u128 = numerator / (weight_out as u128);
        if amount_out > u64::MAX as u128 {
            return Err(ErrorCode::MathOverflow);
        }
        Ok(amount_out as u64)
    }

    /// What `calculate_swap_output` returns.
    pub open spec fn swap_output(
        &self,
        token_in_index: usize,
        token_out_index: usize,
        amount_in: u64,
    ) -> Result<u64, ErrorCode> {
        if !(token_in_index < self.token_count && token_out_index < self.token_count) {
            Err(ErrorCode::InvalidTokenIndex)
        } else if token_in_index == token_out_index {
            Err(ErrorCode::SameTokenSwap)
        } else if self.tokens@[token_in_index as int].weight == 0
            || self.tokens@[token_out_index as int].weight == 0 {
            Err(ErrorCode::InvalidTokenCount)
        } else {
            let amount_out = (amount_in * self.tokens@[token_in_index as int].weight)
                / (self.tokens@[token_out_index as int].weight as int);
            if amount_out > u64::MAX {
                Err(ErrorCode::MathOverflow)
            } else {
                Ok(amount_out as u64)
            }
        }
    }

    /// The weighted sum of the reserves: each reserve times the weight of
    /// its token. `InvalidTokenCount` where there is not one reserve for
    /// each token in use, `MathOverflow` where the sum does not fit 128 bits.
    pub fn calculate_invariant(&self, reserves: &[u64]) -> (r: Result<u128, ErrorCode>)
        requires
            self.token_count <= MAX_TOKENS,
        ensures
            match r {
                Ok(sum) => reserves@.len() == self.token_count && sum == weighted_sum(
                    self.tokens@,
                    reserves@,
                    self.token_count as nat,
                ),
                Err(e) => if reserves@.len() != self.token_count {
                    e == ErrorCode::InvalidTokenCount
                } else {
                    weighted_sum(self.tokens@, reserves@, self.token_count as nat) > u128::MAX
                        && e == ErrorCode::MathOverflow
                },
            },
    {
        let count = self.get_token_count();
        if reserves.len() != count {
            return Err(ErrorCode::InvalidTokenCount);
        }
        let mut total: u128 = 0;
        let mut i: usize = 0;
        while i < count
            invariant
                i <= count == self.token_count <= MAX_TOKENS,
                reserves@.len() == count,
                total == weighted_sum(self.tokens@, reserves@, i as nat),
            decreases count - i,
        {
            let weight = self.tokens[i].get_weight();
            let reserve = reserves[i];
            assert(reserve * weight <= u64::MAX * u64::MAX) by (nonlinear_arith)
                requires
                    reserve <= u64::MAX,
                    weight <= u64::MAX,
            ;
            let product: u128 = (reserve as u128) * (weight as u128);
            proof {
                lemma_weighted_sum_grows(self.tokens@, reserves@, (i + 1) as nat, count as nat);
            }
            total = match total.checked_add(product) {
                Some(sum) => sum,
                None => {
                    return Err(ErrorCode::MathOverflow);
                },
            };
            i = i + 1;
        }
        Ok(total)
    }

    /// The fee on `amount` and what is left of it. `DivideByZero` for the
    /// denominator 0, `MathUnderflow` where the fee is above the amount.
    pub fn calculate_fee(&self, amount: u64) -> (r: Result<(u64, u64), ErrorCode>)
        ensures
            match r {
                Ok((fee, rest)) => {
                    &&& self.fee_denominator != 0
                    &&& fee == fee_of(
                        amount as nat,
                        self.fee_numerator as nat,
                        self.fee_denominator as nat,
                    )
                    &&& fee + rest == amount
                },
                Err(e) => if self.fee_denominator == 0 {
                    e == ErrorCode::DivideByZero
                } else {
                    fee_of(amount as nat, self.fee_numerator as nat, self.fee_denominator as nat)
                        > amount && e == ErrorCode::MathUnderflow
                },
            },
    {
        split_fee(amount, self.fee_numerator, self.fee_denominator)
    }
}

/// The weighted sum over more tokens is no smaller.
proof fn lemma_weighted_sum_grows(tokens: Seq<AnySwapItem>, reserves: Seq<u64>, m: nat, n: nat)
    requires
        m <= n,
    ensures
        weighted_sum(tokens, reserves, m) <= weighted_sum(tokens, reserves, n),
    decreases n,
{
    if m < n {
        lemma_weighted_sum_grows(tokens, reserves, m, (n - 1) as nat);
    }
}

/// The fee `numerator / denominator` on `amount` and what is left of it.
/// `DivideByZero` for the denominator 0, `MathUnderflow` where the fee is
/// above the amount.
pub fn split_fee(amount: u64, numerator: u64, denominator: u64) -> (r: Result<
    (u64, u64),
    ErrorCode,
>)
    ensures
        match r {
            Ok((fee, rest)) => {
                &&& denominator != 0
                &&& fee == fee_of(amount as nat, numerator as nat, denominator as nat)
                &&& fee + rest == amount
            },
            Err(e) => if denominator == 0 {
                e == ErrorCode::DivideByZero
            } else {
                fee_of(amount as nat, numerator as nat, denominator as nat) > amount && e
                    == ErrorCode::MathUnderflow
            },
        },
{
    if denominator == 0 {
        return Err(ErrorCode::DivideByZero);
    }
    assert(amount * numerator <= u64::MAX * u64::MAX) by (nonlinear_arith)
        requires
            amount <= u64::MAX,
            numerator <= u64::MAX,
    ;
    let product: u128 = (amount as u128) * (numerator as u128);
    let fee_amount: u128 = product / (denominator as u128);
    if fee_amount > amount as u128 {
        return Err(ErrorCode::MathUnderflow);
    }
    let amount_after_fee: u128 = amount as u128 - fee_amount;
    Ok((fee_amount as u64, amount_after_fee as u64))
}

} // verus!

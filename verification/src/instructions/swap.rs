//! Swapping: tokens of the pool come in, and one goes out.

use crate::error::ErrorCode;
use crate::instructions::accounts::{
    has_pairs, is_paired, user_amounts, user_at, vault_amounts, vault_at, TokenAccount,
};
use crate::state::item::{same_key, Pubkey};
use crate::state::pool::AnySwapPool;
use crate::state::swap::{swap_outcome, SwapResult};
use vstd::prelude::*;

verus! {

/// Whether the pair of accounts given for token `i` of a swap is valid: the
/// vault is held by the authority of the pool and is the vault of the token
/// of its mint, and the user's account is of the same mint and held by
/// `owner`.
pub open spec fn swap_pair_is_valid(
    pool: AnySwapPool,
    pool_authority: Seq<u8>,
    owner: Seq<u8>,
    accounts: Seq<TokenAccount>,
    i: int,
) -> bool {
    let vault = vault_at(accounts, i);
    let user = user_at(accounts, i);
    let index = pool.first_with_mint(vault.mint@, 0);
    &&& vault.owner@ == pool_authority
    &&& index < pool.token_count
    &&& vault.key@ == pool.tokens@[index].vault_account@
    &&& user.owner@ == owner
    &&& user.mint@ == vault.mint@
}

/// Whether each of `n` pairs of accounts is valid.
pub open spec fn swap_pairs_are_valid(
    pool: AnySwapPool,
    pool_authority: Seq<u8>,
    owner: Seq<u8>,
    accounts: Seq<TokenAccount>,
    n: nat,
) -> bool {
    forall|i: int|
        0 <= i < n ==> #[trigger] swap_pair_is_valid(pool, pool_authority, owner, accounts, i)
}

/// The weight of the token of each of `n` vaults.
pub open spec fn swap_weights(pool: AnySwapPool, accounts: Seq<TokenAccount>, n: nat) -> Seq<u64> {
    Seq::new(n, |i: int| pool.tokens@[pool.first_with_mint(vault_at(accounts, i).mint@, 0)].weight)
}

/// What `swap_anyswap` returns: the amounts and the fees, one of each for
/// each token.
pub open spec fn swap_anyswap_outcome(
    pool: AnySwapPool,
    pool_authority: Seq<u8>,
    owner: Seq<u8>,
    accounts: Seq<TokenAccount>,
    amounts_tolerance: Seq<u64>,
    is_in_token: Seq<bool>,
) -> Result<(Seq<u64>, Seq<u64>), ErrorCode> {
    let n = amounts_tolerance.len();
    if n == 0 || is_in_token.len() != n || !is_paired(accounts, n) {
        Err(ErrorCode::InvalidTokenCount)
    } else if !swap_pairs_are_valid(pool, pool_authority, owner, accounts, n) {
        Err(ErrorCode::InvalidTokenMint)
    } else {
        swap_outcome(
            is_in_token,
            amounts_tolerance,
            user_amounts(accounts, n),
            vault_amounts(accounts, n),
            swap_weights(pool, accounts, n),
            pool.fee_numerator,
            pool.fee_denominator,
        )
    }
}

/// What the user holds, what the vaults hold and the weights of their
/// tokens, where every pair of accounts is valid; nothing where one is not.
fn read_swap_accounts(
    pool: &AnySwapPool,
    pool_authority: &Pubkey,
    owner: &Pubkey,
    accounts: &[TokenAccount],
    n: usize,
) -> (r: Option<(Vec<u64>, Vec<u64>, Vec<u64>)>)
    requires
        pool.wf(),
        is_paired(accounts@, n as nat),
    ensures
        match r {
            Some((held, reserves, weights)) => {
                &&& swap_pairs_are_valid(*pool, pool_authority@, owner@, accounts@, n as nat)
                &&& held@ == user_amounts(accounts@, n as nat)
                &&& reserves@ == vault_amounts(accounts@, n as nat)
                &&& weights@ == swap_weights(*pool, accounts@, n as nat)
            },
            None => !swap_pairs_are_valid(*pool, pool_authority@, owner@, accounts@, n as nat),
        },
{
    let pairs = accounts.len();
    let mut held: Vec<u64> = Vec::new();
    let mut reserves: Vec<u64> = Vec::new();
    let mut weights: Vec<u64> = Vec::new();
    let mut i: usize = 0;
    while i < n
        invariant
            i <= n,
            pairs == 2 * n,
            pool.wf(),
            is_paired(accounts@, n as nat),
            held@.len() == i,
            reserves@.len() == i,
            weights@.len() == i,
            forall|j: int|
                0 <= j < i ==> #[trigger] swap_pair_is_valid(
                    *pool,
                    pool_authority@,
                    owner@,
                    accounts@,
                    j,
                ),
            forall|j: int| 0 <= j < i ==> held@[j] == user_at(accounts@, j).amount,
            forall|j: int| 0 <= j < i ==> reserves@[j] == vault_at(accounts@, j).amount,
            forall|j: int|
                0 <= j < i ==> weights@[j] == pool.tokens@[pool.first_with_mint(
                    vault_at(accounts@, j).mint@,
                    0,
                )].weight,
        decreases n - i,
    {
        let user = &accounts[2 * i];
        let vault = &accounts[2 * i + 1];
        if !same_key(&vault.owner, pool_authority) {
            assert(!swap_pair_is_valid(*pool, pool_authority@, owner@, accounts@, i as int));
            return None;
        }
        // The token is found by the mint of the vault.
        let token_item = match pool.get_token_by_mint(&vault.mint) {
            Some(item) => item,
            None => {
                assert(!swap_pair_is_valid(*pool, pool_authority@, owner@, accounts@, i as int));
                return None;
            },
        };
        if !same_key(&vault.key, &token_item.vault_account) || !same_key(&user.owner, owner)
            || !same_key(&user.mint, &vault.mint) {
            assert(!swap_pair_is_valid(*pool, pool_authority@, owner@, accounts@, i as int));
            return None;
        }
        held.push(user.amount);
        reserves.push(vault.amount);
        weights.push(token_item.get_weight());
        i = i + 1;
    }
    assert(held@ =~= user_amounts(accounts@, n as nat));
    assert(reserves@ =~= vault_amounts(accounts@, n as nat));
    assert(weights@ =~= swap_weights(*pool, accounts@, n as nat));
    Some((held, reserves, weights))
}

/// Decides a swap. There is one pair of accounts, one flag and one amount
/// for each token of the swap: of a token that comes in the amount, of the
/// token that goes out the least that the user accepts. The caller then
/// moves each amount that is not zero: from the user into the vault for a
/// token that comes in, from the vault to the user for the token that goes
/// out.
///
/// `InvalidTokenCount` for no token, not one flag for each amount or not
/// one pair of accounts for each; `InvalidTokenMint` for a pair of accounts
/// that is not valid; else the errors of `AnySwapPool::swap`.
pub fn swap_anyswap(
    pool: &AnySwapPool,
    pool_authority: &Pubkey,
    owner: &Pubkey,
    accounts: &[TokenAccount],
    amounts_tolerance: &[u64],
    is_in_token: &[bool],
) -> (r: Result<SwapResult, ErrorCode>)
    requires
        pool.wf(),
    ensures
        match r {
            Ok(moved) => swap_anyswap_outcome(
                *pool,
                pool_authority@,
                owner@,
                accounts@,
                amounts_tolerance@,
                is_in_token@,
            ) == Ok::<(Seq<u64>, Seq<u64>), ErrorCode>((moved.amounts@, moved.burn_fees@)),
            Err(e) => swap_anyswap_outcome(
                *pool,
                pool_authority@,
                owner@,
                accounts@,
                amounts_tolerance@,
                is_in_token@,
            ) == Err::<(Seq<u64>, Seq<u64>), ErrorCode>(e),
        },
{
    let token_count = amounts_tolerance.len();
    if token_count == 0 || is_in_token.len() != token_count || !has_pairs(accounts, token_count) {
        return Err(ErrorCode::InvalidTokenCount);
    }
    let (user_vaults_amount, token_vaults_amount, weights) = match read_swap_accounts(
        pool,
        pool_authority,
        owner,
        accounts,
        token_count,
    ) {
        Some(read) => read,
        None => {
            return Err(ErrorCode::InvalidTokenMint);
        },
    };
    pool.swap(
        is_in_token,
        amounts_tolerance,
        user_vaults_amount.as_slice(),
        token_vaults_amount.as_slice(),
        weights.as_slice(),
        pool.get_fee_numerator(),
        pool.get_fee_denominator(),
    )
}

} // verus!

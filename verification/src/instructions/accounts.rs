//! What an instruction sees of the token accounts it is given.
//!
//! The accounts of an instruction on several tokens come in pairs, one pair
//! for each token: the account of the user, then the vault of the pool.

use crate::state::item::Pubkey;
use crate::state::pool::AnySwapPool;
use vstd::prelude::*;

verus! {

/// A token account as the ledger holds it.
#[derive(Debug, Clone, Copy)]
pub struct TokenAccount {
    /// The address of the account.
    pub key: Pubkey,
    /// Who may move the tokens.
    pub owner: Pubkey,
    /// The mint of the token.
    pub mint: Pubkey,
    /// How much the account holds.
    pub amount: u64,
}

/// Whether there is one pair of accounts for each of `n` tokens.
pub open spec fn is_paired(accounts: Seq<TokenAccount>, n: nat) -> bool {
    accounts.len() == 2 * n
}

/// The account of the user for token `i`.
pub open spec fn user_at(accounts: Seq<TokenAccount>, i: int) -> TokenAccount {
    accounts[2 * i]
}

/// The vault for token `i`.
pub open spec fn vault_at(accounts: Seq<TokenAccount>, i: int) -> TokenAccount {
    accounts[2 * i + 1]
}

/// What the user holds of each of `n` tokens.
pub open spec fn user_amounts(accounts: Seq<TokenAccount>, n: nat) -> Seq<u64> {
    Seq::new(n, |i: int| user_at(accounts, i).amount)
}

/// What the vaults hold of each of `n` tokens.
pub open spec fn vault_amounts(accounts: Seq<TokenAccount>, n: nat) -> Seq<u64> {
    Seq::new(n, |i: int| vault_at(accounts, i).amount)
}

/// The weights of the tokens in use, in their order.
pub open spec fn pool_weights(pool: AnySwapPool) -> Seq<u64> {
    Seq::new(pool.token_count as nat, |i: int| pool.tokens@[i].weight)
}

/// Whether the vault given for token `i` is the vault of that token, held
/// by the authority of the pool.
pub open spec fn vault_is_valid(
    pool: AnySwapPool,
    pool_authority: Seq<u8>,
    accounts: Seq<TokenAccount>,
    i: int,
) -> bool {
    &&& vault_at(accounts, i).key@ == pool.tokens@[i].vault_account@
    &&& vault_at(accounts, i).owner@ == pool_authority
}

/// Whether the vault given for each token in use is valid.
pub open spec fn vaults_are_valid(
    pool: AnySwapPool,
    pool_authority: Seq<u8>,
    accounts: Seq<TokenAccount>,
) -> bool {
    forall|i: int|
        0 <= i < pool.token_count ==> #[trigger] vault_is_valid(pool, pool_authority, accounts, i)
}

/// Whether the user's account belongs to `owner` for each token of which the
/// amount is not zero.
pub open spec fn owners_are_valid(
    owner: Seq<u8>,
    accounts: Seq<TokenAccount>,
    amounts: Seq<u64>,
) -> bool {
    forall|i: int|
        0 <= i < amounts.len() && amounts[i] != 0 ==> (#[trigger] user_at(accounts, i)).owner@
            == owner
}

/// Whether the number of accounts is twice `n`.
pub fn has_pairs(accounts: &[TokenAccount], n: usize) -> (r: bool)
    ensures
        r == is_paired(accounts@, n as nat),
{
    accounts.len() % 2 == 0 && accounts.len() / 2 == n
}

/// What the vaults hold, and the weights of their tokens, where every vault
/// is valid; nothing where one is not.
pub fn read_vaults(pool: &AnySwapPool, pool_authority: &Pubkey, accounts: &[TokenAccount]) -> (r:
    Option<(Vec<u64>, Vec<u64>)>)
    requires
        pool.wf(),
        is_paired(accounts@, pool.token_count as nat),
    ensures
        match r {
            Some((reserves, weights)) => {
                &&& vaults_are_valid(*pool, pool_authority@, accounts@)
                &&& reserves@ == vault_amounts(accounts@, pool.token_count as nat)
                &&& weights@ == pool_weights(*pool)
            },
            None => !vaults_are_valid(*pool, pool_authority@, accounts@),
        },
{
    let n = pool.get_token_count();
    let mut reserves: Vec<u64> = Vec::new();
    let mut weights: Vec<u64> = Vec::new();
    let mut i: usize = 0;
    while i < n
        invariant
            i <= n == pool.token_count,
            pool.wf(),
            is_paired(accounts@, n as nat),
            reserves@.len() == i,
            weights@.len() == i,
            forall|j: int|
                0 <= j < i ==> #[trigger] vault_is_valid(*pool, pool_authority@, accounts@, j),
            forall|j: int| 0 <= j < i ==> reserves@[j] == vault_at(accounts@, j).amount,
            forall|j: int| 0 <= j < i ==> weights@[j] == pool.tokens@[j].weight,
        decreases n - i,
    {
        let vault = &accounts[2 * i + 1];
        let item = &pool.tokens[i];
        if !crate::state::item::same_key(&vault.key, &item.vault_account)
            || !crate::state::item::same_key(&vault.owner, pool_authority) {
            assert(!vault_is_valid(*pool, pool_authority@, accounts@, i as int));
            return None;
        }
        reserves.push(vault.amount);
        weights.push(item.weight);
        i = i + 1;
    }
    assert(reserves@ =~= vault_amounts(accounts@, n as nat));
    assert(weights@ =~= pool_weights(*pool));
    Some((reserves, weights))
}

/// Whether the user's account belongs to `owner` for each token of which the
/// amount is not zero.
pub fn check_owners(owner: &Pubkey, accounts: &[TokenAccount], amounts: &[u64]) -> (r: bool)
    requires
        is_paired(accounts@, amounts@.len()),
    ensures
        r == owners_are_valid(owner@, accounts@, amounts@),
{
    let n = amounts.len();
    let pairs = accounts.len();
    let mut i: usize = 0;
    while i < n
        invariant
            i <= n == amounts@.len(),
            pairs == 2 * n,
            is_paired(accounts@, n as nat),
            forall|j: int|
                0 <= j < i && amounts@[j] != 0 ==> (#[trigger] user_at(accounts@, j)).owner@
                    == owner@,
        decreases n - i,
    {
        if amounts[i] != 0 && !crate::state::item::same_key(&accounts[2 * i].owner, owner) {
            assert(user_at(accounts@, i as int).owner@ != owner@);
            return false;
        }
        i = i + 1;
    }
    true
}

} // verus!

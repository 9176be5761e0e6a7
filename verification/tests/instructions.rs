use anyswap::error::ErrorCode;
use anyswap::instructions::accounts::{check_owners, has_pairs, read_vaults};
use anyswap::instructions::{
    add_liquidity, add_token_to_pool, create_pool, modify_fee, modify_token_weight,
    remove_liquidity, remove_token_from_pool, swap_anyswap, TokenAccount,
};
use anyswap::state::{AnySwapPool, Pubkey};

const ADMIN: Pubkey = [1u8; 32];
const AUTHORITY: Pubkey = [2u8; 32];
const OWNER: Pubkey = [3u8; 32];
const STRANGER: Pubkey = [4u8; 32];

fn mint(i: u8) -> Pubkey {
    [10 + i; 32]
}

fn vault_key(i: u8) -> Pubkey {
    [100 + i; 32]
}

fn user_key(i: u8) -> Pubkey {
    [200 + i; 32]
}

fn pool_with(weights: &[u64]) -> AnySwapPool {
    let mut pool = create_pool(&ADMIN, 1, 100).unwrap();
    for (i, w) in weights.iter().enumerate() {
        let i = i as u8;
        assert_eq!(
            add_token_to_pool(&mut pool, &ADMIN, &mint(i), &vault_key(i), 0, *w, 0),
            Ok(i as usize)
        );
    }
    pool
}

// One pair of accounts for each token: what the user holds, what the vault
// holds.
fn pairs(held: &[u64], reserves: &[u64]) -> Vec<TokenAccount> {
    let mut accounts = Vec::new();
    for i in 0..held.len() {
        let t = i as u8;
        accounts.push(TokenAccount { key: user_key(t), owner: OWNER, mint: mint(t), amount: held[i] });
        accounts.push(TokenAccount {
            key: vault_key(t),
            owner: AUTHORITY,
            mint: mint(t),
            amount: reserves[i],
        });
    }
    accounts
}

#[test]
fn create_pool_checks_the_fee() {
    let pool = create_pool(&ADMIN, 3, 1000).unwrap();
    assert_eq!(pool.admin, ADMIN);
    assert_eq!(pool.get_token_count(), 0);
    assert_eq!(pool.get_total_amount_minted(), 0);
    assert_eq!((pool.get_fee_numerator(), pool.get_fee_denominator()), (3, 1000));
    assert_eq!(create_pool(&ADMIN, 0, 1000).err(), Some(ErrorCode::MathOverflow));
    assert_eq!(create_pool(&ADMIN, 2, 1).err(), Some(ErrorCode::MathOverflow));
}

#[test]
fn modify_fee_in_its_order() {
    let mut pool = pool_with(&[]);
    assert_eq!(modify_fee(&mut pool, &ADMIN, 5, 1000), Ok(()));
    assert_eq!((pool.get_fee_numerator(), pool.get_fee_denominator()), (5, 1000));
    assert_eq!(modify_fee(&mut pool, &ADMIN, 5, 0), Err(ErrorCode::MathOverflow));
    assert_eq!(modify_fee(&mut pool, &ADMIN, 6, 5), Err(ErrorCode::MathOverflow));
    assert_eq!(modify_fee(&mut pool, &STRANGER, 6, 5), Err(ErrorCode::MathOverflow));
    assert_eq!(modify_fee(&mut pool, &STRANGER, 1, 5), Err(ErrorCode::InvalidAdmin));
    assert_eq!(modify_fee(&mut pool, &STRANGER, 0, 5), Err(ErrorCode::InvalidAdmin));
    assert_eq!(modify_fee(&mut pool, &ADMIN, 0, 5), Err(ErrorCode::MathOverflow));
    assert_eq!((pool.get_fee_numerator(), pool.get_fee_denominator()), (5, 1000));
    assert_eq!(modify_fee(&mut pool, &ADMIN, 5, 5), Ok(()));
}

#[test]
fn modify_weight_in_its_order() {
    let mut pool = pool_with(&[20, 30]);
    assert_eq!(modify_token_weight(&mut pool, &ADMIN, &mint(1), 45), Ok(30));
    assert_eq!(pool.get_token(1).unwrap().get_weight(), 45);
    assert_eq!(pool.get_token(0).unwrap().get_weight(), 20);
    assert_eq!(modify_token_weight(&mut pool, &ADMIN, &mint(1), 0), Err(ErrorCode::InvalidTokenCount));
    assert_eq!(modify_token_weight(&mut pool, &STRANGER, &mint(1), 0), Err(ErrorCode::InvalidTokenCount));
    assert_eq!(modify_token_weight(&mut pool, &STRANGER, &mint(1), 9), Err(ErrorCode::InvalidAdmin));
    assert_eq!(modify_token_weight(&mut pool, &STRANGER, &mint(7), 9), Err(ErrorCode::InvalidAdmin));
    assert_eq!(modify_token_weight(&mut pool, &ADMIN, &mint(7), 9), Err(ErrorCode::InvalidTokenMint));
    assert_eq!(pool.get_token(1).unwrap().get_weight(), 45);
}

#[test]
fn add_token_in_its_order() {
    let mut pool = pool_with(&[20]);
    let add = |pool: &mut AnySwapPool, admin: &Pubkey, m: u8, held: u64, w: u64, liq: u64| {
        add_token_to_pool(pool, admin, &mint(m), &vault_key(m), held, w, liq)
    };
    assert_eq!(add(&mut pool, &ADMIN, 0, 0, 5, 0), Err(ErrorCode::InvalidTokenMint));
    assert_eq!(add(&mut pool, &STRANGER, 0, 0, 5, 0), Err(ErrorCode::InvalidTokenMint));
    assert_eq!(add(&mut pool, &STRANGER, 1, 0, 0, 9), Err(ErrorCode::InvalidAdmin));
    assert_eq!(add(&mut pool, &ADMIN, 1, 0, 0, 9), Err(ErrorCode::InvalidTokenCount));
    assert_eq!(add(&mut pool, &ADMIN, 1, 8, 5, 9), Err(ErrorCode::InsufficientTokenAmount));
    assert_eq!(pool.get_token_count(), 1);
    assert_eq!(add(&mut pool, &ADMIN, 1, 9, 5, 9), Ok(1));
    assert_eq!(pool.get_token_count(), 2);
    assert_eq!(pool.get_token(1).unwrap().mint_pubkey(), &mint(1));
    assert_eq!(pool.get_token(1).unwrap().vault_pubkey(), &vault_key(1));
    assert_eq!(pool.get_token(1).unwrap().get_weight(), 5);
    assert_eq!(add(&mut pool, &ADMIN, 2, 0, 5, 0), Ok(2));
}

#[test]
fn add_token_to_a_full_pool() {
    let mut pool = pool_with(&[]);
    for i in 0..1024usize {
        let mut m = [9u8; 32];
        m[0] = (i % 256) as u8;
        m[1] = (i / 256) as u8;
        assert_eq!(add_token_to_pool(&mut pool, &ADMIN, &m, &vault_key(0), 0, 1, 0), Ok(i));
    }
    assert_eq!(
        add_token_to_pool(&mut pool, &ADMIN, &mint(0), &vault_key(0), 0, 1, 0),
        Err(ErrorCode::MaxTokensReached)
    );
}

#[test]
fn remove_token_in_its_order() {
    let mut pool = pool_with(&[20, 30, 40]);
    let vault = |i: u8, amount: u64| TokenAccount {
        key: vault_key(i),
        owner: AUTHORITY,
        mint: mint(i),
        amount,
    };
    assert_eq!(
        remove_token_from_pool(&mut pool, &STRANGER, &mint(0), &vault(0, 5)),
        Err(ErrorCode::InvalidAdmin)
    );
    assert_eq!(
        remove_token_from_pool(&mut pool, &ADMIN, &mint(0), &vault(0, 5)),
        Err(ErrorCode::InsufficientTokenAmount)
    );
    assert_eq!(
        remove_token_from_pool(&mut pool, &ADMIN, &mint(7), &vault(7, 0)),
        Err(ErrorCode::InvalidTokenMint)
    );
    assert_eq!(
        remove_token_from_pool(&mut pool, &ADMIN, &mint(0), &vault(1, 0)),
        Err(ErrorCode::InvalidTokenMint)
    );
    assert_eq!(pool.get_token_count(), 3);
    assert_eq!(remove_token_from_pool(&mut pool, &ADMIN, &mint(0), &vault(0, 0)), Ok(0));
    assert_eq!(pool.get_token_count(), 2);
    assert_eq!(pool.get_token(0).unwrap().mint_pubkey(), &mint(2));
    assert_eq!(remove_token_from_pool(&mut pool, &ADMIN, &mint(1), &vault(1, 0)), Ok(1));
    assert_eq!(remove_token_from_pool(&mut pool, &ADMIN, &mint(2), &vault(2, 0)), Ok(0));
    assert_eq!(pool.get_token_count(), 0);
}

#[test]
fn accounts_are_read_in_pairs() {
    let pool = pool_with(&[20, 30]);
    let accounts = pairs(&[5, 6], &[1000, 2000]);
    assert!(has_pairs(&accounts, 2));
    assert!(!has_pairs(&accounts, 1));
    assert!(!has_pairs(&accounts[..3], 1));
    assert!(has_pairs(&[], 0));
    assert_eq!(read_vaults(&pool, &AUTHORITY, &accounts), Some((vec![1000, 2000], vec![20, 30])));
    assert_eq!(read_vaults(&pool, &STRANGER, &accounts), None);
    let mut swapped = accounts.clone();
    swapped.swap(1, 3);
    assert_eq!(read_vaults(&pool, &AUTHORITY, &swapped), None);
    assert!(check_owners(&OWNER, &accounts, &[1, 1]));
    assert!(!check_owners(&STRANGER, &accounts, &[0, 1]));
    assert!(check_owners(&STRANGER, &accounts, &[0, 0]));
}

#[test]
fn add_liquidity_to_an_empty_pool() {
    let mut pool = pool_with(&[1, 1, 1]);
    let accounts = pairs(&[100, 200, 300], &[0, 0, 0]);
    let quote = add_liquidity(&mut pool, &AUTHORITY, &OWNER, &accounts, &[100, 200, 300]).unwrap();
    assert_eq!(quote.lp_minted, 200);
    assert_eq!(quote.amounts_used, vec![100, 200, 300]);
    assert_eq!(pool.get_total_amount_minted(), 200);
}

#[test]
fn add_liquidity_in_proportion() {
    let mut pool = pool_with(&[1, 1]);
    pool.set_total_amount_minted(1000);
    let accounts = pairs(&[100, 500], &[1000, 2000]);
    let quote = add_liquidity(&mut pool, &AUTHORITY, &OWNER, &accounts, &[100, 250]).unwrap();
    assert_eq!(quote.lp_minted, 100);
    assert_eq!(quote.amounts_used, vec![100, 200]);
    assert_eq!(pool.get_total_amount_minted(), 1100);
}

#[test]
fn add_liquidity_names_its_errors() {
    let accounts = pairs(&[100, 500], &[1000, 2000]);
    let run = |pool: &mut AnySwapPool, authority: &Pubkey, owner: &Pubkey, accounts: &[TokenAccount], amounts: &[u64]| {
        let before = pool.get_total_amount_minted();
        let error = add_liquidity(pool, authority, owner, accounts, amounts).err();
        assert_eq!(pool.get_total_amount_minted(), before);
        error
    };
    let mut empty = pool_with(&[]);
    assert_eq!(run(&mut empty, &AUTHORITY, &OWNER, &[], &[]), Some(ErrorCode::InvalidTokenCount));
    let mut pool = pool_with(&[1, 1]);
    pool.set_total_amount_minted(1000);
    assert_eq!(run(&mut pool, &AUTHORITY, &OWNER, &accounts, &[100]), Some(ErrorCode::InvalidTokenCount));
    assert_eq!(
        run(&mut pool, &AUTHORITY, &OWNER, &accounts[..2], &[100, 200]),
        Some(ErrorCode::InvalidTokenCount)
    );
    assert_eq!(
        run(&mut pool, &STRANGER, &OWNER, &accounts, &[100, 200]),
        Some(ErrorCode::InvalidTokenMint)
    );
    assert_eq!(
        run(&mut pool, &AUTHORITY, &OWNER, &accounts, &[100, 199]),
        Some(ErrorCode::InsufficientTokenAmount)
    );
    assert_eq!(
        run(&mut pool, &AUTHORITY, &STRANGER, &accounts, &[100, 200]),
        Some(ErrorCode::InvalidTokenMint)
    );
    // The owner is only looked at where something is taken.
    assert!(add_liquidity(&mut pool.clone(), &AUTHORITY, &STRANGER, &accounts, &[0, 0]).is_ok());
    pool.set_total_amount_minted(u64::MAX);
    assert_eq!(
        run(&mut pool, &AUTHORITY, &OWNER, &accounts, &[1, 2]),
        Some(ErrorCode::MathOverflow)
    );
    pool.set_total_amount_minted(1000);
    pool.set_fee(0, 5);
    assert_eq!(
        run(&mut pool, &AUTHORITY, &OWNER, &accounts, &[100, 200]),
        Some(ErrorCode::MathOverflow)
    );
}

#[test]
fn remove_liquidity_pays_and_burns() {
    let mut pool = pool_with(&[1, 1]);
    pool.set_total_amount_minted(1000);
    let accounts = pairs(&[0, 0], &[1000, 2000]);
    let quote = remove_liquidity(&mut pool, &AUTHORITY, &OWNER, 150, &accounts, 100).unwrap();
    assert_eq!(quote.amounts_out, vec![99, 198]);
    assert_eq!(quote.burn_fees, vec![1, 2]);
    assert_eq!(pool.get_total_amount_minted(), 900);
}

#[test]
fn remove_liquidity_names_its_errors() {
    let accounts = pairs(&[0, 0], &[1000, 2000]);
    let run = |pool: &mut AnySwapPool, authority: &Pubkey, owner: &Pubkey, held: u64, accounts: &[TokenAccount], burn: u64| {
        let before = pool.get_total_amount_minted();
        let error = remove_liquidity(pool, authority, owner, held, accounts, burn).err();
        assert_eq!(pool.get_total_amount_minted(), before);
        error
    };
    let mut empty = pool_with(&[]);
    assert_eq!(run(&mut empty, &AUTHORITY, &OWNER, 5, &[], 6), Some(ErrorCode::InsufficientTokenAmount));
    assert_eq!(run(&mut empty, &AUTHORITY, &OWNER, 5, &[], 5), Some(ErrorCode::InvalidTokenCount));
    let mut pool = pool_with(&[1, 1]);
    pool.set_total_amount_minted(1000);
    assert_eq!(
        run(&mut pool, &AUTHORITY, &OWNER, 99, &accounts, 100),
        Some(ErrorCode::InsufficientTokenAmount)
    );
    assert_eq!(
        run(&mut pool, &AUTHORITY, &OWNER, 2000, &accounts, 1001),
        Some(ErrorCode::MathOverflow)
    );
    assert_eq!(
        run(&mut pool, &AUTHORITY, &OWNER, 2000, &accounts[..3], 100),
        Some(ErrorCode::InvalidTokenCount)
    );
    assert_eq!(
        run(&mut pool, &STRANGER, &OWNER, 2000, &accounts, 100),
        Some(ErrorCode::InvalidTokenMint)
    );
    assert_eq!(
        run(&mut pool, &AUTHORITY, &STRANGER, 2000, &accounts, 100),
        Some(ErrorCode::InvalidTokenMint)
    );
    assert!(remove_liquidity(&mut pool.clone(), &AUTHORITY, &STRANGER, 2000, &accounts, 0).is_ok());
    pool.set_total_amount_minted(0);
    assert_eq!(run(&mut pool, &AUTHORITY, &OWNER, 0, &accounts, 0), Some(ErrorCode::DivideByZero));
}

#[test]
fn swap_decides_what_moves() {
    let pool = pool_with(&[20, 20, 80]);
    let accounts = pairs(&[100_000, 500_000, 0], &[1_000_000, 1_000_000, 1_000_000]);
    let moved = swap_anyswap(
        &pool,
        &AUTHORITY,
        &OWNER,
        &accounts,
        &[100_000, 100_000, 46_000],
        &[true, true, false],
    )
    .unwrap();
    // The fee of the pool is 1 / 100.
    assert_eq!(moved.amounts, vec![100_000, 100_000, 46_072]);
    assert_eq!(moved.burn_fees, vec![0, 0, 465]);
}

#[test]
fn swap_finds_tokens_by_the_mint_of_the_vault() {
    let pool = pool_with(&[3, 7, 11]);
    // Two of the three tokens, in another order than the pool has them.
    let mut accounts = pairs(&[0, 25, 0], &[5000, 300, 0]);
    accounts.truncate(4);
    accounts.swap(0, 2);
    accounts.swap(1, 3);
    let moved =
        swap_anyswap(&pool, &AUTHORITY, &OWNER, &accounts, &[25, 800], &[true, false]).unwrap();
    assert_eq!(moved.amounts, vec![25, 843]);
    assert_eq!(moved.burn_fees, vec![0, 8]);
}

#[test]
fn swap_names_its_errors() {
    let pool = pool_with(&[20, 20, 80]);
    let accounts = pairs(&[100_000, 500_000, 0], &[1_000_000, 1_000_000, 1_000_000]);
    let flags = [true, true, false];
    let amounts = [100_000u64, 100_000, 46_000];
    let run = |authority: &Pubkey, owner: &Pubkey, accounts: &[TokenAccount], amounts: &[u64], flags: &[bool]| {
        swap_anyswap(&pool, authority, owner, accounts, amounts, flags).err()
    };
    assert_eq!(run(&AUTHORITY, &OWNER, &[], &[], &[]), Some(ErrorCode::InvalidTokenCount));
    assert_eq!(
        run(&AUTHORITY, &OWNER, &accounts, &amounts, &flags[..2]),
        Some(ErrorCode::InvalidTokenCount)
    );
    assert_eq!(
        run(&AUTHORITY, &OWNER, &accounts[..5], &amounts, &flags),
        Some(ErrorCode::InvalidTokenCount)
    );
    assert_eq!(run(&STRANGER, &OWNER, &accounts, &amounts, &flags), Some(ErrorCode::InvalidTokenMint));
    assert_eq!(run(&AUTHORITY, &STRANGER, &accounts, &amounts, &flags), Some(ErrorCode::InvalidTokenMint));
    let mut other_vault = accounts.clone();
    other_vault[1].key = vault_key(2);
    assert_eq!(run(&AUTHORITY, &OWNER, &other_vault, &amounts, &flags), Some(ErrorCode::InvalidTokenMint));
    let mut other_mint = accounts.clone();
    other_mint[0].mint = mint(1);
    assert_eq!(run(&AUTHORITY, &OWNER, &other_mint, &amounts, &flags), Some(ErrorCode::InvalidTokenMint));
    let mut unknown_mint = accounts.clone();
    unknown_mint[1].mint = mint(9);
    unknown_mint[0].mint = mint(9);
    assert_eq!(run(&AUTHORITY, &OWNER, &unknown_mint, &amounts, &flags), Some(ErrorCode::InvalidTokenMint));
    assert_eq!(
        run(&AUTHORITY, &OWNER, &accounts, &[100_001, 100_000, 46_000], &flags),
        Some(ErrorCode::InsufficientTokenAmount)
    );
    assert_eq!(
        run(&AUTHORITY, &OWNER, &accounts, &[100_000, 100_000, 46_073], &flags),
        Some(ErrorCode::InsufficientTokenAmount)
    );
    assert_eq!(
        run(&AUTHORITY, &OWNER, &accounts, &amounts, &[true, false, false]),
        Some(ErrorCode::InvalidTokenCount)
    );
}

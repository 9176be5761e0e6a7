use anyswap::error::ErrorCode;
use anyswap::state::liquidity::{quote_add_liquidity, quote_remove_liquidity};

#[test]
fn first_deposit_mints_the_mean() {
    let quote = quote_add_liquidity(&[0, 0, 0], &[1, 1, 1], 0, 3, 1000, &[100, 200, 300]).unwrap();
    assert_eq!(quote.lp_minted, 200);
    assert_eq!(quote.amounts_used, vec![100, 200, 300]);
    let quote = quote_add_liquidity(&[0, 0], &[5, 9], 0, 3, 1000, &[1, 2]).unwrap();
    assert_eq!(quote.lp_minted, 1);
    assert_eq!(quote.amounts_used, vec![1, 2]);
    let quote = quote_add_liquidity(&[0], &[5], 0, 3, 1000, &[u64::MAX]).unwrap();
    assert_eq!(quote.lp_minted, u64::MAX);
    let quote = quote_add_liquidity(&[0, 0], &[5, 9], 0, 3, 1000, &[u64::MAX, u64::MAX]).unwrap();
    assert_eq!(quote.lp_minted, u64::MAX);
}

#[test]
fn later_deposit_keeps_the_proportion() {
    let quote = quote_add_liquidity(&[1000, 2000], &[1, 1], 1000, 3, 1000, &[100, 200]).unwrap();
    assert_eq!(quote.lp_minted, 100);
    assert_eq!(quote.amounts_used, vec![100, 200]);
    // More than is needed may be offered.
    let quote = quote_add_liquidity(&[1000, 2000], &[1, 1], 1000, 3, 1000, &[100, 999]).unwrap();
    assert_eq!(quote.lp_minted, 100);
    assert_eq!(quote.amounts_used, vec![100, 200]);
    // Quotients are rounded down.
    let quote = quote_add_liquidity(&[3, 10], &[1, 1], 7, 3, 1000, &[2, 10]).unwrap();
    assert_eq!(quote.lp_minted, 4);
    assert_eq!(quote.amounts_used, vec![2, 6]);
}

#[test]
fn the_first_reserve_that_is_not_zero_sets_the_proportion() {
    let quote = quote_add_liquidity(&[0, 500, 1000], &[1, 1, 1], 100, 3, 1000, &[77, 50, 100]).unwrap();
    assert_eq!(quote.lp_minted, 10);
    assert_eq!(quote.amounts_used, vec![0, 50, 100]);
}

#[test]
fn deposit_names_its_errors() {
    let e = |r: &[u64], w: &[u64], s: u64, n: u64, d: u64, a: &[u64]| {
        quote_add_liquidity(r, w, s, n, d, a).err()
    };
    assert_eq!(e(&[], &[], 0, 3, 1000, &[]), Some(ErrorCode::InvalidTokenCount));
    assert_eq!(e(&[1, 2], &[1], 0, 3, 1000, &[1, 2]), Some(ErrorCode::InvalidTokenCount));
    assert_eq!(e(&[1, 2], &[1, 1], 0, 3, 1000, &[1]), Some(ErrorCode::InvalidTokenCount));
    assert_eq!(e(&[1, 2], &[1, 1], 0, 0, 1000, &[1, 2]), Some(ErrorCode::MathOverflow));
    assert_eq!(e(&[1, 2], &[1, 1], 0, 3, 2, &[1, 2]), Some(ErrorCode::MathOverflow));
    assert_eq!(e(&[1, 2], &[1, 0], 0, 3, 1000, &[1, 2]), Some(ErrorCode::InvalidTokenCount));
    assert_eq!(
        e(&[1000, 2000], &[1, 1], 1000, 3, 1000, &[100, 199]),
        Some(ErrorCode::InsufficientTokenAmount)
    );
    assert_eq!(e(&[1, 2], &[1, 1], u64::MAX, 3, 1000, &[2, 4]), Some(ErrorCode::MathOverflow));
    // The fee is checked before the weights, the weights before the amounts.
    assert_eq!(e(&[1, 2], &[0, 1], 0, 0, 1000, &[1, 2]), Some(ErrorCode::MathOverflow));
    assert_eq!(e(&[1000, 2000], &[0, 1], 1000, 3, 1000, &[100, 199]), Some(ErrorCode::InvalidTokenCount));
}

#[test]
fn removal_pays_the_share_less_the_fee() {
    let quote = quote_remove_liquidity(&[1000, 2000], 1000, 1, 100, 100).unwrap();
    assert_eq!(quote.amounts_out, vec![99, 198]);
    assert_eq!(quote.burn_fees, vec![1, 2]);
    let quote = quote_remove_liquidity(&[1000, 2000, 7], 1000, 1, 100, 1000).unwrap();
    assert_eq!(quote.amounts_out, vec![990, 1980, 7]);
    assert_eq!(quote.burn_fees, vec![10, 20, 0]);
    let quote = quote_remove_liquidity(&[1000, 2000], 1000, 1, 100, 0).unwrap();
    assert_eq!(quote.amounts_out, vec![0, 0]);
    assert_eq!(quote.burn_fees, vec![0, 0]);
    let quote = quote_remove_liquidity(&[u64::MAX], u64::MAX, 1, 1, u64::MAX).unwrap();
    assert_eq!(quote.amounts_out, vec![0]);
    assert_eq!(quote.burn_fees, vec![u64::MAX]);
    let quote = quote_remove_liquidity(&[10], 3, 1, 1000, 2).unwrap();
    assert_eq!(quote.amounts_out, vec![6]);
    assert_eq!(quote.burn_fees, vec![0]);
}

#[test]
fn removal_names_its_errors() {
    assert_eq!(quote_remove_liquidity(&[], 10, 1, 100, 1).err(), Some(ErrorCode::InvalidTokenCount));
    assert_eq!(quote_remove_liquidity(&[5], 10, 0, 100, 1).err(), Some(ErrorCode::MathOverflow));
    assert_eq!(quote_remove_liquidity(&[5], 10, 101, 100, 1).err(), Some(ErrorCode::MathOverflow));
    assert_eq!(quote_remove_liquidity(&[5], 10, 1, 100, 11).err(), Some(ErrorCode::MathOverflow));
    assert_eq!(quote_remove_liquidity(&[5], 0, 1, 100, 0).err(), Some(ErrorCode::DivideByZero));
    assert_eq!(quote_remove_liquidity(&[5], 0, 1, 100, 1).err(), Some(ErrorCode::MathOverflow));
}

// What a deposit mints, burnt again, pays back what the deposit took; the
// fee is added back to what is paid, as if there were none.
fn deposit_then_burn(reserves: &[u64], supply: u64, amounts: &[u64]) -> (Vec<u64>, Vec<u64>) {
    let weights = vec![1u64; reserves.len()];
    let added = quote_add_liquidity(reserves, &weights, supply, 1, 1000, amounts).unwrap();
    let after: Vec<u64> = reserves.iter().zip(&added.amounts_used).map(|(r, u)| r + u).collect();
    let removed =
        quote_remove_liquidity(&after, supply + added.lp_minted, 1, 1000, added.lp_minted).unwrap();
    let paid: Vec<u64> =
        removed.amounts_out.iter().zip(&removed.burn_fees).map(|(o, f)| o + f).collect();
    (added.amounts_used, paid)
}

#[test]
fn removal_undoes_a_deposit() {
    // The first deposit comes back whole.
    let (used, paid) = deposit_then_burn(&[0, 0, 0], 0, &[100, 200, 300]);
    assert_eq!(used, vec![100, 200, 300]);
    assert_eq!(paid, used);
    // Where the minted quantity is not rounded, so does a later one.
    let (used, paid) = deposit_then_burn(&[1000, 2000], 1000, &[100, 200]);
    assert_eq!(used, vec![100, 200]);
    assert_eq!(paid, used);
    let (used, paid) = deposit_then_burn(&[4, 10], 2, &[2, 5]);
    assert_eq!(used, vec![2, 5]);
    assert_eq!(paid, used);
    // Where it is rounded and the reserves are no more than the supply, at
    // most one unit is lost of each token.
    let (used, paid) = deposit_then_burn(&[10, 10], 7, &[5, 5]);
    assert_eq!(used, vec![5, 5]);
    assert_eq!(paid, vec![4, 4]);
    // Never more comes back than went in.
    let (used, paid) = deposit_then_burn(&[3, 1_000_000], 1, &[2, 700_000]);
    assert_eq!(used, vec![2, 666_666]);
    assert_eq!(paid, vec![0, 0]);
    let (used, paid) = deposit_then_burn(&[4, 10], 3, &[2, 5]);
    assert_eq!(used, vec![2, 5]);
    assert_eq!(paid, vec![1, 3]);
}

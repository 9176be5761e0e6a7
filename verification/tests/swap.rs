use anyswap::error::ErrorCode;
use anyswap::state::swap::quote_swap;
use anyswap::state::AnySwapPool;

fn any_pool() -> AnySwapPool {
    AnySwapPool::new(&[1u8; 32], 1, 1_000_000).unwrap()
}

#[test]
fn weighted_swap_of_two_tokens_for_one() {
    // Reserves of 1,000,000 each, weights 20, 20 and 80, and 100,000 of
    // each of the first two come in: about 46,537.41 of the third go out.
    let reserves = [1_000_000u64, 1_000_000, 1_000_000];
    let weights = [20u64, 20, 80];
    let amounts_in = [100_000u64, 100_000, 0];
    assert_eq!(quote_swap(&reserves, &weights, 1, 1_000_000, &amounts_in, 2), Ok((46_537, 0)));
    assert_eq!(quote_swap(&reserves, &weights, 3, 1000, &amounts_in, 2), Ok((46_398, 139)));
    let (net, fee) = quote_swap(&reserves, &weights, 3, 1000, &amounts_in, 2).unwrap();
    let gross = (net + fee) as f64;
    assert!((gross - 46_537.41).abs() <= 46_537.41 * 0.001);
}

#[test]
fn equal_weights_keep_the_product() {
    let reserves = [1_000_000u64, 1_000_000, 1_000_000];
    let weights = [1u64, 1, 1];
    let amounts_in = [100_000u64, 100_000, 0];
    let (net, fee) = quote_swap(&reserves, &weights, 1, 1000, &amounts_in, 2).unwrap();
    assert_eq!((net, fee), (173_380, 173));
    let before = 1_000_000u128 * 1_000_000 * 1_000_000;
    let after = 1_100_000u128 * 1_100_000 * (1_000_000 - (net + fee) as u128);
    let diff = if after > before { after - before } else { before - after };
    assert!(diff <= before / 10_000);
}

#[test]
fn a_swap_of_one_token_for_another() {
    assert_eq!(quote_swap(&[1000, 1000], &[1, 1], 1, 100, &[100, 0], 1), Ok((90, 0)));
    assert_eq!(quote_swap(&[5000, 300], &[3, 7], 1, 100, &[0, 25], 0), Ok((843, 8)));
}

#[test]
fn nothing_in_gives_nothing_out() {
    assert_eq!(quote_swap(&[1000, 1000], &[1, 1], 1, 100, &[0, 0], 1), Ok((0, 0)));
    assert_eq!(quote_swap(&[1000], &[1], 1, 100, &[0], 0), Ok((0, 0)));
}

#[test]
fn quote_names_its_errors() {
    let q = quote_swap;
    assert_eq!(q(&[], &[], 1, 100, &[], 0), Err(ErrorCode::InvalidTokenCount));
    assert_eq!(q(&[1, 2], &[1], 1, 100, &[1, 0], 1), Err(ErrorCode::InvalidTokenCount));
    assert_eq!(q(&[1, 2], &[1, 1], 1, 100, &[1], 1), Err(ErrorCode::InvalidTokenCount));
    assert_eq!(q(&[1, 2], &[1, 1], 1, 100, &[1, 0], 2), Err(ErrorCode::InvalidTokenIndex));
    assert_eq!(q(&[1, 2], &[1, 1], 0, 100, &[1, 0], 1), Err(ErrorCode::MathOverflow));
    assert_eq!(q(&[1, 2], &[1, 1], 101, 100, &[1, 0], 1), Err(ErrorCode::MathOverflow));
    assert_eq!(q(&[1, 2], &[0, 1], 1, 100, &[1, 0], 1), Err(ErrorCode::InvalidTokenCount));
    assert_eq!(q(&[1, 2], &[1, 1], 1, 100, &[1, 5], 1), Err(ErrorCode::SameTokenSwap));
    assert_eq!(q(&[1, 0], &[1, 1], 1, 100, &[1, 0], 1), Err(ErrorCode::InsufficientLiquidity));
    assert_eq!(q(&[0, 2], &[1, 1], 1, 100, &[1, 0], 1), Err(ErrorCode::InsufficientLiquidity));
    // A token without reserve that does not take part does no harm.
    assert_eq!(q(&[1000, 1000, 0], &[1, 1, 1], 1, 100, &[100, 0, 0], 1), Ok((90, 0)));
    // A weight so large that the new logarithm is below the domain of the
    // exponential.
    assert_eq!(
        q(&[1, 1], &[u64::MAX, 1], 1, 100, &[u64::MAX, 0], 1),
        Err(ErrorCode::MathOverflow)
    );
}

#[test]
fn pool_swap_moves_amounts_and_fee() {
    let pool = any_pool();
    let moved = pool
        .swap(
            &[true, true, false],
            &[100_000, 100_000, 46_000],
            &[100_000, 500_000, 0],
            &[1_000_000, 1_000_000, 1_000_000],
            &[20, 20, 80],
            3,
            1000,
        )
        .unwrap();
    assert_eq!(moved.amounts, vec![100_000, 100_000, 46_398]);
    assert_eq!(moved.burn_fees, vec![0, 0, 139]);
    // The token that goes out may stand anywhere.
    let moved = pool
        .swap(&[false, true], &[800, 25], &[0, 25], &[5000, 300], &[3, 7], 1, 100)
        .unwrap();
    assert_eq!(moved.amounts, vec![843, 25]);
    assert_eq!(moved.burn_fees, vec![8, 0]);
}

#[test]
fn pool_swap_names_its_errors() {
    let pool = any_pool();
    let r = [1_000_000u64, 1_000_000, 1_000_000];
    let w = [20u64, 20, 80];
    let held = [100_000u64, 100_000, 0];
    let e = |flags: &[bool], amounts: &[u64], held: &[u64], r: &[u64], w: &[u64]| {
        pool.swap(flags, amounts, held, r, w, 3, 1000).err()
    };
    assert_eq!(e(&[], &[], &[], &[], &[]), Some(ErrorCode::InvalidTokenCount));
    assert_eq!(
        e(&[true, false], &[1, 1, 1], &held, &r, &w),
        Some(ErrorCode::InvalidTokenCount)
    );
    assert_eq!(
        e(&[true, true, false], &[1, 1, 1], &held[..2], &r, &w),
        Some(ErrorCode::InvalidTokenCount)
    );
    // No token goes out, or two do.
    assert_eq!(
        e(&[true, true, true], &[1, 1, 1], &held, &r, &w),
        Some(ErrorCode::InvalidTokenCount)
    );
    assert_eq!(
        e(&[true, false, false], &[1, 1, 1], &held, &r, &w),
        Some(ErrorCode::InvalidTokenCount)
    );
    // The user holds too little.
    assert_eq!(
        e(&[true, true, false], &[100_001, 1, 0], &held, &r, &w),
        Some(ErrorCode::InsufficientTokenAmount)
    );
    // Less goes out than the user accepts.
    assert_eq!(
        e(&[true, true, false], &[100_000, 100_000, 46_399], &held, &r, &w),
        Some(ErrorCode::InsufficientTokenAmount)
    );
    // The errors of the quote come through.
    assert_eq!(
        e(&[true, true, false], &[100_000, 100_000, 0], &held, &r, &[20, 0, 80]),
        Some(ErrorCode::InvalidTokenCount)
    );
    assert_eq!(
        e(&[true, true, false], &[100_000, 100_000, 0], &held, &[1, 0, 5], &w),
        Some(ErrorCode::InsufficientLiquidity)
    );
    assert_eq!(
        pool.swap(&[true, false], &[1, 0], &[1, 0], &[5, 5], &[1, 1], 0, 1000).err(),
        Some(ErrorCode::MathOverflow)
    );
}

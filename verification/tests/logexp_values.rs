use anyswap::error::ErrorCode;
use anyswap::math::i256::I256;
use anyswap::math::logexpmath::{
    breakpoint, breakpoint_exp, ln_36_lower_bound, ln_36_upper_bound, max_natural_exponent,
    min_natural_exponent, one_18, one_20, one_36, LogExpMath,
};
use primitive_types::U256;

const ONE: i128 = 1_000_000_000_000_000_000;

fn num(v: i128) -> I256 {
    I256::from(v)
}

fn big(decimal: &str) -> I256 {
    I256::try_from(U256::from_dec_str(decimal).unwrap()).unwrap()
}

#[test]
fn constants_of_the_engine() {
    assert_eq!(one_18(), num(ONE));
    assert_eq!(one_20(), num(100 * ONE));
    assert_eq!(one_36(), num(ONE) * num(ONE));
    assert_eq!(max_natural_exponent(), num(130 * ONE));
    assert_eq!(min_natural_exponent(), num(-41 * ONE));
    assert_eq!(ln_36_lower_bound(), num(900_000_000_000_000_000));
    assert_eq!(ln_36_upper_bound(), num(1_100_000_000_000_000_000));
}

#[test]
fn breakpoints_halve() {
    assert_eq!(breakpoint(0), num(128 * ONE));
    assert_eq!(breakpoint(1), num(64 * ONE));
    assert_eq!(breakpoint(2), num(3200 * ONE));
    for n in 2..11 {
        assert_eq!(breakpoint(n), breakpoint(n + 1) * num(2));
    }
    assert_eq!(breakpoint(11), num(6_250_000_000_000_000_000));
}

#[test]
fn exponentials_of_the_breakpoints() {
    assert_eq!(breakpoint_exp(0), big("38877084059945950922200000000000000000000000000000000000"));
    assert_eq!(breakpoint_exp(1), big("6235149080811616882910000000"));
    assert_eq!(breakpoint_exp(2), big("7896296018268069516100000000000000"));
    assert_eq!(breakpoint_exp(3), big("888611052050787263676000000"));
    assert_eq!(breakpoint_exp(4), big("298095798704172827474000"));
    assert_eq!(breakpoint_exp(5), big("5459815003314423907810"));
    assert_eq!(breakpoint_exp(6), big("738905609893065022723"));
    assert_eq!(breakpoint_exp(7), big("271828182845904523536"));
    assert_eq!(breakpoint_exp(8), big("164872127070012814685"));
    assert_eq!(breakpoint_exp(9), big("128402541668774148407"));
    assert_eq!(breakpoint_exp(10), big("113314845306682631683"));
    assert_eq!(breakpoint_exp(11), big("106449445891785942956"));
}

#[test]
fn exp_exact_values() {
    assert_eq!(LogExpMath::exp(num(0)), Ok(num(ONE)));
    assert_eq!(LogExpMath::exp(num(ONE)), Ok(num(2_718_281_828_459_045_235)));
    assert_eq!(LogExpMath::exp(num(-ONE)), Ok(num(367_879_441_171_442_321)));
    assert_eq!(LogExpMath::exp(num(2 * ONE)), Ok(num(7_389_056_098_930_650_227)));
    assert_eq!(
        LogExpMath::exp(num(100 * ONE)),
        Ok(big("26881171418161354484131967259153438289195652545281114830700000"))
    );
}

#[test]
fn exp_at_the_ends_of_its_domain() {
    assert_eq!(
        LogExpMath::exp(num(130 * ONE)),
        Ok(big("287264955081783193326519143742863858051506000000000000000000000000000000000"))
    );
    assert_eq!(LogExpMath::exp(num(-41 * ONE)), Ok(num(1)));
    assert_eq!(LogExpMath::exp(num(130 * ONE + 1)), Err(ErrorCode::MathOverflow));
    assert_eq!(LogExpMath::exp(num(-41 * ONE - 1)), Err(ErrorCode::MathOverflow));
    assert_eq!(LogExpMath::exp(I256::max_value()), Err(ErrorCode::MathOverflow));
    assert_eq!(LogExpMath::exp(I256::min_value()), Err(ErrorCode::MathOverflow));
}

#[test]
fn ln_exact_values() {
    assert_eq!(LogExpMath::ln(num(ONE)), Ok(num(0)));
    assert_eq!(LogExpMath::ln(num(100 * ONE)), Ok(num(4_605_170_185_988_091_367)));
    assert_eq!(LogExpMath::ln(num(2 * ONE)), Ok(num(693_147_180_559_945_309)));
    assert_eq!(LogExpMath::ln(num(ONE / 2)), Ok(num(-693_147_180_559_945_309)));
    assert_eq!(LogExpMath::ln(num(950_000_000_000_000_000)), Ok(num(-51_293_294_387_550_533)));
    assert_eq!(LogExpMath::ln(num(1)), Ok(num(-41_446_531_673_892_822_312)));
    assert_eq!(LogExpMath::ln(I256::max_value()), Ok(num(135_305_999_368_893_231_589)));
}

#[test]
fn ln_refuses_what_has_no_logarithm() {
    assert_eq!(LogExpMath::ln(num(0)), Err(ErrorCode::MathOverflow));
    assert_eq!(LogExpMath::ln(num(-1)), Err(ErrorCode::MathOverflow));
    assert_eq!(LogExpMath::ln(num(-ONE)), Err(ErrorCode::MathOverflow));
    assert_eq!(LogExpMath::ln(I256::min_value()), Err(ErrorCode::MathOverflow));
}

fn within_a_millionth(value: I256, expected: I256) -> bool {
    let diff = if value > expected { value - expected } else { expected - value };
    let size = if expected < I256::zero() { -expected } else { expected };
    diff * num(1_000_000) <= size
}

#[test]
fn ln_and_exp_undo_each_other() {
    // ln(exp(x)) for x = 100.
    let x = num(100 * ONE);
    let there = LogExpMath::exp(x).unwrap();
    let back = LogExpMath::ln(there).unwrap();
    assert_eq!(back, num(99_999_999_999_999_999_999));
    assert!(within_a_millionth(back, x));
    // exp(ln(x)) for several x.
    for v in [100 * ONE, 3 * ONE, ONE / 7, 123_456 * ONE, 1_050_000_000_000_000_000] {
        let x = num(v);
        let back = LogExpMath::exp(LogExpMath::ln(x).unwrap()).unwrap();
        assert!(within_a_millionth(back, x));
    }
    // ln(exp(x)) for several x.
    for v in [ONE, -ONE, 20 * ONE, -20 * ONE, 77 * ONE / 10] {
        let x = num(v);
        let back = LogExpMath::ln(LogExpMath::exp(x).unwrap()).unwrap();
        assert!(within_a_millionth(back, x));
    }
    // Against the known values of ln(100) and e.
    assert!(within_a_millionth(LogExpMath::ln(num(100 * ONE)).unwrap(), num(4_605_170_185_988_091_368)));
    assert!(within_a_millionth(LogExpMath::exp(num(ONE)).unwrap(), num(2_718_281_828_459_045_235)));
}

#[test]
fn log_exact_values() {
    assert_eq!(LogExpMath::log(num(100 * ONE), num(10 * ONE)), Ok(num(2 * ONE)));
    assert_eq!(
        LogExpMath::log(num(1_050_000_000_000_000_000), num(2 * ONE)),
        Ok(num(70_389_327_891_397_941))
    );
    assert_eq!(LogExpMath::log(num(ONE), num(2 * ONE)), Ok(num(0)));
}

#[test]
fn log_names_its_errors() {
    assert_eq!(LogExpMath::log(num(ONE), num(0)), Err(ErrorCode::DivideByZero));
    assert_eq!(LogExpMath::log(num(0), num(0)), Err(ErrorCode::DivideByZero));
    assert_eq!(LogExpMath::log(num(ONE), num(-ONE)), Err(ErrorCode::MathOverflow));
    assert_eq!(LogExpMath::log(num(0), num(2 * ONE)), Err(ErrorCode::MathOverflow));
    assert_eq!(LogExpMath::log(num(-5), num(2 * ONE)), Err(ErrorCode::MathOverflow));
    // The logarithm of the base 1 is zero.
    assert_eq!(LogExpMath::log(num(5 * ONE), num(ONE)), Err(ErrorCode::DivideByZero));
}

#[test]
fn pow_exact_values() {
    let fp = |v: i128| U256::from(v as u128);
    assert_eq!(LogExpMath::pow(fp(2 * ONE), fp(2 * ONE)), Ok(fp(3_999_999_999_999_999_996)));
    assert_eq!(LogExpMath::pow(fp(4 * ONE), fp(ONE / 2)), Ok(fp(1_999_999_999_999_999_998)));
    assert_eq!(LogExpMath::pow(fp(2 * ONE), fp(3 * ONE)), Ok(fp(7_999_999_999_999_999_989)));
    assert_eq!(LogExpMath::pow(fp(ONE / 2), fp(3 * ONE)), Ok(fp(125_000_000_000_000_000)));
    // Near 1 the logarithm with 36 decimals is used.
    assert_eq!(
        LogExpMath::pow(fp(1_050_000_000_000_000_000), fp(3 * ONE)),
        Ok(fp(1_157_624_999_999_999_999))
    );
}

#[test]
fn pow_conventions() {
    let fp = |v: i128| U256::from(v as u128);
    assert_eq!(LogExpMath::pow(fp(0), fp(0)), Ok(fp(ONE)));
    assert_eq!(LogExpMath::pow(fp(7 * ONE), fp(0)), Ok(fp(ONE)));
    assert_eq!(LogExpMath::pow(U256::MAX, fp(0)), Ok(fp(ONE)));
    assert_eq!(LogExpMath::pow(fp(0), fp(ONE)), Ok(fp(0)));
    assert_eq!(LogExpMath::pow(fp(0), U256::MAX), Ok(fp(0)));
}

#[test]
fn pow_names_its_errors() {
    let fp = |v: i128| U256::from(v as u128);
    // The base does not fit a signed number.
    assert_eq!(LogExpMath::pow(U256::one() << 255, fp(ONE)), Err(ErrorCode::MathOverflow));
    // The exponent is 2^254 / 10^20, the first that is refused.
    let bound = (U256::one() << 254) / U256::from(100_000_000_000_000_000_000u128);
    assert_eq!(LogExpMath::pow(fp(ONE), bound), Err(ErrorCode::MathOverflow));
    // One below is accepted: 1 to any power is 1.
    assert_eq!(LogExpMath::pow(fp(ONE), bound - U256::one()), Ok(fp(ONE)));
    // The product of exponent and logarithm is above 130.
    assert_eq!(LogExpMath::pow(fp(3 * ONE), fp(200 * ONE)), Err(ErrorCode::MathOverflow));
    // And below -41.
    assert_eq!(LogExpMath::pow(fp(ONE / 3), fp(200 * ONE)), Err(ErrorCode::MathOverflow));
}

#[test]
fn ln_at_the_bounds_of_the_wide_logarithm() {
    // Strictly between 0.9 and 1.1 the logarithm is computed with 36
    // decimals; at the bounds themselves by breakpoints.
    assert_eq!(LogExpMath::ln(num(900_000_000_000_000_000)), Ok(num(-105_360_515_657_826_301)));
    assert_eq!(LogExpMath::ln(num(900_000_000_000_000_001)), Ok(num(-105_360_515_657_826_300)));
    assert_eq!(LogExpMath::ln(num(1_099_999_999_999_999_999)), Ok(num(95_310_179_804_324_859)));
    assert_eq!(LogExpMath::ln(num(1_100_000_000_000_000_000)), Ok(num(95_310_179_804_324_859)));
    assert_eq!(LogExpMath::ln(num(ONE + 1)), Ok(num(0)));
    assert_eq!(LogExpMath::ln(num(ONE - 1)), Ok(num(-1)));
}

#[test]
fn exp_at_the_plain_breakpoints() {
    assert_eq!(
        LogExpMath::exp(num(64 * ONE)),
        Ok(big("6235149080811616882910000000000000000000000000"))
    );
    assert_eq!(
        LogExpMath::exp(num(128 * ONE)),
        Ok(big("38877084059945950922200000000000000000000000000000000000000000000000000000"))
    );
    assert_eq!(
        LogExpMath::exp(num(64 * ONE - 1)),
        Ok(big("6235149080811616864515579991899502657625574056"))
    );
}

#[test]
fn ln_at_the_plain_breakpoints() {
    let a0 = breakpoint_exp(0) * one_18();
    let a1 = breakpoint_exp(1) * one_18();
    assert_eq!(LogExpMath::ln(a0), Ok(num(128 * ONE)));
    assert_eq!(LogExpMath::ln(a1), Ok(num(64 * ONE)));
    assert_eq!(LogExpMath::ln(a0 - num(1)), Ok(num(127_999_999_999_999_999_999)));
}

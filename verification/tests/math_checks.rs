//! Checks of the arithmetic core against the independently developed
//! implementations in cosmwasm-std, on the same inputs.

use std::ops::Mul;
use std::str::FromStr;

use cosmwasm_std::{Decimal, Decimal256, Isqrt, Uint128, Uint256};
use cw_zll::liquidity::MarketAsset;
use cw_zll::liquidity_pool::DECIMAL_FRACTIONAL;
use cw_zll::math::{checked_multiply_ratio, checked_pow10, isqrt_u128, isqrt_wide, mul_wide, Wide};

#[test]
fn the_wide_product_matches_a_full_multiplication() {
    let cases: [(u128, u128); 6] = [
        (0, 0),
        (1, u128::MAX),
        (u128::MAX, u128::MAX),
        (2_000_000, 500_000_000),
        (0xdead_beef_0123_4567, 0xfeed_face_89ab_cdef_0011_2233_4455_6677),
        (10_u128.pow(19), 10_u128.pow(19)),
    ];
    for (a, b) in cases {
        let Wide { hi, lo } = mul_wide(a, b);
        let full = Uint128::new(a).full_mul(b);
        let expected_hi: Uint128 = (full >> 128).try_into().unwrap();
        let expected_lo: Uint128 = (full - ((full >> 128) << 128)).try_into().unwrap();
        assert_eq!(hi, expected_hi.u128());
        assert_eq!(lo, expected_lo.u128());
    }
}

#[test]
fn the_square_root_matches_the_integer_square_root() {
    for n in [0u128, 1, 2, 3, 4, 15, 16, 17, 10_u128.pow(15), u128::MAX] {
        assert_eq!(isqrt_u128(n), n.isqrt());
    }
    // a radicand beyond 128 bits
    let w = mul_wide(u128::MAX, u128::MAX);
    assert_eq!(isqrt_wide(w), u128::MAX);
    let product = Uint256::from(2_000_000u128) * Uint256::from(500_000_000u128);
    assert_eq!(
        isqrt_wide(mul_wide(2_000_000, 500_000_000)),
        Uint128::try_from(product.isqrt()).unwrap().u128()
    );
}

#[test]
fn the_floored_ratio_matches_multiply_ratio() {
    let cases: [(u128, u128, u128); 5] = [
        (5, 99, 100),
        (2_000_000, 31_622_776, 2_000_000),
        (1, DECIMAL_FRACTIONAL, 3),
        (u128::MAX, 1, 2),
        (123_456_789, 987_654_321, 192),
    ];
    for (a, num, denom) in cases {
        assert_eq!(
            checked_multiply_ratio(a, num, denom).unwrap(),
            Uint128::new(a).multiply_ratio(num, denom).u128()
        );
    }

    assert!(checked_multiply_ratio(1, 1, 0).is_err());
    // quotient beyond 128 bits
    assert!(checked_multiply_ratio(u128::MAX, 3, 2).is_err());
}

#[test]
fn the_share_ratio_matches_the_fixed_point_decimal() {
    for (amount, total) in [(1u128, 3u128), (100, 100), (31_622_776, 31_622_776), (7, 13)] {
        let ratio = checked_multiply_ratio(amount, DECIMAL_FRACTIONAL, total).unwrap();
        let decimal = Decimal::from_ratio(amount, total);
        assert_eq!(ratio, decimal.atomics().u128());
        // and a reserve scaled by it matches Uint128 * Decimal
        let reserve = 500_000_000u128;
        assert_eq!(
            checked_multiply_ratio(reserve, ratio, DECIMAL_FRACTIONAL).unwrap(),
            (Uint128::new(reserve) * decimal).u128()
        );
    }
}

#[test]
fn powers_of_ten_match_the_checked_power() {
    for e in [0u32, 1, 6, 18, 38] {
        assert_eq!(
            checked_pow10(e).unwrap(),
            Uint128::new(10).checked_pow(e).unwrap().u128()
        );
    }
    assert!(checked_pow10(39).is_none());
    assert!(Uint128::new(10).checked_pow(39).is_err());
}

#[test]
fn the_price_parser_matches_the_decimal_pipeline() {
    let cases: [(&str, u8); 8] = [
        ("0.00000006", 8),
        ("0.0003212", 8),
        ("0.09832422", 8),
        ("1.0", 8),
        ("698.123512", 8),
        ("329698.123512", 8),
        ("95.53", 9),
        ("0019.5", 1),
    ];
    for (input, decimals) in cases {
        let price = Decimal256::from_str(input).unwrap();
        let adjusted = price.mul(Uint256::from_uint128(Uint128::new(10)).pow(decimals as u32));
        let expected: u128 = Uint128::try_from(adjusted).map(|v| v.u128()).unwrap_or(0);
        assert_eq!(MarketAsset::parse_base_price(input, decimals), expected);
    }
    // a malformed input parses to zero through the same fallback
    assert!(Decimal256::from_str("1.2.3").is_err());
    assert_eq!(MarketAsset::parse_base_price("1.2.3", 8), 0);
}

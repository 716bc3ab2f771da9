use cw_zll::liquidity::{
    LiquidityAssetRatio, MarketAsset, MarketLiquidity, MarketLiquidityError,
};

#[test]
fn parses_basic_price_correctly_when_price_is_very_small() {
    let basic_price_str = "0.00000006";
    let decimals = 8u8;

    assert_eq!(MarketAsset::parse_base_price(basic_price_str, decimals), 6);
}

#[test]
fn parses_basic_price_correctly_when_price_is_quite_small() {
    let basic_price_str = "0.0003212";
    let decimals = 8u8;

    assert_eq!(
        MarketAsset::parse_base_price(basic_price_str, decimals),
        32_120
    );
}

#[test]
fn parses_basic_price_correctly_when_price_is_small() {
    let basic_price_str = "0.09832422";
    let decimals = 8u8;

    assert_eq!(
        MarketAsset::parse_base_price(basic_price_str, decimals),
        9_832_422
    );
}

#[test]
fn parses_basic_price_correctly_when_price_is_medium() {
    let basic_price_str = "1.0";
    let decimals = 8u8;

    assert_eq!(
        MarketAsset::parse_base_price(basic_price_str, decimals),
        100_000_000
    );
}

#[test]
fn parses_basic_price_correctly_when_price_is_large() {
    let basic_price_str = "698.123512";
    let decimals = 8u8;

    assert_eq!(
        MarketAsset::parse_base_price(basic_price_str, decimals),
        69_812_351_200
    );
}

#[test]
fn parses_basic_price_correctly_when_price_is_very_large() {
    let basic_price_str = "329698.123512";
    let decimals = 8u8;

    assert_eq!(
        MarketAsset::parse_base_price(basic_price_str, decimals),
        32_969_812_351_200
    );
}

#[test]
fn calculactes_correclty_balanced_market_assets_amounts() {
    // example: 2000 UST (1.0 in USD)
    let borrow_asset = MarketAsset::new(
        2_000_000_000u128,
        MarketAsset::parse_base_price("1.0", 6),
        6,
    );

    // example: 10 Custom Token (95.53 in USD)
    let collateral_asset = MarketAsset::new(
        10_000_000_000u128,
        MarketAsset::parse_base_price("95.53", 9),
        9,
    );

    let expected_borrow_asset_amount = borrow_asset.balance_with(&collateral_asset).unwrap();

    assert_eq!(expected_borrow_asset_amount, 955_300_000_000);

    let expected_collateral_asset_amount = collateral_asset.balance_with(&borrow_asset).unwrap();

    assert_eq!(expected_collateral_asset_amount, 20_935_831);
}

#[test]
fn allows_correctly_balanced_liquidity() {
    // USD equivalent of 10,000.00
    let total_deposit_in_usd = 10_000_000_000u128;
    let equivalent_deposit_in_usd_asset = MarketAsset::new(
        total_deposit_in_usd * 5 / 10,
        MarketAsset::parse_base_price("1.0", 6),
        6,
    );

    // stable coin (1.0 in USD)
    let mut borrow_asset =
        MarketAsset::new(u128::default(), MarketAsset::parse_base_price("1.0", 6), 6);

    borrow_asset.set_amount(
        borrow_asset
            .balance_with(&equivalent_deposit_in_usd_asset)
            .unwrap(),
    );

    // Custom Token (95.53 in USD)
    let mut collateral_asset = MarketAsset::new(
        u128::default(),
        MarketAsset::parse_base_price("95.53", 6),
        6,
    );

    collateral_asset.set_amount(collateral_asset.balance_with(&borrow_asset).unwrap());

    let market_liquidity = MarketLiquidity::new(borrow_asset, collateral_asset);

    assert_eq!(market_liquidity.is_balanced().is_ok(), true)
}

#[test]
fn prevents_incorrectly_balanced_liquidity_when_not_enough_collateral_asset_provided() {
    // USD equivalent of 10,000.00
    let total_deposit_in_usd = 10_000_000_000u128;
    let equivalent_deposit_in_usd_asset = MarketAsset::new(
        total_deposit_in_usd * 5 / 10,
        MarketAsset::parse_base_price("1.0", 6),
        6,
    );

    // stable coin (1.0 in USD)
    let mut borrow_asset =
        MarketAsset::new(u128::default(), MarketAsset::parse_base_price("1.0", 6), 6);

    borrow_asset.set_amount(
        borrow_asset
            .balance_with(&equivalent_deposit_in_usd_asset)
            .unwrap(),
    );

    // Custom Token (95.53 in USD)
    let mut collateral_asset = MarketAsset::new(
        u128::default(),
        MarketAsset::parse_base_price("95.53", 6),
        6,
    );

    let expected_collateral_asset_amount = collateral_asset.balance_with(&borrow_asset).unwrap();

    // let's lower provided asset amount
    let actual_collateral_asset_amount = expected_collateral_asset_amount
        .checked_sub(1u128)
        .unwrap();

    collateral_asset.set_amount(actual_collateral_asset_amount);

    let market_liquidity = MarketLiquidity::new(borrow_asset, collateral_asset);

    assert_eq!(
        market_liquidity.is_balanced().unwrap_err(),
        MarketLiquidityError::collateral_asset_imbalance(
            actual_collateral_asset_amount,
            expected_collateral_asset_amount
        )
    );
}

#[test]
fn prevents_incorrectly_balanced_liquidity_when_not_enough_borrow_asset_provided() {
    // USD equivalent of 10,000.00
    let total_deposit_in_usd = 10_000_000_000u128;
    let equivalent_deposit_in_usd_asset = MarketAsset::new(
        total_deposit_in_usd * 5 / 10,
        MarketAsset::parse_base_price("1.0", 6),
        6,
    );

    // Custom Token (95.53 in USD)
    let mut collateral_asset = MarketAsset::new(
        u128::default(),
        MarketAsset::parse_base_price("95.53", 6),
        6,
    );

    collateral_asset.set_amount(
        collateral_asset
            .balance_with(&equivalent_deposit_in_usd_asset)
            .unwrap(),
    );

    // stable coin (1.0 in USD)
    let mut borrow_asset =
        MarketAsset::new(u128::default(), MarketAsset::parse_base_price("1.0", 6), 6);

    let expected_borrow_asset_amount = borrow_asset.balance_with(&collateral_asset).unwrap();

    // let's lower provided asset amount
    let actual_borrow_asset_amount = expected_borrow_asset_amount.checked_sub(1u128).unwrap();

    borrow_asset.set_amount(actual_borrow_asset_amount);

    let market_liquidity = MarketLiquidity::new(borrow_asset, collateral_asset);

    println!("{:?}", &market_liquidity.is_balanced());

    assert_eq!(
        market_liquidity.is_balanced().unwrap_err(),
        MarketLiquidityError::borrow_asset_imbalance(
            actual_borrow_asset_amount,
            expected_borrow_asset_amount
        )
    );
}

#[test]
fn default_market_asset_has_three_decimals_and_unit_price() {
    let asset = MarketAsset::default();
    assert_eq!(asset.amount, 0);
    assert_eq!(asset.base_price, 1);
    assert_eq!(asset.decimals, 3);
}

#[test]
fn parse_base_price_rejects_malformed_strings() {
    assert_eq!(MarketAsset::parse_base_price("", 6), 0);
    assert_eq!(MarketAsset::parse_base_price(".", 6), 0);
    assert_eq!(MarketAsset::parse_base_price(".5", 6), 0);
    assert_eq!(MarketAsset::parse_base_price("1.", 6), 0);
    assert_eq!(MarketAsset::parse_base_price("1.2.3", 6), 0);
    assert_eq!(MarketAsset::parse_base_price("12a", 6), 0);
    assert_eq!(MarketAsset::parse_base_price("-1.0", 6), 0);
    // more than eighteen fractional digits
    assert_eq!(
        MarketAsset::parse_base_price("1.0000000000000000001", 6),
        0
    );
    // too large for 128 bits once scaled
    assert_eq!(
        MarketAsset::parse_base_price("340282366920938463463374607431768211456", 0),
        0
    );
}

#[test]
fn parse_base_price_keeps_leading_zeros_and_floors() {
    assert_eq!(MarketAsset::parse_base_price("0019.5", 1), 195);
    // flooring: 0.19 at one decimal place is 1.9 minor units, floored to 1
    assert_eq!(MarketAsset::parse_base_price("0.19", 1), 1);
    assert_eq!(MarketAsset::parse_base_price("7", 0), 7);
    assert_eq!(MarketAsset::parse_base_price("1.000000000000000001", 18), {
        1_000_000_000_000_000_001
    });
}

#[test]
fn balance_with_reports_zero_price_as_division_by_zero() {
    let priced = MarketAsset::new(10, 100, 6);
    let unpriced = MarketAsset::new(10, 0, 6);
    assert_eq!(
        unpriced.balance_with(&priced).unwrap_err(),
        MarketLiquidityError::DivideByZeroError {}
    );
}

#[test]
fn balance_with_overflows_on_extreme_decimal_gap() {
    let wide = MarketAsset::new(10, 1, 255);
    let narrow = MarketAsset::new(u128::MAX, 1, 0);
    assert_eq!(
        wide.balance_with(&narrow).unwrap_err(),
        MarketLiquidityError::OverflowError {}
    );
}

use cw_zll::asset::{create_coin_asset, AssetInfo};
use cw_zll::borrow::{BorrowingTerms, BorrowingTermsResponse};
use cw_zll::market::{
    calculate_borrowable_amount, calculate_expiry_time, calculate_interest_cost,
    calculate_oblivious_put_price, execute, execute_borrow, get_borrowable_amount,
    get_borrowing_terms, get_current_market_phase, get_expiry_time, get_interest_cost,
    get_oblivious_put_price, reply_on_instantiate_liquidity_pool, validate_market_phases_info,
    ContractError, INSTANTIATE_LIQUIDITY_POOL_REPLY_ID,
};
use cw_zll::msg::ExecuteMsg;
use cw_zll::response::{MarketPhase, MarketPhasesInfoResponse};
use cw_zll::state::{
    get_alpha, get_blocks_per_year, get_liquidity_pool, get_market_info, get_market_operator,
    set_liquidity_pool, set_market_info, set_market_operator, Config, MarketPhasesInfo,
};

fn phases(a: u64, b: u64, c: u64, d: u64) -> MarketPhasesInfo {
    MarketPhasesInfo {
        market_started_at: a,
        lp_phase_ends_at: b,
        amm_phase_ends_at: c,
        settlement_phase_ends_at: d,
    }
}

fn market_config() -> Config {
    Config {
        market_operator: "operator".to_string(),
        liquidity_pool: "pool".to_string(),
        blocks_per_year: 4_204_800,
        alpha: 200_000_000_000,
        market_phases_info: phases(10, 20, 4_204_830, 8_409_650),
    }
}

#[test]
fn phase_boundaries_must_increase_strictly() {
    assert!(validate_market_phases_info(phases(10, 20, 30, 40)).is_ok());

    // every way of breaking the strict order fails, naming the two heights
    assert_eq!(
        validate_market_phases_info(phases(20, 20, 30, 40)).unwrap_err(),
        ContractError::InvalidPhasesOrder {
            preceding: 20,
            following: 20
        }
    );
    assert_eq!(
        validate_market_phases_info(phases(25, 20, 30, 40)).unwrap_err(),
        ContractError::InvalidPhasesOrder {
            preceding: 25,
            following: 20
        }
    );
    assert_eq!(
        validate_market_phases_info(phases(10, 30, 30, 40)).unwrap_err(),
        ContractError::InvalidPhasesOrder {
            preceding: 30,
            following: 30
        }
    );
    assert_eq!(
        validate_market_phases_info(phases(10, 35, 30, 40)).unwrap_err(),
        ContractError::InvalidPhasesOrder {
            preceding: 35,
            following: 30
        }
    );
    assert_eq!(
        validate_market_phases_info(phases(10, 20, 40, 40)).unwrap_err(),
        ContractError::InvalidPhasesOrder {
            preceding: 40,
            following: 40
        }
    );
    assert_eq!(
        validate_market_phases_info(phases(10, 20, 45, 40)).unwrap_err(),
        ContractError::InvalidPhasesOrder {
            preceding: 45,
            following: 40
        }
    );
}

#[test]
fn the_phase_is_classified_with_inclusive_end_boundaries() {
    let info = phases(10, 20, 30, 40);

    assert_eq!(
        get_current_market_phase(&info, 0),
        MarketPhase::ProvidingLiquidity
    );
    // the last block of the liquidity phase still takes deposits
    assert_eq!(
        get_current_market_phase(&info, 20),
        MarketPhase::ProvidingLiquidity
    );
    // the first block after it belongs to the automated market maker
    assert_eq!(
        get_current_market_phase(&info, 21),
        MarketPhase::AutomatedMarketMaker
    );
    assert_eq!(
        get_current_market_phase(&info, 30),
        MarketPhase::AutomatedMarketMaker
    );
    assert_eq!(get_current_market_phase(&info, 31), MarketPhase::Settlement);
    assert_eq!(get_current_market_phase(&info, 40), MarketPhase::Settlement);
    assert_eq!(
        get_current_market_phase(&info, 41),
        MarketPhase::PostSettlement
    );
}

#[test]
fn phase_capabilities_pick_exactly_one_phase_each() {
    assert!(MarketPhase::ProvidingLiquidity.can_lp_accept_deposits());
    assert!(!MarketPhase::AutomatedMarketMaker.can_lp_accept_deposits());

    assert!(MarketPhase::PostSettlement.can_lp_accept_withdrawals());
    assert!(!MarketPhase::Settlement.can_lp_accept_withdrawals());

    assert!(MarketPhase::AutomatedMarketMaker.can_amm_accept_borrowing());
    assert!(!MarketPhase::ProvidingLiquidity.can_amm_accept_borrowing());
}

#[test]
fn expiry_time_is_the_floored_year_fraction_and_its_root() {
    // exactly one year of blocks left
    let expiry = calculate_expiry_time(100, 4_204_900, 4_204_800).unwrap();
    assert_eq!(expiry.time_to_expiry, 1);
    assert_eq!(expiry.sqrt_time_to_expiry, 1);

    // nine "years" left: the root is floored
    let expiry = calculate_expiry_time(0, 9 * 4_204_800, 4_204_800).unwrap();
    assert_eq!(expiry.time_to_expiry, 9);
    assert_eq!(expiry.sqrt_time_to_expiry, 3);

    let expiry = calculate_expiry_time(0, 8 * 4_204_800, 4_204_800).unwrap();
    assert_eq!(expiry.time_to_expiry, 8);
    assert_eq!(expiry.sqrt_time_to_expiry, 2);
}

#[test]
fn expiry_time_fails_past_the_amm_phase_or_without_a_year_length() {
    assert_eq!(
        calculate_expiry_time(31, 30, 4_204_800).unwrap_err(),
        ContractError::OverflowError {}
    );
    assert_eq!(
        calculate_expiry_time(10, 30, 0).unwrap_err(),
        ContractError::DivideByZeroError {}
    );

    let config = market_config();
    assert_eq!(
        get_expiry_time(&config, 4_204_831).unwrap_err(),
        ContractError::OverflowError {}
    );
    assert!(get_expiry_time(&config, 4_204_830).is_ok());
}

#[test]
fn the_put_price_placeholder_is_zero() {
    assert_eq!(calculate_oblivious_put_price().unwrap(), 0);
    assert_eq!(get_oblivious_put_price(200_000_000_000, 17).unwrap(), 0);
}

#[test]
fn interest_cost_scales_by_the_collateral_decimals() {
    assert_eq!(calculate_interest_cost(3, 2_000_000, 6).unwrap(), 6);
    assert_eq!(calculate_interest_cost(3, 2_500_000, 6).unwrap(), 7);
    assert_eq!(calculate_interest_cost(0, 2_000_000, 6).unwrap(), 0);

    assert_eq!(
        calculate_interest_cost(u128::MAX, 2, 6).unwrap_err(),
        ContractError::OverflowError {}
    );
    // a power of ten too large for 128 bits
    assert_eq!(
        calculate_interest_cost(1, 1, 39).unwrap_err(),
        ContractError::OverflowError {}
    );

    let config = market_config();
    let collateral = create_coin_asset(111_000_000, "uluna");
    assert_eq!(get_interest_cost(&config, &collateral, 100).unwrap(), 0);
}

#[test]
fn borrowable_amount_follows_the_constant_product_formula() {
    // supply 97 after drawing 30 / (2 + 8)
    assert_eq!(calculate_borrowable_amount(100, 30, 2, 8).unwrap(), 97);

    assert_eq!(
        calculate_borrowable_amount(10, 100, 0, 7).unwrap_err(),
        ContractError::OverflowError {}
    );
    assert_eq!(
        calculate_borrowable_amount(5, 5, 0, 0).unwrap_err(),
        ContractError::DivideByZeroError {}
    );
    assert_eq!(
        calculate_borrowable_amount(0, 0, u128::MAX, 1).unwrap_err(),
        ContractError::OverflowError {}
    );

    // the live supplies are still placeholder zeros
    let collateral = create_coin_asset(111_000_000, "uluna");
    assert_eq!(get_borrowable_amount(&collateral).unwrap(), 0);
    let empty = create_coin_asset(0, "uluna");
    assert_eq!(
        get_borrowable_amount(&empty).unwrap_err(),
        ContractError::DivideByZeroError {}
    );
}

#[test]
fn borrowing_terms_name_the_venue_currencies() {
    let config = market_config();
    let collateral = create_coin_asset(111_000_000, "uluna");

    let terms = get_borrowing_terms(&config, collateral, 100).unwrap();
    assert_eq!(terms.borrow.amount, 0);
    assert_eq!(terms.interest.amount, 0);
    assert_eq!(terms.repayment.amount, 0);
    assert!(matches!(
        &terms.borrow.info,
        AssetInfo::NativeToken { denom } if denom == "uluna"
    ));
    assert!(matches!(
        &terms.interest.info,
        AssetInfo::NativeToken { denom } if denom == "uusd"
    ));
    assert!(matches!(
        &terms.repayment.info,
        AssetInfo::NativeToken { denom } if denom == "uusd"
    ));

    let response = BorrowingTermsResponse::from(BorrowingTerms {
        borrow: create_coin_asset(1, "uluna"),
        interest: create_coin_asset(2, "uusd"),
        repayment: create_coin_asset(3, "uusd"),
    });
    assert_eq!(response.borrow.amount, 1);
    assert_eq!(response.interest.amount, 2);
    assert_eq!(response.repayment.amount, 3);
}

#[test]
fn a_borrow_request_above_the_borrowable_amount_is_rejected() {
    let config = market_config();
    let collateral = create_coin_asset(111_000_000, "uluna");
    let expected = create_coin_asset(1, "uluna");

    assert_eq!(
        execute_borrow(&config, &expected, collateral, 100).unwrap_err(),
        ContractError::BorrowExceedsBorrowableAmount {
            expected: 1,
            calculated: 0
        }
    );

    let collateral = create_coin_asset(111_000_000, "uluna");
    let nothing = create_coin_asset(0, "uluna");
    assert!(execute_borrow(&config, &nothing, collateral, 100).is_ok());
}

#[test]
fn borrowing_is_gated_on_the_amm_phase() {
    let config = market_config();

    // height 15 is still in the liquidity-providing phase
    let msg = ExecuteMsg::Borrow {
        expected_borrow: create_coin_asset(0, "uluna"),
        pledged_collateral: create_coin_asset(111_000_000, "uluna"),
    };
    assert_eq!(
        execute(&config, 15, msg).unwrap_err(),
        ContractError::Unauthorized {}
    );

    // height 100 is inside the automated-market-maker phase
    let msg = ExecuteMsg::Borrow {
        expected_borrow: create_coin_asset(0, "uluna"),
        pledged_collateral: create_coin_asset(111_000_000, "uluna"),
    };
    assert!(execute(&config, 100, msg).is_ok());
}

#[test]
fn pool_creation_callback_records_the_address_once() {
    assert_eq!(INSTANTIATE_LIQUIDITY_POOL_REPLY_ID, 1);

    let mut config = market_config();
    config.liquidity_pool = String::new();

    let done = reply_on_instantiate_liquidity_pool(config, "pool".to_string()).unwrap();
    assert_eq!(done.liquidity_pool, "pool");

    let again = reply_on_instantiate_liquidity_pool(done, "other".to_string());
    assert_eq!(again.unwrap_err(), ContractError::Unauthorized {});
}

#[test]
fn the_configuration_updates_return_the_written_record() {
    let config = market_config();
    assert_eq!(get_market_operator(&config), "operator");
    assert_eq!(get_liquidity_pool(&config), "pool");
    assert_eq!(get_blocks_per_year(&config), 4_204_800);
    assert_eq!(get_alpha(&config), 200_000_000_000);

    let config = set_market_operator(config, "new-operator".to_string());
    assert_eq!(get_market_operator(&config), "new-operator");

    let config = set_liquidity_pool(config, "new-pool".to_string());
    assert_eq!(get_liquidity_pool(&config), "new-pool");

    let new_info = phases(1, 2, 3, 4);
    let config = set_market_info(config, new_info);
    assert_eq!(get_market_info(&config), new_info);

    let response = MarketPhasesInfoResponse::from(new_info);
    assert_eq!(response.market_started_at, 1);
    assert_eq!(response.lp_phase_ends_at, 2);
    assert_eq!(response.amm_phase_ends_at, 3);
    assert_eq!(response.settlement_phase_ends_at, 4);
}

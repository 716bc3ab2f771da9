//! The market contract's decision logic: validation of the phase boundaries,
//! the stateless phase classifier, the borrowing-terms pipeline, and the
//! continuation check of the pool sub-contract's creation.

use crate::asset::{create_coin_asset, Asset};
use crate::borrow::{BorrowingTerms, ExpiryTime};
use crate::math::{is_isqrt, isqrt_u128, lemma_pow10_at_least_one, checked_pow10, pow10};
use crate::msg::ExecuteMsg;
use crate::response::MarketPhase;
use crate::state::{Config, MarketPhasesInfo};
use vstd::prelude::*;

verus! {

/// The correlation tag carried by the market's one outstanding sub-operation:
/// the creation of its liquidity-pool contract.
pub const INSTANTIATE_LIQUIDITY_POOL_REPLY_ID: u64 = 1;

/// The pool address a market carries between its creation and the
/// continuation callback that records the real address: the empty string.
pub const ADDR_WHILE_INSTANTIATION: &'static str = "";

/// The decimal places of the collateral currency used by the interest
/// computation, pending a read of the live pair information.
pub const COLLATERAL_CCY_DECIMALS: u8 = 6;

/// How a market call fails.
#[derive(Debug, PartialEq, Eq, Structural)]
pub enum ContractError {
    /// The call is not allowed in the current market phase, or re-runs an
    /// already-completed continuation.
    Unauthorized {},
    /// Checked arithmetic overflowed or underflowed.
    OverflowError {},
    /// A division was taken against a zero divisor.
    DivideByZeroError {},
    /// Two phase boundaries out of strict increasing order: `preceding` must
    /// lie strictly below `following`.
    InvalidPhasesOrder { preceding: u64, following: u64 },
    /// The requested borrow exceeds the amount the pledged collateral covers.
    BorrowExceedsBorrowableAmount { expected: u128, calculated: u128 },
}

/// Accepts phase boundaries only in strict increasing order; the check runs
/// once, at market creation, and a violation is permanent.
pub fn validate_market_phases_info(market_phases_info: MarketPhasesInfo) -> (r: Result<
    MarketPhasesInfo,
    ContractError,
>)
    ensures
        market_phases_info.market_started_at >= market_phases_info.lp_phase_ends_at ==> r == Err::<
            MarketPhasesInfo,
            _,
        >(
            ContractError::InvalidPhasesOrder {
                preceding: market_phases_info.market_started_at,
                following: market_phases_info.lp_phase_ends_at,
            },
        ),
        market_phases_info.market_started_at < market_phases_info.lp_phase_ends_at
            && market_phases_info.lp_phase_ends_at >= market_phases_info.amm_phase_ends_at ==> r
            == Err::<MarketPhasesInfo, _>(
            ContractError::InvalidPhasesOrder {
                preceding: market_phases_info.lp_phase_ends_at,
                following: market_phases_info.amm_phase_ends_at,
            },
        ),
        market_phases_info.market_started_at < market_phases_info.lp_phase_ends_at
            && market_phases_info.lp_phase_ends_at < market_phases_info.amm_phase_ends_at
            && market_phases_info.amm_phase_ends_at
            >= market_phases_info.settlement_phase_ends_at ==> r == Err::<MarketPhasesInfo, _>(
            ContractError::InvalidPhasesOrder {
                preceding: market_phases_info.amm_phase_ends_at,
                following: market_phases_info.settlement_phase_ends_at,
            },
        ),
        market_phases_info.well_formed() ==> r == Ok::<_, ContractError>(market_phases_info),
        r is Ok <==> market_phases_info.well_formed(),
{
    if market_phases_info.market_started_at >= market_phases_info.lp_phase_ends_at {
        return Err(ContractError::InvalidPhasesOrder {
            preceding: market_phases_info.market_started_at,
            following: market_phases_info.lp_phase_ends_at,
        });
    }
    if market_phases_info.lp_phase_ends_at >= market_phases_info.amm_phase_ends_at {
        return Err(ContractError::InvalidPhasesOrder {
            preceding: market_phases_info.lp_phase_ends_at,
            following: market_phases_info.amm_phase_ends_at,
        });
    }
    if market_phases_info.amm_phase_ends_at >= market_phases_info.settlement_phase_ends_at {
        return Err(ContractError::InvalidPhasesOrder {
            preceding: market_phases_info.amm_phase_ends_at,
            following: market_phases_info.settlement_phase_ends_at,
        });
    }
    Ok(market_phases_info)
}

/// The phase a block height falls in: each phase covers the heights up to and
/// including its end boundary, and everything beyond settlement is
/// post-settlement.
pub open spec fn spec_market_phase(
    market_phases_info: MarketPhasesInfo,
    current_block_height: u64,
) -> MarketPhase {
    if current_block_height <= market_phases_info.lp_phase_ends_at {
        MarketPhase::ProvidingLiquidity
    } else if current_block_height <= market_phases_info.amm_phase_ends_at {
        MarketPhase::AutomatedMarketMaker
    } else if current_block_height <= market_phases_info.settlement_phase_ends_at {
        MarketPhase::Settlement
    } else {
        MarketPhase::PostSettlement
    }
}

/// Classifies the current block height against the stored phase boundaries.
/// The phase is recomputed on every query and never cached, so it cannot go
/// stale.
pub fn get_current_market_phase(
    market_phases_info: &MarketPhasesInfo,
    current_block_height: u64,
) -> (r: MarketPhase)
    ensures
        r == spec_market_phase(*market_phases_info, current_block_height),
{
    if current_block_height <= market_phases_info.lp_phase_ends_at {
        return MarketPhase::ProvidingLiquidity;
    }
    if current_block_height <= market_phases_info.amm_phase_ends_at {
        return MarketPhase::AutomatedMarketMaker;
    }
    if current_block_height <= market_phases_info.settlement_phase_ends_at {
        return MarketPhase::Settlement;
    }
    MarketPhase::PostSettlement
}

/// The error with which the expiry-time derivation must fail, or `None` where
/// it succeeds: the engine is only valid up to the end of the
/// automated-market-maker phase, and needs a nonzero blocks-per-year divisor.
pub open spec fn spec_expiry_err(
    current_block_height: u64,
    amm_phase_ends_at: u64,
    blocks_per_year: u64,
) -> Option<ContractError> {
    if current_block_height > amm_phase_ends_at {
        Some(ContractError::OverflowError {})
    } else if blocks_per_year == 0 {
        Some(ContractError::DivideByZeroError {})
    } else {
        None
    }
}

/// A successfully derived expiry time: the floored year-fraction left until
/// the automated-market-maker phase ends, and its floored square root.
pub open spec fn spec_expiry_ok(
    e: ExpiryTime,
    current_block_height: u64,
    amm_phase_ends_at: u64,
    blocks_per_year: u64,
) -> bool {
    &&& e.time_to_expiry == (amm_phase_ends_at - current_block_height) / blocks_per_year as int
    &&& is_isqrt(e.sqrt_time_to_expiry as int, e.time_to_expiry as int)
}

/// Derives the time to expiry from the block heights alone.
pub fn calculate_expiry_time(
    current_block_height: u64,
    amm_phase_ends_at: u64,
    blocks_per_year: u64,
) -> (r: Result<ExpiryTime, ContractError>)
    ensures
        spec_expiry_err(current_block_height, amm_phase_ends_at, blocks_per_year) matches Some(e)
            ==> r == Err::<ExpiryTime, _>(e),
        spec_expiry_err(current_block_height, amm_phase_ends_at, blocks_per_year) is None ==> (
        r matches Ok(e) && spec_expiry_ok(
            e,
            current_block_height,
            amm_phase_ends_at,
            blocks_per_year,
        )),
{
    let remaining = match amm_phase_ends_at.checked_sub(current_block_height) {
        Some(v) => v,
        None => {
            return Err(ContractError::OverflowError {});
        },
    };
    if blocks_per_year == 0 {
        return Err(ContractError::DivideByZeroError {});
    }
    let time_to_expiry = (remaining as u128) / (blocks_per_year as u128);
    let sqrt_time_to_expiry = isqrt_u128(time_to_expiry);
    Ok(ExpiryTime { time_to_expiry, sqrt_time_to_expiry })
}

/// Derives the time to expiry from the stored configuration and the current
/// block height.
pub fn get_expiry_time(config: &Config, current_block_height: u64) -> (r: Result<
    ExpiryTime,
    ContractError,
>)
    ensures
        spec_expiry_err(
            current_block_height,
            config.market_phases_info.amm_phase_ends_at,
            config.blocks_per_year,
        ) matches Some(e) ==> r == Err::<ExpiryTime, _>(e),
        spec_expiry_err(
            current_block_height,
            config.market_phases_info.amm_phase_ends_at,
            config.blocks_per_year,
        ) is None ==> (r matches Ok(e) && spec_expiry_ok(
            e,
            current_block_height,
            config.market_phases_info.amm_phase_ends_at,
            config.blocks_per_year,
        )),
{
    calculate_expiry_time(
        current_block_height,
        config.market_phases_info.amm_phase_ends_at,
        config.blocks_per_year,
    )
}

/// The option-pricing formula. An explicit placeholder: the real formula over
/// the collateral price, its volatility and the square root of the time to
/// expiry is not wired yet, and this single function is where it will go; in
/// the meantime every price is zero.
pub fn calculate_oblivious_put_price() -> (r: Result<u128, ContractError>)
    ensures
        r == Ok::<u128, ContractError>(0),
{
    Ok(0)
}

/// The put price for the given risk parameter and time to expiry; resolves to
/// the placeholder price of zero.
pub fn get_oblivious_put_price(alpha: u64, sqrt_time_to_expiry: u128) -> (r: Result<
    u128,
    ContractError,
>)
    ensures
        r == Ok::<u128, ContractError>(0),
{
    let _ = alpha;
    let _ = sqrt_time_to_expiry;
    calculate_oblivious_put_price()
}

/// `floor(oblivious_put_price * collateral_amount / 10^collateral_decimals)`,
/// checked throughout: an oversized product or an oversized power of ten
/// fails instead of wrapping.
pub fn calculate_interest_cost(
    oblivious_put_price: u128,
    collateral_amount: u128,
    collateral_ccy_decimals: u8,
) -> (r: Result<u128, ContractError>)
    ensures
        oblivious_put_price * collateral_amount > u128::MAX ==> r == Err::<u128, _>(
            ContractError::OverflowError {},
        ),
        oblivious_put_price * collateral_amount <= u128::MAX && pow10(
            collateral_ccy_decimals as nat,
        ) > u128::MAX ==> r == Err::<u128, _>(ContractError::OverflowError {}),
        oblivious_put_price * collateral_amount <= u128::MAX && pow10(
            collateral_ccy_decimals as nat,
        ) <= u128::MAX ==> r == Ok::<u128, ContractError>(
            (oblivious_put_price * collateral_amount / pow10(
                collateral_ccy_decimals as nat,
            ) as int) as u128,
        ),
{
    let product = match oblivious_put_price.checked_mul(collateral_amount) {
        Some(v) => v,
        None => {
            return Err(ContractError::OverflowError {});
        },
    };
    let divisor = match checked_pow10(collateral_ccy_decimals as u32) {
        Some(v) => v,
        None => {
            return Err(ContractError::OverflowError {});
        },
    };
    proof {
        lemma_pow10_at_least_one(collateral_ccy_decimals as nat);
    }
    Ok(product / divisor)
}

/// The interest owed on the pledged collateral for the time left until the
/// automated-market-maker phase ends. With the placeholder put price of zero,
/// a successful derivation always costs zero.
pub fn get_interest_cost(
    config: &Config,
    pledged_collateral: &Asset,
    current_block_height: u64,
) -> (r: Result<u128, ContractError>)
    ensures
        spec_expiry_err(
            current_block_height,
            config.market_phases_info.amm_phase_ends_at,
            config.blocks_per_year,
        ) matches Some(e) ==> r == Err::<u128, _>(e),
        spec_expiry_err(
            current_block_height,
            config.market_phases_info.amm_phase_ends_at,
            config.blocks_per_year,
        ) is None ==> r == Ok::<u128, ContractError>(0),
{
    let expiry_time = match get_expiry_time(config, current_block_height) {
        Ok(v) => v,
        Err(e) => {
            return Err(e);
        },
    };
    let oblivious_put_price = match get_oblivious_put_price(
        config.alpha,
        expiry_time.sqrt_time_to_expiry,
    ) {
        Ok(v) => v,
        Err(e) => {
            return Err(e);
        },
    };
    proof {
        reveal_with_fuel(pow10, 8);
        assert(pow10(COLLATERAL_CCY_DECIMALS as nat) == 1_000_000);
    }
    calculate_interest_cost(oblivious_put_price, pledged_collateral.amount, COLLATERAL_CCY_DECIMALS)
}

/// `borrow_supply - amm_constant / (collateral_supply + collateral_amount)`,
/// the constant-product borrowing-capacity formula, checked throughout.
pub fn calculate_borrowable_amount(
    borrow_ccy_supply: u128,
    amm_constant: u128,
    collateral_ccy_supply: u128,
    collateral_amount: u128,
) -> (r: Result<u128, ContractError>)
    ensures
        collateral_ccy_supply + collateral_amount > u128::MAX ==> r == Err::<u128, _>(
            ContractError::OverflowError {},
        ),
        collateral_ccy_supply + collateral_amount == 0 ==> r == Err::<u128, _>(
            ContractError::DivideByZeroError {},
        ),
        0 < collateral_ccy_supply + collateral_amount <= u128::MAX && amm_constant as int / (
        collateral_ccy_supply + collateral_amount) > borrow_ccy_supply ==> r == Err::<u128, _>(
            ContractError::OverflowError {},
        ),
        0 < collateral_ccy_supply + collateral_amount <= u128::MAX && amm_constant as int / (
        collateral_ccy_supply + collateral_amount) <= borrow_ccy_supply ==> r == Ok::<
            u128,
            ContractError,
        >(
            (borrow_ccy_supply - amm_constant as int / (collateral_ccy_supply
                + collateral_amount)) as u128,
        ),
{
    let pool_total = match collateral_ccy_supply.checked_add(collateral_amount) {
        Some(v) => v,
        None => {
            return Err(ContractError::OverflowError {});
        },
    };
    let drawn = match amm_constant.checked_div(pool_total) {
        Some(v) => v,
        None => {
            return Err(ContractError::DivideByZeroError {});
        },
    };
    match borrow_ccy_supply.checked_sub(drawn) {
        Some(v) => Ok(v),
        None => Err(ContractError::OverflowError {}),
    }
}

/// The amount the pledged collateral allows a borrower to draw. The three
/// supply figures are placeholder zeros pending a live query into the pool's
/// reserves, so a successful derivation is always zero, and pledging zero
/// collateral fails on the zero pool total.
pub fn get_borrowable_amount(pledged_collateral: &Asset) -> (r: Result<u128, ContractError>)
    ensures
        pledged_collateral.amount == 0 ==> r == Err::<u128, _>(
            ContractError::DivideByZeroError {},
        ),
        pledged_collateral.amount > 0 ==> r == Ok::<u128, ContractError>(0),
{
    let borrow_ccy_supply: u128 = 0;
    let amm_constant: u128 = 0;
    let collateral_ccy_supply: u128 = 0;
    calculate_borrowable_amount(
        borrow_ccy_supply,
        amm_constant,
        collateral_ccy_supply,
        pledged_collateral.amount,
    )
}

/// The error with which the whole borrowing-terms derivation must fail, or
/// `None` where it succeeds.
pub open spec fn spec_borrowing_terms_err(
    config: Config,
    pledged_collateral: Asset,
    current_block_height: u64,
) -> Option<ContractError> {
    if pledged_collateral.amount == 0 {
        Some(ContractError::DivideByZeroError {})
    } else {
        spec_expiry_err(
            current_block_height,
            config.market_phases_info.amm_phase_ends_at,
            config.blocks_per_year,
        )
    }
}

/// Derives the borrowing terms for the pledged collateral: the borrowable
/// amount, the interest cost, and the (placeholder) repayment, each as a
/// native-currency asset.
pub fn get_borrowing_terms(
    config: &Config,
    pledged_collateral: Asset,
    current_block_height: u64,
) -> (r: Result<BorrowingTerms, ContractError>)
    ensures
        spec_borrowing_terms_err(*config, pledged_collateral, current_block_height) matches Some(e)
            ==> r == Err::<BorrowingTerms, _>(e),
        spec_borrowing_terms_err(*config, pledged_collateral, current_block_height) is None ==> (
        r matches Ok(t) && {
            &&& t.borrow.amount == 0
            &&& (t.borrow.info matches crate::asset::AssetInfo::NativeToken { denom } && denom@
                == "uluna"@)
            &&& t.interest.amount == 0
            &&& (t.interest.info matches crate::asset::AssetInfo::NativeToken { denom } && denom@
                == "uusd"@)
            &&& t.repayment.amount == 0
            &&& (t.repayment.info matches crate::asset::AssetInfo::NativeToken { denom } && denom@
                == "uusd"@)
        }),
{
    let borrowable_amount = match get_borrowable_amount(&pledged_collateral) {
        Ok(v) => v,
        Err(e) => {
            return Err(e);
        },
    };
    let interest_amount = match get_interest_cost(config, &pledged_collateral, current_block_height)
        {
        Ok(v) => v,
        Err(e) => {
            return Err(e);
        },
    };
    Ok(
        BorrowingTerms {
            borrow: create_coin_asset(borrowable_amount, "uluna"),
            interest: create_coin_asset(interest_amount, "uusd"),
            repayment: create_coin_asset(0, "uusd"),
        },
    )
}

/// The outcome a borrow execution must have: the derivation's own error, or a
/// rejection where the requested amount exceeds the borrowable amount, which
/// is zero until the supply figures are wired to the live reserves.
pub open spec fn spec_execute_borrow(
    config: Config,
    expected_borrow: Asset,
    pledged_collateral: Asset,
    current_block_height: u64,
) -> Result<(), ContractError> {
    match spec_borrowing_terms_err(config, pledged_collateral, current_block_height) {
        Some(e) => Err(e),
        None => if expected_borrow.amount > 0 {
            Err(
                ContractError::BorrowExceedsBorrowableAmount {
                    expected: expected_borrow.amount,
                    calculated: 0,
                },
            )
        } else {
            Ok(())
        },
    }
}

/// Executes a borrow request: derives the terms and rejects a request above
/// the borrowable amount. The ledger moves are the caller's to perform.
pub fn execute_borrow(
    config: &Config,
    expected_borrow: &Asset,
    pledged_collateral: Asset,
    current_block_height: u64,
) -> (r: Result<(), ContractError>)
    ensures
        r == spec_execute_borrow(*config, *expected_borrow, pledged_collateral,
            current_block_height),
{
    let terms = match get_borrowing_terms(config, pledged_collateral, current_block_height) {
        Ok(t) => t,
        Err(e) => {
            return Err(e);
        },
    };
    if expected_borrow.amount > terms.borrow.amount {
        return Err(ContractError::BorrowExceedsBorrowableAmount {
            expected: expected_borrow.amount,
            calculated: terms.borrow.amount,
        });
    }
    Ok(())
}

/// Routes an execute call: every operation is gated on the phase the current
/// block height falls in before its own logic runs.
pub fn execute(config: &Config, current_block_height: u64, msg: ExecuteMsg) -> (r: Result<
    (),
    ContractError,
>)
    ensures
        !(spec_market_phase(config.market_phases_info, current_block_height)
            is AutomatedMarketMaker) ==> r == Err::<(), _>(ContractError::Unauthorized {}),
        spec_market_phase(config.market_phases_info, current_block_height)
            is AutomatedMarketMaker ==> (msg matches ExecuteMsg::Borrow {
            expected_borrow,
            pledged_collateral,
        } && r == spec_execute_borrow(
            *config,
            expected_borrow,
            pledged_collateral,
            current_block_height,
        )),
{
    let market_phase = get_current_market_phase(&config.market_phases_info, current_block_height);
    match msg {
        ExecuteMsg::Borrow { expected_borrow, pledged_collateral } => {
            if !market_phase.can_amm_accept_borrowing() {
                return Err(ContractError::Unauthorized {});
            }
            execute_borrow(config, &expected_borrow, pledged_collateral, current_block_height)
        },
    }
}

/// Completes the market's two-phase creation: records the pool sub-contract's
/// address delivered by the continuation callback. Runs at most once: a
/// market whose pool address is already recorded refuses the callback.
pub fn reply_on_instantiate_liquidity_pool(config: Config, liquidity_pool: String) -> (r: Result<
    Config,
    ContractError,
>)
    ensures
        config.liquidity_pool@.len() != 0 ==> r == Err::<Config, _>(ContractError::Unauthorized {}),
        config.liquidity_pool@.len() == 0 ==> (r matches Ok(c) && {
            &&& c.liquidity_pool == liquidity_pool
            &&& c.market_operator == config.market_operator
            &&& c.blocks_per_year == config.blocks_per_year
            &&& c.alpha == config.alpha
            &&& c.market_phases_info == config.market_phases_info
        }),
{
    if !config.liquidity_pool.as_str().is_empty() {
        return Err(ContractError::Unauthorized {});
    }
    Ok(crate::state::set_liquidity_pool(config, liquidity_pool))
}

} // verus!

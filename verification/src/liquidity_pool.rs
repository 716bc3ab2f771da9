//! The constant-product liquidity pool: share pricing for two-sided deposits,
//! proportional redemption for share burns, and the phase gates and
//! continuation checks that guard them.

use crate::asset::{Asset, AssetInfo};
use crate::math::{
    checked_multiply_ratio, is_isqrt, isqrt_wide, mul_wide, CheckedMultiplyRatioError,
};
use crate::response::MarketPhase;
use vstd::prelude::*;

verus! {

/// The correlation tag carried by the pool's one outstanding sub-operation:
/// the creation of its share-token contract.
pub const INSTANTIATE_TOKEN_REPLY_ID: u64 = 1;

/// The share-token address a pool carries between its creation and the
/// continuation callback that records the real address: the empty string.
pub const ADDR_WHILE_INSTANTIATION: &'static str = "";

/// One share-ratio unit: refund ratios are fixed-point values with eighteen
/// decimal places, so small burns against large reserves do not truncate to
/// zero prematurely.
pub const DECIMAL_FRACTIONAL: u128 = 1_000_000_000_000_000_000;

/// How a pool call fails.
#[derive(Debug, PartialEq, Eq, Structural)]
pub enum ContractError {
    /// The call is not allowed in the current market phase, comes from the
    /// wrong sender, or re-runs an already-completed continuation.
    Unauthorized {},
    /// The two pool sides were declared with the same asset identity.
    DoublingAssets {},
    /// A supplied asset matches neither of the pool's two reserve slots.
    AssetMismatch {},
    /// A deposit with a zero amount on either side.
    InvalidZeroAmount {},
    /// Checked arithmetic overflowed or underflowed.
    OverflowError {},
    /// A ratio was taken against a zero reserve or supply.
    DivideByZeroError {},
}

/// General pair information: the pool's two asset identities, its own
/// address, and the address of its share token.
#[derive(Debug)]
pub struct PairInfo {
    pub asset_infos: [AssetInfo; 2],
    pub contract_addr: String,
    pub liquidity_token: String,
}

/// The pool's stored configuration: its pair information and the address of
/// the market contract that gates its operations.
#[derive(Debug)]
pub struct Config {
    pub pair_info: PairInfo,
    pub factory_addr: String,
}

/// A pool may only be created over two distinct asset identities.
pub fn validate_asset_infos(asset_infos: &[AssetInfo; 2]) -> (r: Result<(), ContractError>)
    ensures
        asset_infos[0].spec_equal(&asset_infos[1]) ==> r == Err::<(), _>(
            ContractError::DoublingAssets {},
        ),
        !asset_infos[0].spec_equal(&asset_infos[1]) ==> r == Ok::<_, ContractError>(()),
{
    if asset_infos[0].equal(&asset_infos[1]) {
        Err(ContractError::DoublingAssets {})
    } else {
        Ok(())
    }
}

/// Deposits are accepted only while the market provides liquidity.
pub fn assert_deposits_enabled(phase: MarketPhase) -> (r: Result<(), ContractError>)
    ensures
        phase is ProvidingLiquidity ==> r == Ok::<_, ContractError>(()),
        !(phase is ProvidingLiquidity) ==> r == Err::<(), _>(ContractError::Unauthorized {}),
{
    if !phase.can_lp_accept_deposits() {
        return Err(ContractError::Unauthorized {});
    }
    Ok(())
}

/// Withdrawals are accepted only after settlement has completed.
pub fn assert_withrawals_enabled(phase: MarketPhase) -> (r: Result<(), ContractError>)
    ensures
        phase is PostSettlement ==> r == Ok::<_, ContractError>(()),
        !(phase is PostSettlement) ==> r == Err::<(), _>(ContractError::Unauthorized {}),
{
    if !phase.can_lp_accept_withdrawals() {
        return Err(ContractError::Unauthorized {});
    }
    Ok(())
}

/// Hook for a market-level balance rule on the deposited pair. No pricing is
/// configured at the market level yet, so every deposit ratio is accepted.
pub fn assert_balanced_assets_ratio(assets: &[Asset; 2]) -> (r: Result<(), ContractError>)
    ensures
        r == Ok::<_, ContractError>(()),
{
    let _ = assets;
    Ok(())
}

/// The deposited amount whose asset identity matches `info`: the first of the
/// two supplied assets that matches, or nothing when neither does.
pub open spec fn spec_deposit_for(assets: &[Asset; 2], info: &AssetInfo) -> Option<u128> {
    if assets[0].info.spec_equal(info) {
        Some(assets[0].amount)
    } else if assets[1].info.spec_equal(info) {
        Some(assets[1].amount)
    } else {
        None
    }
}

fn deposit_for(assets: &[Asset; 2], info: &AssetInfo) -> (r: Option<u128>)
    ensures
        r == spec_deposit_for(assets, info),
{
    if assets[0].info.equal(info) {
        Some(assets[0].amount)
    } else if assets[1].info.equal(info) {
        Some(assets[1].amount)
    } else {
        None
    }
}

/// The reserve of one pool side before the deposit under way. A native
/// deposit is already reflected in the pool balance when the contract runs,
/// so it is subtracted back out; a token deposit is not yet received. A
/// negative value means the subtraction underflowed.
pub open spec fn spec_pre_reserve(pool: Asset, deposit: u128) -> int {
    if pool.info is NativeToken {
        pool.amount - deposit
    } else {
        pool.amount as int
    }
}

/// The error with which a deposit must fail, or `None` where it succeeds:
/// unmatched asset identities, a zero amount, an underflowing baseline, and
/// then each per-side ratio's divide-by-zero or oversized quotient, in the
/// order the computation meets them.
pub open spec fn spec_provide_error(
    assets: &[Asset; 2],
    pools: &[Asset; 2],
    total_share: u128,
) -> Option<ContractError> {
    match (spec_deposit_for(assets, &pools[0].info), spec_deposit_for(assets, &pools[1].info)) {
        (Some(d0), Some(d1)) => {
            if d0 == 0 || d1 == 0 {
                Some(ContractError::InvalidZeroAmount {})
            } else {
                let p0 = spec_pre_reserve(pools[0], d0);
                let p1 = spec_pre_reserve(pools[1], d1);
                if p0 < 0 || p1 < 0 {
                    Some(ContractError::OverflowError {})
                } else if total_share == 0 {
                    None
                } else if p0 == 0 {
                    Some(ContractError::DivideByZeroError {})
                } else if d0 * total_share / p0 > u128::MAX {
                    Some(ContractError::OverflowError {})
                } else if p1 == 0 {
                    Some(ContractError::DivideByZeroError {})
                } else if d1 * total_share / p1 > u128::MAX {
                    Some(ContractError::OverflowError {})
                } else {
                    None
                }
            }
        },
        _ => Some(ContractError::AssetMismatch {}),
    }
}

/// The shares minted by a deposit into a pool that already has shares
/// outstanding: each side's floored ratio `deposit * total_share /
/// pre_deposit_reserve`, and the smaller of the two, so an imbalanced deposit
/// cannot over-mint against its smaller side.
pub open spec fn spec_subsequent_share(d0: u128, d1: u128, p0: int, p1: int, t: u128) -> int {
    let r0 = d0 * t / p0;
    let r1 = d1 * t / p1;
    if r0 <= r1 {
        r0
    } else {
        r1
    }
}

/// Prices a two-sided deposit into the pool and returns the number of pool
/// shares to mint.
///
/// `assets` are the deposited amounts, `pools` the pool's reserves as read
/// from the ledger at call time (native deposits therefore already included),
/// and `total_share` the share token's current supply. The first deposit ever
/// is priced as the floored square root of the product of the two amounts;
/// any later deposit as the minimum of the two per-side ratios.
pub fn provide_liquidity(assets: &[Asset; 2], pools: &[Asset; 2], total_share: u128) -> (r: Result<
    u128,
    ContractError,
>)
    ensures
        spec_provide_error(assets, pools, total_share) matches Some(e) ==> r == Err::<u128, _>(e),
        spec_provide_error(assets, pools, total_share) is None ==> {
            let d0 = spec_deposit_for(assets, &pools[0].info)->0;
            let d1 = spec_deposit_for(assets, &pools[1].info)->0;
            let p0 = spec_pre_reserve(pools[0], d0);
            let p1 = spec_pre_reserve(pools[1], d1);
            if total_share == 0 {
                r matches Ok(s) && is_isqrt(s as int, d0 * d1)
            } else {
                r == Ok::<u128, ContractError>(
                    spec_subsequent_share(d0, d1, p0, p1, total_share) as u128,
                )
            }
        },
{
    let d0 = match deposit_for(assets, &pools[0].info) {
        Some(d) => d,
        None => {
            return Err(ContractError::AssetMismatch {});
        },
    };
    let d1 = match deposit_for(assets, &pools[1].info) {
        Some(d) => d,
        None => {
            return Err(ContractError::AssetMismatch {});
        },
    };
    if d0 == 0 || d1 == 0 {
        return Err(ContractError::InvalidZeroAmount {});
    }
    let p0 = if pools[0].info.is_native_token() {
        match pools[0].amount.checked_sub(d0) {
            Some(v) => v,
            None => {
                return Err(ContractError::OverflowError {});
            },
        }
    } else {
        pools[0].amount
    };
    let p1 = if pools[1].info.is_native_token() {
        match pools[1].amount.checked_sub(d1) {
            Some(v) => v,
            None => {
                return Err(ContractError::OverflowError {});
            },
        }
    } else {
        pools[1].amount
    };
    if total_share == 0 {
        let product = mul_wide(d0, d1);
        Ok(isqrt_wide(product))
    } else {
        let r0 = match checked_multiply_ratio(d0, total_share, p0) {
            Ok(v) => v,
            Err(CheckedMultiplyRatioError::DivideByZero) => {
                return Err(ContractError::DivideByZeroError {});
            },
            Err(CheckedMultiplyRatioError::Overflow) => {
                return Err(ContractError::OverflowError {});
            },
        };
        let r1 = match checked_multiply_ratio(d1, total_share, p1) {
            Ok(v) => v,
            Err(CheckedMultiplyRatioError::DivideByZero) => {
                return Err(ContractError::DivideByZeroError {});
            },
            Err(CheckedMultiplyRatioError::Overflow) => {
                return Err(ContractError::OverflowError {});
            },
        };
        if r0 <= r1 {
            Ok(r0)
        } else {
            Ok(r1)
        }
    }
}

/// Law: a deposit in the exact ratio of the pre-deposit reserves loses
/// nothing to the minimum — both per-side ratios agree, and the minted share
/// is that common floored ratio.
pub proof fn lemma_balanced_deposit_shares(d0: u128, d1: u128, p0: u128, p1: u128, t: u128)
    requires
        p0 > 0,
        p1 > 0,
        d0 * p1 == d1 * p0,
    ensures
        d0 * t / p0 as int == d1 * t / p1 as int,
        spec_subsequent_share(d0, d1, p0 as int, p1 as int, t) == d0 * t / p0 as int,
{
    let x0 = d0 as int * t as int;
    let x1 = d1 as int * t as int;
    let q = x0 / p0 as int;
    vstd::arithmetic::div_mod::lemma_fundamental_div_mod(x0, p0 as int);
    let rem = x0 % p0 as int;
    assert(0 <= rem < p0 as int) by {
        vstd::arithmetic::div_mod::lemma_mod_bound(x0, p0 as int);
        assert(x0 >= 0) by (nonlinear_arith)
            requires
                x0 == d0 * t,
        ;
    }
    assert(q * p1 <= x1 && x1 < (q + 1) * p1) by (nonlinear_arith)
        requires
            x0 == p0 * q + rem,
            0 <= rem < p0 as int,
            d0 * p1 == d1 * p0,
            x0 == d0 * t,
            x1 == d1 * t,
            p0 > 0,
            p1 > 0,
    ;
    assert(0 <= x1 - q * (p1 as int) && x1 - q * (p1 as int) < p1 as int) by (nonlinear_arith)
        requires
            q * p1 <= x1,
            x1 < (q + 1) * p1,
            p1 > 0,
    ;
    vstd::arithmetic::div_mod::lemma_fundamental_div_mod_converse_div(
        x1,
        p1 as int,
        q,
        x1 - q * (p1 as int),
    );
}

/// Law: a deposit of `k` times each pre-deposit reserve against total share
/// `t` mints exactly `k * t` shares.
pub proof fn lemma_proportional_deposit_scales_share(
    d0: u128,
    d1: u128,
    r0: u128,
    r1: u128,
    t: u128,
    k: u128,
)
    requires
        r0 > 0,
        r1 > 0,
        d0 == k * r0,
        d1 == k * r1,
    ensures
        spec_subsequent_share(d0, d1, r0 as int, r1 as int, t) == k * t,
{
    assert(d0 * r1 == d1 * r0) by (nonlinear_arith)
        requires
            d0 == k * r0,
            d1 == k * r1,
    ;
    lemma_balanced_deposit_shares(d0, d1, r0, r1, t);
    assert(d0 as int * t as int == r0 as int * (k as int * t as int)) by (nonlinear_arith)
        requires
            d0 == k * r0,
    ;
    vstd::arithmetic::div_mod::lemma_div_multiples_vanish(k as int * t as int, r0 as int);
}

/// The fixed-point ratio of a burn against the outstanding shares, in
/// eighteen-decimal units; zero where no shares are outstanding.
pub open spec fn spec_share_ratio(amount: u128, total_share: u128) -> int {
    if total_share == 0 {
        0
    } else {
        amount * DECIMAL_FRACTIONAL / total_share as int
    }
}

/// The refund of one reserve for a burn: the reserve scaled by the
/// fixed-point share ratio, floored.
pub open spec fn spec_refund_amount(reserve: u128, amount: u128, total_share: u128) -> int {
    reserve * spec_share_ratio(amount, total_share) / DECIMAL_FRACTIONAL as int
}

/// A burn never refunds more than each reserve.
pub proof fn lemma_refund_bounded(reserve: u128, amount: u128, total_share: u128)
    requires
        total_share > 0 ==> amount <= total_share,
    ensures
        0 <= spec_refund_amount(reserve, amount, total_share) <= reserve,
{
    if total_share == 0 {
        assert(spec_refund_amount(reserve, amount, total_share) == 0);
    } else {
        assert(0 <= spec_share_ratio(amount, total_share) <= DECIMAL_FRACTIONAL)
            by (nonlinear_arith)
            requires
                0 < total_share,
                amount <= total_share,
                spec_share_ratio(amount, total_share) == amount * DECIMAL_FRACTIONAL
                    / total_share as int,
        ;
        assert(0 <= spec_refund_amount(reserve, amount, total_share) <= reserve)
            by (nonlinear_arith)
            requires
                0 <= spec_share_ratio(amount, total_share) <= DECIMAL_FRACTIONAL,
                spec_refund_amount(reserve, amount, total_share) == reserve * spec_share_ratio(
                    amount,
                    total_share,
                ) / DECIMAL_FRACTIONAL as int,
        ;
    }
}

/// Law: an initial deposit, followed by burning all the shares it minted
/// against the post-deposit reserves, refunds exactly the deposit — the round
/// trip neither creates nor destroys value.
pub proof fn lemma_provide_then_withdraw_round_trip(d0: u128, d1: u128, s: u128)
    requires
        d0 > 0,
        d1 > 0,
        is_isqrt(s as int, d0 * d1),
    ensures
        s >= 1,
        spec_refund_amount(d0, s, s) == d0,
        spec_refund_amount(d1, s, s) == d1,
{
    assert(s >= 1) by (nonlinear_arith)
        requires
            (s + 1) * (s + 1) > d0 * d1,
            d0 >= 1,
            d1 >= 1,
    ;
    vstd::arithmetic::div_mod::lemma_div_multiples_vanish(
        DECIMAL_FRACTIONAL as int,
        s as int,
    );
    assert(s as int * DECIMAL_FRACTIONAL as int == s as int * DECIMAL_FRACTIONAL as int);
    assert(spec_share_ratio(s, s) == DECIMAL_FRACTIONAL);
    vstd::arithmetic::div_mod::lemma_div_multiples_vanish(d0 as int, DECIMAL_FRACTIONAL as int);
    vstd::arithmetic::div_mod::lemma_div_multiples_vanish(d1 as int, DECIMAL_FRACTIONAL as int);
    assert(d0 as int * DECIMAL_FRACTIONAL as int == DECIMAL_FRACTIONAL as int * d0 as int)
        by (nonlinear_arith);
    assert(d1 as int * DECIMAL_FRACTIONAL as int == DECIMAL_FRACTIONAL as int * d1 as int)
        by (nonlinear_arith);
}

/// The pool assets that correspond to an amount of burned shares: each
/// reserve scaled by the fixed-point share ratio. The burn amount is taken as
/// already balance-checked by the share token, so it never exceeds the
/// outstanding supply.
pub fn get_share_in_assets(pools: &[Asset; 2], amount: u128, total_share: u128) -> (r: Vec<Asset>)
    requires
        total_share > 0 ==> amount <= total_share,
    ensures
        r@.len() == 2,
        r@[0].info == pools[0].info,
        r@[1].info == pools[1].info,
        r@[0].amount == spec_refund_amount(pools[0].amount, amount, total_share),
        r@[1].amount == spec_refund_amount(pools[1].amount, amount, total_share),
{
    let ratio: u128 = if total_share == 0 {
        0
    } else {
        proof {
            assert(amount * DECIMAL_FRACTIONAL / total_share as int <= DECIMAL_FRACTIONAL)
                by (nonlinear_arith)
                requires
                    0 < total_share,
                    amount <= total_share,
            ;
        }
        // the bound proved above rules both failure modes out
        match checked_multiply_ratio(amount, DECIMAL_FRACTIONAL, total_share) {
            Ok(v) => v,
            Err(_) => {
                proof {
                    assert(false);
                }
                0
            },
        }
    };
    let refund0 = refund_side(pools[0].amount, ratio);
    let refund1 = refund_side(pools[1].amount, ratio);
    let mut r: Vec<Asset> = Vec::new();
    r.push(Asset { info: pools[0].info.clone(), amount: refund0 });
    r.push(Asset { info: pools[1].info.clone(), amount: refund1 });
    r
}

/// One reserve scaled by a fixed-point ratio of at most one unit.
fn refund_side(reserve: u128, ratio: u128) -> (r: u128)
    requires
        ratio <= DECIMAL_FRACTIONAL,
    ensures
        r == reserve * ratio / DECIMAL_FRACTIONAL as int,
{
    proof {
        assert(reserve * ratio / DECIMAL_FRACTIONAL as int <= reserve) by (nonlinear_arith)
            requires
                ratio <= DECIMAL_FRACTIONAL,
                DECIMAL_FRACTIONAL > 0,
        ;
    }
    // the bound proved above rules both failure modes out
    match checked_multiply_ratio(reserve, ratio, DECIMAL_FRACTIONAL) {
        Ok(v) => v,
        Err(_) => {
            proof {
                assert(false);
            }
            0
        },
    }
}

/// Redeems burned pool shares for a proportional slice of both reserves.
///
/// Only the share-token contract itself may invoke the withdrawal, on behalf
/// of the account whose tokens it burns; the burn amount has already passed
/// the share token's balance check, so it never exceeds the supply.
pub fn withdraw_liquidity(
    config: &Config,
    sender: &String,
    pools: &[Asset; 2],
    amount: u128,
    total_share: u128,
) -> (r: Result<Vec<Asset>, ContractError>)
    requires
        total_share > 0 ==> amount <= total_share,
    ensures
        sender@ != config.pair_info.liquidity_token@ ==> r == Err::<Vec<Asset>, _>(
            ContractError::Unauthorized {},
        ),
        sender@ == config.pair_info.liquidity_token@ ==> (r matches Ok(refund) && {
            &&& refund@.len() == 2
            &&& refund@[0].info == pools[0].info
            &&& refund@[1].info == pools[1].info
            &&& refund@[0].amount == spec_refund_amount(pools[0].amount, amount, total_share)
            &&& refund@[1].amount == spec_refund_amount(pools[1].amount, amount, total_share)
        }),
{
    if !sender.eq(&config.pair_info.liquidity_token) {
        return Err(ContractError::Unauthorized {});
    }
    Ok(get_share_in_assets(pools, amount, total_share))
}

/// Completes the pool's two-phase creation: records the share-token address
/// delivered by the continuation callback. Runs at most once: a pool whose
/// share-token address is already recorded refuses the callback.
pub fn reply_on_instantiate_token(config: Config, liquidity_token: String) -> (r: Result<
    Config,
    ContractError,
>)
    ensures
        config.pair_info.liquidity_token@.len() != 0 ==> r == Err::<Config, _>(
            ContractError::Unauthorized {},
        ),
        config.pair_info.liquidity_token@.len() == 0 ==> (r matches Ok(c) && {
            &&& c.pair_info.liquidity_token == liquidity_token
            &&& c.pair_info.asset_infos == config.pair_info.asset_infos
            &&& c.pair_info.contract_addr == config.pair_info.contract_addr
            &&& c.factory_addr == config.factory_addr
        }),
{
    if !config.pair_info.liquidity_token.as_str().is_empty() {
        return Err(ContractError::Unauthorized {});
    }
    let Config { pair_info, factory_addr } = config;
    let PairInfo { asset_infos, contract_addr, liquidity_token: _ } = pair_info;
    Ok(
        Config {
            pair_info: PairInfo { asset_infos, contract_addr, liquidity_token },
            factory_addr,
        },
    )
}

} // verus!

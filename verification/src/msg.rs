//! The messages the market contract accepts.

use crate::asset::{Asset, AssetInfo};
use crate::state::MarketPhasesInfo;
use vstd::prelude::*;

verus! {

/// What a new market is created with: its operator, the code templates for
/// its two sub-contracts, the pool's asset pair, the phase boundaries, and
/// the risk parameters.
#[derive(Debug)]
pub struct InstantiateMsg {
    pub market_operator: String,
    pub liquidity_pool_code_id: u64,
    pub liquidity_pool_token_code_id: u64,
    pub asset_infos: [AssetInfo; 2],
    pub market_phases_info: MarketPhasesInfo,
    pub blocks_per_year: u64,
    pub alpha: u64,
}

/// The operations the market executes.
#[derive(Debug)]
pub enum ExecuteMsg {
    Borrow { expected_borrow: Asset, pledged_collateral: Asset },
}

/// The read-only queries the market answers.
#[derive(Debug)]
pub enum QueryMsg {
    GetMarketOperator {},
    GetLiquidityPool {},
    GetMarketPhase {},
    GetMarketPhasesInfo {},
    GetBorrowingTerms { pledged_collateral: Asset },
}

} // verus!

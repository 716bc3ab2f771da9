//! Query responses of the market venue, and the lifecycle phase they report.

use crate::state::MarketPhasesInfo;
use vstd::prelude::*;

verus! {

/// Answer to a market-operator query.
#[derive(Debug)]
pub struct MarketOperatorResponse {
    pub market_operator: String,
}

/// Answer to a liquidity-pool-address query.
#[derive(Debug)]
pub struct LiquidityPoolResponse {
    pub liquidity_pool: String,
}

/// Lifecycle phase of the market venue. The phase is never stored: it is
/// always recomputed from the current block height and the phase boundaries,
/// so it can never drift from the chain's height.
#[derive(Clone, Copy, Debug, PartialEq, Eq, Structural)]
pub enum MarketPhase {
    ProvidingLiquidity,
    AutomatedMarketMaker,
    Settlement,
    PostSettlement,
}

impl MarketPhase {
    /// The pool takes deposits only while liquidity is being provided.
    pub fn can_lp_accept_deposits(self) -> (r: bool)
        ensures
            r == (self is ProvidingLiquidity),
    {
        self == MarketPhase::ProvidingLiquidity
    }

    /// The pool pays withdrawals only once settlement is over.
    pub fn can_lp_accept_withdrawals(self) -> (r: bool)
        ensures
            r == (self is PostSettlement),
    {
        self == MarketPhase::PostSettlement
    }

    /// Borrowing is open only while the automated market maker runs.
    pub fn can_amm_accept_borrowing(self) -> (r: bool)
        ensures
            r == (self is AutomatedMarketMaker),
    {
        self == MarketPhase::AutomatedMarketMaker
    }
}

/// Answer to a market-phase query.
#[derive(Clone, Copy, Debug, PartialEq, Eq, Structural)]
pub struct MarketPhaseResponse {
    pub phase: MarketPhase,
}

/// Answer to a phase-boundaries query.
#[derive(Clone, Copy, Debug, PartialEq, Eq, Structural)]
pub struct MarketPhasesInfoResponse {
    pub market_started_at: u64,
    pub lp_phase_ends_at: u64,
    pub amm_phase_ends_at: u64,
    pub settlement_phase_ends_at: u64,
}

impl From<MarketPhasesInfo> for MarketPhasesInfoResponse {
    fn from(market_phases_info: MarketPhasesInfo) -> (r: Self) {
        Self {
            market_started_at: market_phases_info.market_started_at,
            lp_phase_ends_at: market_phases_info.lp_phase_ends_at,
            amm_phase_ends_at: market_phases_info.amm_phase_ends_at,
            settlement_phase_ends_at: market_phases_info.settlement_phase_ends_at,
        }
    }
}

impl vstd::std_specs::convert::FromSpecImpl<MarketPhasesInfo> for MarketPhasesInfoResponse {
    open spec fn obeys_from_spec() -> bool {
        true
    }

    open spec fn from_spec(market_phases_info: MarketPhasesInfo) -> Self {
        MarketPhasesInfoResponse {
            market_started_at: market_phases_info.market_started_at,
            lp_phase_ends_at: market_phases_info.lp_phase_ends_at,
            amm_phase_ends_at: market_phases_info.amm_phase_ends_at,
            settlement_phase_ends_at: market_phases_info.settlement_phase_ends_at,
        }
    }
}

} // verus!

//! The market venue's configuration: a single record owned by the market
//! contract. Updates are modelled as pure functions that take the current
//! record and return the post-mutation record, so a caller always holds the
//! value it just wrote; loading and saving the record is the storage
//! collaborator's job.

use vstd::prelude::*;

verus! {

/// Four block-height boundaries that drive the market lifecycle. Their strict
/// increasing order is enforced once, when the market is created, and never
/// re-checked.
#[derive(Clone, Copy, Debug, PartialEq, Eq, Structural)]
pub struct MarketPhasesInfo {
    pub market_started_at: u64,
    pub lp_phase_ends_at: u64,
    pub amm_phase_ends_at: u64,
    pub settlement_phase_ends_at: u64,
}

impl MarketPhasesInfo {
    /// The boundaries stand in strictly increasing order.
    pub open spec fn well_formed(self) -> bool {
        self.market_started_at < self.lp_phase_ends_at < self.amm_phase_ends_at
            < self.settlement_phase_ends_at
    }
}

/// The venue-level configuration: the market operator, the address of the
/// pool sub-contract, the phase boundaries, and the risk parameters of the
/// borrowing-terms engine.
#[derive(Debug)]
pub struct Config {
    pub market_operator: String,
    pub liquidity_pool: String,
    pub blocks_per_year: u64,
    pub alpha: u64,
    pub market_phases_info: MarketPhasesInfo,
}

/// The configuration with the market operator replaced.
pub fn set_market_operator(config: Config, market_operator: String) -> (r: Config)
    ensures
        r.market_operator == market_operator,
        r.liquidity_pool == config.liquidity_pool,
        r.blocks_per_year == config.blocks_per_year,
        r.alpha == config.alpha,
        r.market_phases_info == config.market_phases_info,
{
    Config { market_operator, ..config }
}

/// The configured market operator.
pub fn get_market_operator(config: &Config) -> (r: String)
    ensures
        r == config.market_operator,
{
    config.market_operator.clone()
}

/// The configuration with the pool sub-contract address replaced.
pub fn set_liquidity_pool(config: Config, liquidity_pool: String) -> (r: Config)
    ensures
        r.liquidity_pool == liquidity_pool,
        r.market_operator == config.market_operator,
        r.blocks_per_year == config.blocks_per_year,
        r.alpha == config.alpha,
        r.market_phases_info == config.market_phases_info,
{
    Config { liquidity_pool, ..config }
}

/// The configured pool sub-contract address.
pub fn get_liquidity_pool(config: &Config) -> (r: String)
    ensures
        r == config.liquidity_pool,
{
    config.liquidity_pool.clone()
}

/// The configuration with the phase boundaries replaced.
pub fn set_market_info(config: Config, market_phases_info: MarketPhasesInfo) -> (r: Config)
    ensures
        r.market_phases_info == market_phases_info,
        r.market_operator == config.market_operator,
        r.liquidity_pool == config.liquidity_pool,
        r.blocks_per_year == config.blocks_per_year,
        r.alpha == config.alpha,
{
    Config { market_phases_info, ..config }
}

/// The configured phase boundaries.
pub fn get_market_info(config: &Config) -> (r: MarketPhasesInfo)
    ensures
        r == config.market_phases_info,
{
    config.market_phases_info
}

/// How many blocks the chain produces per year, the divisor that turns a
/// block-height difference into a time-to-expiry.
pub fn get_blocks_per_year(config: &Config) -> (r: u64)
    ensures
        r == config.blocks_per_year,
{
    config.blocks_per_year
}

/// The venue's risk parameter for the option-pricing formula.
pub fn get_alpha(config: &Config) -> (r: u64)
    ensures
        r == config.alpha,
{
    config.alpha
}

} // verus!

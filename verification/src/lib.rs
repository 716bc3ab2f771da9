//! A phased automated-market-maker liquidity venue: a constant-product pool
//! that accepts paired-asset deposits, mints and burns proportional claims on
//! pooled reserves, and gates every asset movement behind a block-height-driven
//! market lifecycle, together with the collateral-to-borrow terms pipeline.

pub mod asset;
pub mod borrow;
pub mod liquidity;
pub mod liquidity_pool;
pub mod market;
pub mod math;
pub mod msg;
pub mod response;
pub mod state;

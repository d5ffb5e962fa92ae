//! Constant-product DEX: pairs, fees, security checks, allowances and the
//! platform fee schedule.

pub mod error;
pub mod fee;
pub mod security;
pub mod pair;
pub mod registry;
pub mod lp_token;
pub mod approval;
pub mod canonical_pairs;
pub mod factory;
pub mod router;
pub mod token_factory;
pub mod dex;
pub mod tx_validate;
pub mod block_prune;
pub mod propagation;
pub mod pending_pool;
pub mod content_api;

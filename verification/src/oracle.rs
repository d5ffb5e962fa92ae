//! Decentralised price oracle: feeds, rounds, aggregation, heartbeats,
//! Merkle price commitments and multi-chain relay bookkeeping.

pub mod error;
pub mod feed;
pub mod price_proof;
pub mod multi_chain;
pub mod heartbeat;
pub mod fetcher;
pub mod slasher;
pub mod inr;
pub mod circuit_breaker;
pub mod reporter;
pub mod aggregator;
pub mod round;
pub mod chainlink;
pub mod service;

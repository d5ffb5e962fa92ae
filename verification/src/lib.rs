//! Verified core of the ZBX chain services: price oracle, DEX pools,
//! perpetual futures, Pay ID handles and post-quantum signature helpers.

pub mod common;
pub mod table;
pub mod crypto;
pub mod text;
pub mod oracle;
pub mod pool;
pub mod perp;
pub mod payid;
pub mod pq;
pub mod payment;

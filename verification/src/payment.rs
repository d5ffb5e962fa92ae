//! The payment gateway's off-chain side: merchant records, token price
//! conversion, and signed webhook payloads.

pub mod converter;
pub mod merchant;
pub mod webhook;

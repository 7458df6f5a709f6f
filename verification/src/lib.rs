//! A trust-minimized cross-chain atomic swap protocol:
//! a Dutch auction prices orders with a deterministic linear decay,
//! a tiered timelock state machine gates who may release escrowed funds
//! as time advances, and a keccak-256 hash lock ties the two chain legs
//! to one shared secret.

pub mod types;
pub mod pricing;
pub mod secret;
pub mod registry;
pub mod escrow;
pub mod orderbook;
pub mod factory;
pub mod coordinator;
pub mod tokens;

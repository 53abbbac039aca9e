//! Settlement core of a decentralized-finance hub: an asset registry, a price
//! aggregator, per-user position records, a health-factor gate and a staking
//! reward engine, all in fixed-point integer arithmetic.
//!
//! The hub itself holds the singleton configuration. Stored records (positions,
//! pools, reserves, cached prices) and the answers of remote services are handed
//! to each operation as plain values, and each operation hands back the new
//! records together with the transfers that its caller has to carry out.

pub mod types;
pub mod balances;
pub mod registry;
pub mod pricing;
pub mod health;
pub mod staking;
pub mod lending;

pub use types::{
    Address, AssetConfig, BlendPool, DIAOracleConfig, DIAPriceData, DexPriceInfo, HubError,
    PriceSource, SourceKind, StakingPool, StellarDeFiHub, UserPosition,
};
pub use balances::Balances;

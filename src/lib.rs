//! Reward distribution core: Merkle membership proofs, a decaying emission
//! schedule, a checked multi-pool ledger, stake accounting and the claim flow
//! that ties proof, ledger and an outside token transfer together.

pub mod hashing;
pub mod merkle_rewards;
pub mod ledger;
pub mod staking;
pub mod minter;

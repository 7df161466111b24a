//! Atomic arbitrage on a single token over a decentralized exchange: the
//! opportunity scanner, the router calldata encoder and the execution and
//! finality tracker, each stated over mathematical models and verified.

pub mod calldata;
pub mod chain;
pub mod client;
pub mod execution;
pub mod felt;
pub mod finality;
pub mod helpers;
pub mod models;
pub mod scalar;
pub mod scanner;
pub mod tracker;

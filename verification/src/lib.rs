//! A small deterministic ledger runtime: account bookkeeping, fungible
//! balances with a flat fee, and validator staking, composed behind one
//! dispatch interface and executed block by block.

pub mod identity;
pub mod scalar;
pub mod table;
pub mod system;
pub mod support;
pub mod balances;
pub mod staking;
pub mod types;
pub mod runtime;

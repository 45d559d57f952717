//! The concrete types of the runtime.

use vstd::prelude::*;

verus! {

/// Accounts are named by text.
pub type AccountId = String;

/// Balances are kept in 128 bits.
pub type Balance = u128;

/// Blocks are numbered in 32 bits.
pub type BlockNumber = u32;

/// Nonces are counted in 32 bits.
pub type Nonce = u32;

/// An extrinsic of the runtime: an account and a runtime call.
pub type Extrinsic = crate::support::Extrinsic<AccountId, crate::runtime::RuntimeCall>;

/// The header of a block of the runtime.
pub type Header = crate::support::Header<BlockNumber>;

/// A block of the runtime.
pub type Block = crate::support::Block<Header, Extrinsic>;

} // verus!

//! What the modules share: the shape of a block and the dispatch interface.

use vstd::prelude::*;

verus! {

/// A block: a header and the extrinsics to execute, in order.
pub struct Block<Header, Extrinsic> {
    /// What the block says of itself.
    pub header: Header,
    /// The extrinsics of the block, in the order of their execution.
    pub extrinsics: Vec<Extrinsic>,
}

/// The header of a block.
pub struct Header<BlockNumber> {
    /// The number the block claims.
    pub block_number: BlockNumber,
}

/// One submitted transaction: who calls, and what.
pub struct Extrinsic<Caller, Call> {
    /// The account that submitted the extrinsic.
    pub caller: Caller,
    /// The call to execute on the caller's behalf.
    pub call: Call,
}

/// How a dispatched call ends: done, or the reason why not.
pub type DispatchResult = Result<(), &'static str>;

/// A module that executes calls on behalf of callers.
pub trait Dispatch {
    /// Who may call.
    type Caller;

    /// What may be called.
    type Call;

    /// Executes `call` on behalf of `caller`.
    fn dispatch(&mut self, caller: Self::Caller, call: Self::Call) -> DispatchResult;
}

} // verus!

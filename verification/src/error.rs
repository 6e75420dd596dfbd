//! What can go wrong.

use crate::config::FlashRegion;
use vstd::prelude::*;

verus! {

/// An error that the target, or the way to it, answered a command with.
#[derive(Debug, PartialEq, Eq)]
pub struct TargetError {
    pub message: String,
}

/// The reasons for which an operation on the flash fails.
#[derive(Debug, PartialEq, Eq)]
pub enum FlasherError {
    /// The routine `name` ran to its end and returned the code `errorcode`.
    RoutineCallFailed { name: &'static str, errorcode: u32 },
    /// The flash algorithm has no routine for what was asked.
    NotSupported(&'static str),
    /// The flash algorithm has `max` page buffers, so that buffer `n` does not exist.
    InvalidBufferNumber { n: usize, max: usize },
    /// Something went wrong during an access to the target's memory.
    Memory(TargetError),
    /// Something went wrong during an access to the target's core.
    Core(TargetError),
    /// The data at `address` does not lie in `region`.
    AddressNotInRegion { address: u32, region: FlashRegion },
}

} // verus!

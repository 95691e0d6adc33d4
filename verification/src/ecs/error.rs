//! What the store reports when an operation cannot be carried out.

use vstd::prelude::*;

verus! {

/// Why an operation on the store did not take place.
#[derive(Debug, Clone, Copy, PartialEq, Eq, Structural, Hash)]
pub enum EcsError {
    /// A query names the same component type twice.
    DuplicateTypeInQuery,
    /// An earlier holder of a per-type lock gave it up in a panic.
    LockPoisoned,
    /// A per-type lock is held in a way that excludes the operation; it may
    /// succeed once the holder has let go.
    WouldBlock,
}

} // verus!

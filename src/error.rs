//! Outcomes of a failed decode or request.
use vstd::prelude::*;

verus! {

/// Why a table view or a descriptor could not be produced.
#[derive(Clone, Copy, Debug, PartialEq, Eq, Structural)]
pub enum Error {
    /// A generic address names an address space other than system memory.
    UnsupportedAddressSpace,
    /// A buffer is shorter than the fixed record it must hold.
    TooShort,
    /// A descriptor record declares a length of zero.
    ZeroLength,
    /// The controller failed to carry out a descriptor request.
    Transport,
}

} // verus!

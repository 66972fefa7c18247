//! The failures that an operation on the registry reports.

use vstd::prelude::*;

verus! {

/// Why the registry refused an operation. A refused operation leaves the
/// registry exactly as it was.
#[derive(Clone, Copy, Debug, PartialEq, Eq, Structural)]
pub enum Error {
    /// The counter of issued ids stands at its largest value.
    KnightCountOverflow,
    /// An owner's count of knights stands at its largest value.
    OwnerToKnightCountOverflow,
    /// An owner's count of knights stands at zero and was to be lowered.
    OwnerToKnightCountUnderflow,
    /// No knight, or no owner of it, is recorded under the id.
    KnightNotFound,
    /// The id is occupied already, or the receiver holds the knight already.
    KnightAlreadyExists,
    /// The caller does not own the knight.
    NotRightfulOwner,
    /// The knight is not held by the account it was to be taken from.
    KnightTransferFailed,
    /// Breeding would issue an id beyond the largest value.
    IdOverflow,
    /// Breeding would give the child a generation beyond the largest value.
    GenOverflow,
    /// The knight's price is zero: it is not listed for sale.
    NotForSale,
    /// The buyer owns the knight already.
    AlreadyOwned,
}

} // verus!

//! What a successful operation on the registry announces.

use vstd::prelude::*;
use crate::knight::AccountId;
use crate::knight::Balance;

verus! {

/// The announcement of one successful operation. A refused operation
/// announces nothing.
#[derive(Clone, Copy, Debug, PartialEq, Eq, Structural)]
pub enum Event {
    /// A knight was minted: its id and its owner.
    KnightCreated(u64, AccountId),
    /// A knight changed hands: its id, the account it left, the account it
    /// went to.
    KnightTransferred(u64, AccountId, AccountId),
    /// A knight's price was set: its id and the price.
    KnightPriceSet(u64, Balance),
    /// A knight was bred: the child's id, the ids of the first and the second
    /// parent, and the child's owner.
    SquireKnighted(u64, u64, u64, AccountId),
}

} // verus!

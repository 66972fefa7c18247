//! The purchase protocol: what the buyer has to pay before a knight changes
//! hands, and what becomes of the purchase once the currency ledger has
//! answered.

use vstd::prelude::*;
use crate::error::Error;
use crate::knight::AccountId;
use crate::knight::Balance;

verus! {

/// Whether a payment may empty the payer's account.
#[derive(Clone, Copy, Debug, PartialEq, Eq, Structural)]
pub enum ExistenceRequirement {
    /// The payer's account must keep its minimum balance.
    KeepAlive,
    /// The payer's account may be emptied.
    AllowDeath,
}

/// A payment that the currency ledger is asked to make.
#[derive(Clone, Copy, Debug, PartialEq, Eq, Structural)]
pub struct PaymentOrder {
    /// The account that pays: the buyer.
    pub from: AccountId,
    /// The account that is paid: the seller.
    pub to: AccountId,
    /// The amount: the knight's price.
    pub amount: Balance,
    /// What must be left in the payer's account.
    pub existence: ExistenceRequirement,
}

/// Why a purchase did not go through.
#[derive(Debug, PartialEq, Eq)]
pub enum PurchaseError<E> {
    /// The registry refused the purchase; nothing was to be paid.
    Refused(Error),
    /// The currency ledger refused the payment: its failure, unchanged.
    Payment(E),
}

} // verus!

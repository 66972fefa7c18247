//! The ledger: what a registry of knights holds, as mathematical values, how
//! each operation changes it, and what each operation answers.

use vstd::prelude::*;
use crate::error::Error;
use crate::event::Event;
use crate::hashing::blake2_128_digest;
use crate::hashing::encoded_pair;
use crate::knight::AccountId;
use crate::knight::Balance;
use crate::knight::KnightView;
use crate::market::ExistenceRequirement;
use crate::market::PaymentOrder;
use crate::market::PurchaseError;
use crate::store::next_id_outcome;
use crate::store::AssetTable;

verus! {

/// What the registry holds, as mathematical values.
pub struct Ledger {
    /// A number set when the registry is seeded, and never changed.
    pub thing: u64,
    /// The id that was minted last; zero before the first.
    pub knight_count: u64,
    /// The knight records, by the id under which each is kept.
    pub knights: Map<u64, KnightView>,
    /// The owner of each minted knight.
    pub owners: Map<u64, AccountId>,
}

impl Ledger {
    /// The asset table inside the ledger.
    pub open spec fn table(self) -> AssetTable {
        AssetTable { knights: self.knights, count: self.knight_count }
    }

    /// The id that would be minted next, or why none can be.
    pub open spec fn next_id(self) -> Result<u64, Error> {
        next_id_outcome(self.table())
    }

    /// The ledger after `knight` has been minted for `owner`.
    pub open spec fn minted(self, owner: AccountId, knight: KnightView) -> Ledger {
        Ledger {
            knight_count: knight.id,
            knights: self.knights.insert(knight.id, knight),
            owners: self.owners.insert(knight.id, owner),
            ..self
        }
    }

    /// The ledger after knight `id` has gone to `to`.
    pub open spec fn transferred(self, id: u64, to: AccountId) -> Ledger {
        Ledger { owners: self.owners.insert(id, to), ..self }
    }

    /// The ledger after the price of knight `id` has been set.
    pub open spec fn repriced(self, id: u64, price: Balance) -> Ledger {
        Ledger {
            knights: self.knights.insert(id, KnightView { price, ..self.knights[id] }),
            ..self
        }
    }
}

/// The record of a knight minted from nothing: its fingerprint is the digest
/// of its id and its owner, it is worth nothing, not for sale, and of
/// generation zero.
pub open spec fn first_knight(id: u64, owner: AccountId, name: Seq<u8>) -> KnightView {
    KnightView {
        id,
        dna: blake2_128_digest(encoded_pair(id, owner)),
        name,
        wealth: 0,
        price: 0,
        gen: 0,
    }
}

/// What `transfer_knight` answers to `who`, who asks to give knight `id` to
/// `to`.
pub open spec fn transfer_outcome(ledger: Ledger, who: AccountId, id: u64, to: AccountId) -> Result<
    Event,
    Error,
> {
    if !ledger.owners.contains_key(id) {
        Err(Error::KnightNotFound)
    } else if ledger.owners[id] != who {
        Err(Error::NotRightfulOwner)
    } else if to == who {
        Err(Error::KnightAlreadyExists)
    } else {
        Ok(Event::KnightTransferred(id, who, to))
    }
}

/// What `set_price` answers to `who`, who asks to set the price of knight
/// `id`.
pub open spec fn set_price_outcome(
    ledger: Ledger,
    who: AccountId,
    id: u64,
    price: Balance,
) -> Result<Event, Error> {
    if !ledger.knights.contains_key(id) || !ledger.owners.contains_key(id) {
        Err(Error::KnightNotFound)
    } else if ledger.owners[id] != who {
        Err(Error::NotRightfulOwner)
    } else {
        Ok(Event::KnightPriceSet(id, price))
    }
}

/// What `buyer` has to pay for knight `id`, or why the knight cannot be
/// bought: it has no record, it is not for sale, it has no owner, or the
/// buyer owns it, asked in this order.
pub open spec fn purchase_order_outcome(ledger: Ledger, buyer: AccountId, id: u64) -> Result<
    PaymentOrder,
    Error,
> {
    if !ledger.knights.contains_key(id) {
        Err(Error::KnightNotFound)
    } else if ledger.knights[id].price == 0 {
        Err(Error::NotForSale)
    } else if !ledger.owners.contains_key(id) {
        Err(Error::KnightNotFound)
    } else if ledger.owners[id] == buyer {
        Err(Error::AlreadyOwned)
    } else {
        Ok(
            PaymentOrder {
                from: buyer,
                to: ledger.owners[id],
                amount: ledger.knights[id].price,
                existence: ExistenceRequirement::KeepAlive,
            },
        )
    }
}

/// What `buy_knight` answers, given what the currency ledger answered to the
/// payment order.
pub open spec fn buy_outcome<E>(
    ledger: Ledger,
    buyer: AccountId,
    id: u64,
    payment: Result<(), E>,
) -> Result<Event, PurchaseError<E>> {
    match purchase_order_outcome(ledger, buyer, id) {
        Err(e) => Err(PurchaseError::Refused(e)),
        Ok(order) => match payment {
            Err(e) => Err(PurchaseError::Payment(e)),
            Ok(_) => Ok(Event::KnightTransferred(id, order.to, buyer)),
        },
    }
}

} // verus!

//! The registry of knights: it checks who may do what, keeps the asset store
//! and the ownership index in step, and answers each operation with the
//! event it announces or the reason it was refused.

use vstd::prelude::*;
use crate::error::Error;
use crate::event::Event;
use crate::hashing::blake2_128;
use crate::hashing::encode_pair;
use crate::knight::AccountId;
use crate::knight::Balance;
use crate::knight::Knight;
use crate::knight::KnightView;
use crate::ledger::buy_outcome;
use crate::ledger::first_knight;
use crate::ledger::purchase_order_outcome;
use crate::ledger::set_price_outcome;
use crate::ledger::transfer_outcome;
use crate::ledger::Ledger;
use crate::market::ExistenceRequirement;
use crate::market::PaymentOrder;
use crate::market::PurchaseError;
use crate::ordered::lemma_ascending_bounded;
use crate::ordered::lemma_ascending_unique;
use crate::ownership::is_holding;
use crate::ownership::put_in;
use crate::ownership::taken_out;
use crate::ownership::OwnershipIndex;
use crate::store::AssetStore;

verus! {

/// The registry of knights.
pub struct Pallet {
    thing: u64,
    store: AssetStore,
    index: OwnershipIndex,
}

impl View for Pallet {
    type V = Ledger;

    closed spec fn view(&self) -> Ledger {
        Ledger {
            thing: self.thing,
            knight_count: self.store@.count,
            knights: self.store@.knights,
            owners: self.index@,
        }
    }
}

impl Pallet {
    /// The knights that the registry lists for `owner`.
    pub closed spec fn holding(&self, owner: AccountId) -> Seq<u64> {
        self.index.holding(owner)
    }

    /// The count that the registry keeps for `owner`.
    pub closed spec fn count(&self, owner: AccountId) -> u64 {
        self.index.count(owner)
    }

    /// The registry is consistent: every record carries the id under which
    /// it is kept; the minted ids are those from 1 to the counter, and each
    /// of them has a record; a knight has an owner if and only if it was
    /// minted; the list kept for an owner holds, in ascending order, exactly
    /// the knights of that owner; and the count kept for an owner is the
    /// length of that list.
    pub open spec fn wf(&self) -> bool {
        &&& forall|id: u64| #[trigger]
            self@.knights.contains_key(id) ==> self@.knights[id].id == id
        &&& forall|id: u64|
            1 <= id <= self@.knight_count ==> #[trigger] self@.knights.contains_key(id)
        &&& forall|id: u64| #[trigger]
            self@.owners.contains_key(id) <==> 1 <= id <= self@.knight_count
        &&& forall|owner: AccountId|
            #![trigger self.holding(owner)]
            #![trigger self.count(owner)]
            is_holding(self.holding(owner), self@.owners, owner) && self.count(owner)
                == self.holding(owner).len()
    }

    /// Since `before`, knight `id` has left the list of `from` and entered the
    /// list of `to`, and no other list has changed.
    pub open spec fn handed_over(
        &self,
        before: Pallet,
        id: u64,
        from: AccountId,
        to: AccountId,
    ) -> bool {
        &&& taken_out(before.holding(from), self.holding(from), id)
        &&& put_in(before.holding(to), self.holding(to), id)
        &&& forall|other: AccountId|
            other != from && other != to ==> self.holding(other) == before.holding(other)
    }

    /// What consistency means for the two parts of the registry.
    proof fn lemma_parts(&self)
        ensures
            self.wf() <==> {
                &&& self.store.wf()
                &&& self.index.wf()
                &&& forall|id: u64| #[trigger]
                    self.index@.contains_key(id) <==> 1 <= id <= self.store@.count
            },
    {
        assert(self@.owners == self.index@);
        assert(self@.knights == self.store@.knights);
        assert(self@.knight_count == self.store@.count);
        assert forall|owner: AccountId|
            self.holding(owner) == self.index.holding(owner) && self.count(owner)
                == self.index.count(owner) by {}
        if self.wf() {
            assert(self.store.wf());
            assert(self.index.wf()) by {
                assert forall|owner: AccountId|
                    #![trigger self.index.holding(owner)]
                    #![trigger self.index.count(owner)]
                    is_holding(self.index.holding(owner), self.index@, owner)
                        && self.index.count(owner) == self.index.holding(owner).len() by {
                    assert(self.holding(owner) == self.index.holding(owner));
                    assert(self.count(owner) == self.index.count(owner));
                }
            }
        }
        if self.store.wf() && self.index.wf() && (forall|id: u64| #[trigger]
            self.index@.contains_key(id) <==> 1 <= id <= self.store@.count) {
            assert forall|owner: AccountId|
                #![trigger self.holding(owner)]
                #![trigger self.count(owner)]
                is_holding(self.holding(owner), self@.owners, owner) && self.count(owner)
                    == self.holding(owner).len() by {
                assert(self.holding(owner) == self.index.holding(owner));
                assert(self.count(owner) == self.index.count(owner));
            }
            assert(self.wf());
        }
    }

    /// A registry without knights.
    pub fn new() -> (pallet: Pallet)
        ensures
            pallet.wf(),
            pallet@ == (Ledger {
                thing: 0,
                knight_count: 0,
                knights: Map::empty(),
                owners: Map::empty(),
            }),
    {
        let pallet = Pallet { thing: 0, store: AssetStore::new(), index: OwnershipIndex::new() };
        proof {
            pallet.lemma_parts();
        }
        pallet
    }

    /// A registry in which nothing has been minted yet, over a store that
    /// may hold records already.
    pub(crate) fn seeded(thing: u64, store: AssetStore) -> (pallet: Pallet)
        requires
            store.wf(),
            store@.count == 0,
        ensures
            pallet.wf(),
            pallet@ == (Ledger {
                thing,
                knight_count: 0,
                knights: store@.knights,
                owners: Map::empty(),
            }),
    {
        let pallet = Pallet { thing, store, index: OwnershipIndex::new() };
        proof {
            pallet.lemma_parts();
        }
        pallet
    }

    /// The number set when the registry was seeded.
    pub fn thing(&self) -> (thing: u64)
        ensures
            thing == self@.thing,
    {
        self.thing
    }

    /// The id that was minted last; zero before the first.
    pub fn knight_count(&self) -> (count: u64)
        ensures
            count == self@.knight_count,
    {
        self.store.knight_count()
    }

    /// The record kept under `id`, if there is one.
    pub fn knights(&self, id: u64) -> (record: Option<&Knight>)
        ensures
            match record {
                Some(knight) => self@.knights.contains_key(id) && knight@ == self@.knights[id],
                None => !self@.knights.contains_key(id),
            },
    {
        match self.store.get(id) {
            Ok(knight) => Some(knight),
            Err(_) => None,
        }
    }

    /// The owner of knight `id`, if it has one.
    pub fn knight_to_owner(&self, id: u64) -> (owner: Option<AccountId>)
        ensures
            owner == if self@.owners.contains_key(id) {
                Some(self@.owners[id])
            } else {
                None
            },
    {
        match self.index.owner_of(id) {
            Ok(owner) => Some(owner),
            Err(_) => None,
        }
    }

    /// The knights that `owner` holds, in ascending order of id.
    pub fn owner_to_knights(&self, owner: AccountId) -> (held: Vec<u64>)
        requires
            self.wf(),
        ensures
            held@ == self.holding(owner),
            is_holding(held@, self@.owners, owner),
    {
        proof {
            self.lemma_parts();
        }
        self.index.assets_of(owner)
    }

    /// The number of knights that `owner` holds.
    pub fn owner_to_knight_count(&self, owner: AccountId) -> (count: u64)
        requires
            self.wf(),
        ensures
            count == self.count(owner),
            count == self.holding(owner).len(),
    {
        proof {
            self.lemma_parts();
        }
        self.index.count_of(owner)
    }

    /// In a consistent registry an owner's knights are all minted ones, so
    /// the owner holds no more knights than were minted, and fewer if some
    /// minted knight is not among them.
    pub proof fn lemma_holding_bounded(&self, owner: AccountId)
        requires
            self.wf(),
        ensures
            self.count(owner) == self.holding(owner).len(),
            self.holding(owner).len() <= self@.knight_count,
            forall|id: u64|
                1 <= id <= self@.knight_count && !self.holding(owner).contains(id)
                    ==> self.holding(owner).len() < self@.knight_count,
            forall|i: int|
                0 <= i < self.holding(owner).len() ==> 1 <= #[trigger] self.holding(owner)[i]
                    <= self@.knight_count,
    {
        let held = self.holding(owner);
        assert forall|i: int| 0 <= i < held.len() implies 1 <= #[trigger] held[i]
            <= self@.knight_count by {
            assert(held.contains(held[i]));
        }
        lemma_ascending_bounded(held, self@.knight_count);
    }

    /// Mints a knight for `owner` with the given name, fingerprint and
    /// generation, worth nothing and not for sale, under the next id.
    ///
    /// Refuses, and changes nothing, when the counter stands at its largest
    /// value or the next id is occupied. Answers with the id of the knight.
    /// The new id is the largest that `owner` holds.
    pub fn mint(&mut self, owner: AccountId, name: Vec<u8>, dna: [u8; 16], gen: u64) -> (minted:
        Result<u64, Error>)
        requires
            old(self).wf(),
        ensures
            final(self).wf(),
            minted == old(self)@.next_id(),
            minted matches Ok(id) ==> {
                &&& final(self)@ == old(self)@.minted(
                    owner,
                    KnightView { id, dna: dna@, name: name@, wealth: 0, price: 0, gen },
                )
                &&& final(self).holding(owner) == old(self).holding(owner).push(id)
                &&& forall|other: AccountId|
                    other != owner ==> final(self).holding(other) == old(self).holding(other)
            },
            minted is Err ==> *final(self) == *old(self),
    {
        let knight = Knight { id: 0, dna, name, wealth: 0, price: 0, gen };
        proof {
            self.lemma_parts();
            self.lemma_holding_bounded(owner);
        }
        let id = match self.store.create(knight) {
            Ok(id) => id,
            Err(e) => { return Err(e); },
        };
        let bound = self.index.bind(id, owner);
        assert(bound is Ok);
        proof {
            self.lemma_parts();
            let before = old(self).holding(owner);
            let after = self.holding(owner);
            let pushed = before.push(id);
            assert forall|i: int, j: int| 0 <= i < j < pushed.len() implies pushed[i]
                < pushed[j] by {
                if j == before.len() {
                    assert(before.contains(before[i]));
                }
            }
            assert forall|x: u64| after.contains(x) <==> pushed.contains(x) by {
                if pushed.contains(x) {
                    let k = choose|k: int| 0 <= k < pushed.len() && pushed[k] == x;
                    if k < before.len() {
                        assert(before.contains(x));
                    }
                }
                if after.contains(x) && x != id {
                    assert(before.contains(x));
                    let k = choose|k: int| 0 <= k < before.len() && before[k] == x;
                    assert(pushed[k] == x);
                }
                if x == id {
                    assert(pushed[before.len() as int] == x);
                }
            }
            lemma_ascending_unique(after, pushed);
            assert forall|other: AccountId| other != owner implies self.holding(other)
                == old(self).holding(other) by {
                let a = self.holding(other);
                let b = old(self).holding(other);
                assert forall|x: u64| a.contains(x) <==> b.contains(x) by {}
                lemma_ascending_unique(a, b);
            }
        }
        Ok(id)
    }

    /// Mints a knight for `who` under the next id. Its fingerprint is the
    /// digest of the id and of `who`.
    ///
    /// Refuses, and changes nothing, when the counter stands at its largest
    /// value (`KnightCountOverflow`) or the next id is occupied
    /// (`KnightAlreadyExists`).
    pub fn create_knight(&mut self, who: AccountId, name: Vec<u8>) -> (created: Result<
        Event,
        Error,
    >)
        requires
            old(self).wf(),
        ensures
            final(self).wf(),
            created == match old(self)@.next_id() {
                Ok(id) => Ok::<Event, Error>(Event::KnightCreated(id, who)),
                Err(e) => Err::<Event, Error>(e),
            },
            old(self)@.next_id() matches Ok(id) ==> {
                &&& final(self)@ == old(self)@.minted(who, first_knight(id, who, name@))
                &&& final(self).holding(who) == old(self).holding(who).push(id)
                &&& forall|other: AccountId|
                    other != who ==> final(self).holding(other) == old(self).holding(other)
            },
            created is Err ==> *final(self) == *old(self),
    {
        let new_id = match self.store.next_id() {
            Ok(id) => id,
            Err(e) => { return Err(e); },
        };
        let seed = encode_pair(new_id, who);
        let dna = blake2_128(seed.as_slice());
        match self.mint(who, name, dna, 0) {
            Ok(id) => Ok(Event::KnightCreated(id, who)),
            Err(e) => Err(e),
        }
    }
    /// Moves knight `id` from `from` to `to` in the ownership index.
    ///
    /// In a consistent registry no count can run over or under, so the only
    /// refusals are a receiver that holds the knight already and a giver
    /// that does not hold it.
    fn _transfer_knight(&mut self, knight_id: u64, from: AccountId, to: AccountId) -> (moved:
        Result<Event, Error>)
        requires
            old(self).wf(),
        ensures
            final(self).wf(),
            moved == if old(self)@.owners.contains_key(knight_id) && old(self)@.owners[knight_id]
                == to {
                Err::<Event, Error>(Error::KnightAlreadyExists)
            } else if !(old(self)@.owners.contains_key(knight_id)
                && old(self)@.owners[knight_id] == from) {
                Err::<Event, Error>(Error::KnightTransferFailed)
            } else {
                Ok::<Event, Error>(Event::KnightTransferred(knight_id, from, to))
            },
            moved is Ok ==> {
                &&& final(self)@ == old(self)@.transferred(knight_id, to)
                &&& final(self).handed_over(*old(self), knight_id, from, to)
            },
            moved is Err ==> *final(self) == *old(self),
    {
        proof {
            self.lemma_parts();
            self.lemma_holding_bounded(to);
        }
        let moved = self.index.rebind(knight_id, from, to);
        proof {
            self.lemma_parts();
        }
        moved
    }

    /// Gives knight `id` to `to`. Only its owner may do so.
    ///
    /// Refuses, and changes nothing, when the knight has no owner
    /// (`KnightNotFound`), when `who` is not the owner (`NotRightfulOwner`),
    /// and when `to` is the owner already (`KnightAlreadyExists`).
    pub fn transfer_knight(&mut self, who: AccountId, id: u64, to: AccountId) -> (transferred:
        Result<Event, Error>)
        requires
            old(self).wf(),
        ensures
            final(self).wf(),
            transferred == transfer_outcome(old(self)@, who, id, to),
            transferred is Ok ==> {
                &&& final(self)@ == old(self)@.transferred(id, to)
                &&& final(self).handed_over(*old(self), id, who, to)
            },
            transferred is Err ==> *final(self) == *old(self),
    {
        let owner = match self.index.owner_of(id) {
            Ok(owner) => owner,
            Err(e) => { return Err(e); },
        };
        if owner != who {
            return Err(Error::NotRightfulOwner);
        }
        self._transfer_knight(id, who, to)
    }

    /// Sets the price of knight `knight_id`; zero takes it off the market.
    /// Only its owner may do so.
    ///
    /// Refuses, and changes nothing, when the knight has no record or no
    /// owner (`KnightNotFound`) and when `who` is not the owner
    /// (`NotRightfulOwner`). Who owns what is never changed.
    pub fn set_price(&mut self, who: AccountId, knight_id: u64, price: Balance) -> (set: Result<
        Event,
        Error,
    >)
        requires
            old(self).wf(),
        ensures
            final(self).wf(),
            set == set_price_outcome(old(self)@, who, knight_id, price),
            set is Ok ==> final(self)@ == old(self)@.repriced(knight_id, price),
            set is Err ==> *final(self) == *old(self),
            forall|owner: AccountId| final(self).holding(owner) == old(self).holding(owner),
    {
        if !self.store.contains(knight_id) {
            return Err(Error::KnightNotFound);
        }
        let owner = match self.index.owner_of(knight_id) {
            Ok(owner) => owner,
            Err(e) => { return Err(e); },
        };
        if owner != who {
            return Err(Error::NotRightfulOwner);
        }
        proof {
            self.lemma_parts();
        }
        let set = self.store.set_price(knight_id, price);
        proof {
            self.lemma_parts();
        }
        match set {
            Ok(_) => Ok(Event::KnightPriceSet(knight_id, price)),
            Err(e) => Err(e),
        }
    }

    /// What `buyer` has to pay, and to whom, before knight `knight_id` can
    /// change hands. The payment must leave the buyer's account alive.
    pub fn purchase_order(&self, buyer: AccountId, knight_id: u64) -> (order: Result<
        PaymentOrder,
        Error,
    >)
        ensures
            order == purchase_order_outcome(self@, buyer, knight_id),
    {
        let price = match self.store.get(knight_id) {
            Ok(knight) => knight.price,
            Err(e) => { return Err(e); },
        };
        if price == 0 {
            return Err(Error::NotForSale);
        }
        let owner = match self.index.owner_of(knight_id) {
            Ok(owner) => owner,
            Err(e) => { return Err(e); },
        };
        if owner == buyer {
            return Err(Error::AlreadyOwned);
        }
        Ok(
            PaymentOrder {
                from: buyer,
                to: owner,
                amount: price,
                existence: ExistenceRequirement::KeepAlive,
            },
        )
    }

    /// Completes the purchase of knight `knight_id` by `buyer`, given what
    /// the currency ledger answered to the payment that `purchase_order`
    /// names.
    ///
    /// Where the registry refuses the purchase, or the payment failed,
    /// nothing changes, and a failed payment is handed on as it came. Where
    /// the payment went through, the knight goes to the buyer and its price
    /// returns to zero.
    pub fn buy_knight<E>(
        &mut self,
        buyer: AccountId,
        knight_id: u64,
        payment: Result<(), E>,
    ) -> (bought: Result<Event, PurchaseError<E>>)
        requires
            old(self).wf(),
        ensures
            final(self).wf(),
            bought == buy_outcome(old(self)@, buyer, knight_id, payment),
            bought is Ok ==> {
                &&& final(self)@ == old(self)@.transferred(knight_id, buyer).repriced(knight_id, 0)
                &&& final(self)@.owners[knight_id] == buyer
                &&& final(self)@.knights[knight_id].price == 0
                &&& final(self).handed_over(
                    *old(self),
                    knight_id,
                    old(self)@.owners[knight_id],
                    buyer,
                )
            },
            bought is Err ==> *final(self) == *old(self),
    {
        let order = match self.purchase_order(buyer, knight_id) {
            Ok(order) => order,
            Err(e) => { return Err(PurchaseError::Refused(e)); },
        };
        match payment {
            Ok(_) => {},
            Err(e) => { return Err(PurchaseError::Payment(e)); },
        }
        let moved = self._transfer_knight(knight_id, order.to, buyer);
        proof {
            self.lemma_parts();
        }
        let reset = self.store.set_price(knight_id, 0);
        assert(reset is Ok);
        proof {
            self.lemma_parts();
        }
        match moved {
            Ok(event) => Ok(event),
            Err(e) => Err(PurchaseError::Refused(e)),
        }
    }
}

} // verus!

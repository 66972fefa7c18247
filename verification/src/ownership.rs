//! The ownership index: who owns which knight, and which knights an account
//! holds. Both directions and the count per owner are kept in step.

use std::collections::HashMap;
use vstd::prelude::*;
use crate::error::Error;
use crate::event::Event;
use crate::knight::AccountId;
use crate::ordered::ascending;
use crate::ordered::lemma_insert_ascending;
use crate::ordered::lemma_remove_ascending;
use crate::ordered::search;

verus! {

broadcast use vstd::std_specs::hash::group_hash_axioms;

/// `held` lists, in ascending order and each once, exactly the ids that
/// `owners` maps to `owner`.
pub open spec fn is_holding(held: Seq<u64>, owners: Map<u64, AccountId>, owner: AccountId) -> bool {
    &&& ascending(held)
    &&& forall|id: u64|
        #![trigger held.contains(id)]
        #![trigger owners.contains_key(id)]
        held.contains(id) <==> (owners.contains_key(id) && owners[id] == owner)
}

/// `after` is `before` without `id`, which `before` held.
pub open spec fn taken_out(before: Seq<u64>, after: Seq<u64>, id: u64) -> bool {
    exists|at: int|
        0 <= at < before.len() && before[at] == id && after == #[trigger] before.remove(at)
}

/// `after` is `before` with `id` put in at one place.
pub open spec fn put_in(before: Seq<u64>, after: Seq<u64>, id: u64) -> bool {
    exists|at: int| 0 <= at <= before.len() && after == #[trigger] before.insert(at, id)
}

/// What `rebind` answers when asked to move `id` from `from` to `to`.
pub open spec fn rebind_outcome(
    owners: Map<u64, AccountId>,
    count_of_to: u64,
    id: u64,
    from: AccountId,
    to: AccountId,
) -> Result<Event, Error> {
    if owners.contains_key(id) && owners[id] == to {
        Err(Error::KnightAlreadyExists)
    } else if !(owners.contains_key(id) && owners[id] == from) {
        Err(Error::KnightTransferFailed)
    } else if count_of_to == u64::MAX {
        Err(Error::OwnerToKnightCountOverflow)
    } else {
        Ok(Event::KnightTransferred(id, from, to))
    }
}

/// The index from knights to owners and back.
///
/// Its view is the forward direction, a map from a knight's id to its owner.
/// While the index is well formed, the list and the count that it keeps for
/// an owner are fixed by that map.
pub struct OwnershipIndex {
    forward: HashMap<u64, AccountId>,
    reverse: HashMap<AccountId, Vec<u64>>,
    counts: HashMap<AccountId, u64>,
}

impl View for OwnershipIndex {
    type V = Map<u64, AccountId>;

    closed spec fn view(&self) -> Map<u64, AccountId> {
        self.forward@
    }
}

impl OwnershipIndex {
    /// The list of ids kept for `owner`: empty where none is kept.
    pub closed spec fn holding(&self, owner: AccountId) -> Seq<u64> {
        if self.reverse@.contains_key(owner) {
            self.reverse@[owner]@
        } else {
            Seq::empty()
        }
    }

    /// The count kept for `owner`: zero where none is kept.
    pub closed spec fn count(&self, owner: AccountId) -> u64 {
        if self.counts@.contains_key(owner) {
            self.counts@[owner]
        } else {
            0
        }
    }

    /// The two directions agree, and each count is the length of its list:
    /// the list kept for an owner holds, in ascending order, exactly the
    /// knights that the forward direction gives to that owner.
    pub open spec fn wf(&self) -> bool {
        forall|owner: AccountId|
            #![trigger self.holding(owner)]
            #![trigger self.count(owner)]
            is_holding(self.holding(owner), self@, owner) && self.count(owner)
                == self.holding(owner).len()
    }

    /// An index in which nothing is owned.
    pub fn new() -> (index: OwnershipIndex)
        ensures
            index.wf(),
            index@ == Map::<u64, AccountId>::empty(),
            forall|owner: AccountId| index.holding(owner) == Seq::<u64>::empty(),
    {
        OwnershipIndex { forward: HashMap::new(), reverse: HashMap::new(), counts: HashMap::new() }
    }

    /// The owner of knight `id`.
    pub fn owner_of(&self, id: u64) -> (owner: Result<AccountId, Error>)
        ensures
            owner == if self@.contains_key(id) {
                Ok::<AccountId, Error>(self@[id])
            } else {
                Err::<AccountId, Error>(Error::KnightNotFound)
            },
    {
        match self.forward.get(&id) {
            Some(owner) => Ok(*owner),
            None => Err(Error::KnightNotFound),
        }
    }

    /// The knights that `owner` holds, in ascending order of id.
    pub fn assets_of(&self, owner: AccountId) -> (held: Vec<u64>)
        requires
            self.wf(),
        ensures
            held@ == self.holding(owner),
            is_holding(held@, self@, owner),
    {
        match self.reverse.get(&owner) {
            Some(list) => {
                let held = list.clone();
                assert(held@ =~= list@);
                held
            },
            None => Vec::new(),
        }
    }

    /// The number of knights that `owner` holds.
    pub fn count_of(&self, owner: AccountId) -> (count: u64)
        requires
            self.wf(),
        ensures
            count == self.count(owner),
            count == self.holding(owner).len(),
    {
        match self.counts.get(&owner) {
            Some(count) => *count,
            None => 0,
        }
    }

    /// Records `owner` as the owner of the unbound knight `id`: the knight is
    /// put into the owner's list at its place in the order, and the owner's
    /// count goes up by one.
    ///
    /// Fails, and changes nothing, exactly when the owner's count stands at
    /// its largest value.
    pub fn bind(&mut self, id: u64, owner: AccountId) -> (bound: Result<(), Error>)
        requires
            old(self).wf(),
            !old(self)@.contains_key(id),
        ensures
            final(self).wf(),
            bound == if old(self).count(owner) == u64::MAX {
                Err::<(), Error>(Error::OwnerToKnightCountOverflow)
            } else {
                Ok::<(), Error>(())
            },
            bound is Ok ==> {
                &&& final(self)@ == old(self)@.insert(id, owner)
                &&& put_in(old(self).holding(owner), final(self).holding(owner), id)
                &&& final(self).count(owner) == old(self).count(owner) + 1
                &&& forall|other: AccountId|
                    other != owner ==> {
                        &&& final(self).holding(other) == old(self).holding(other)
                        &&& final(self).count(other) == old(self).count(other)
                    }
            },
            bound is Err ==> *final(self) == *old(self),
    {
        let count = self.count_of(owner);
        if count == u64::MAX {
            return Err(Error::OwnerToKnightCountOverflow);
        }
        let mut list = match self.reverse.remove(&owner) {
            Some(list) => list,
            None => Vec::new(),
        };
        let ghost before = list@;
        assert(before == old(self).holding(owner));
        let at = match search(&list, id) {
            Ok(at) => {
                assert(before.contains(id));
                at
            },
            Err(at) => at,
        };
        list.insert(at, id);
        proof {
            lemma_insert_ascending(before, at as int, id);
        }
        self.reverse.insert(owner, list);
        self.counts.insert(owner, count + 1);
        self.forward.insert(id, owner);
        assert forall|other: AccountId|
            #![trigger self.holding(other)]
            #![trigger self.count(other)]
            is_holding(self.holding(other), self@, other) && self.count(other) == self.holding(
                other,
            ).len() by {
            if other != owner {
                assert(self.holding(other) == old(self).holding(other));
                assert(self.count(other) == old(self).count(other));
            }
        }
        Ok(())
    }

    /// Moves knight `id` from `from` to `to`: the knight leaves the giver's
    /// list and is put into the receiver's at its place in the order, and the
    /// two counts follow.
    ///
    /// Refuses a knight that `to` holds already, then one that `from` does
    /// not hold, then a receiver whose count stands at its largest value.
    /// A refusal changes nothing.
    pub fn rebind(&mut self, id: u64, from: AccountId, to: AccountId) -> (moved: Result<
        Event,
        Error,
    >)
        requires
            old(self).wf(),
        ensures
            final(self).wf(),
            moved == rebind_outcome(old(self)@, old(self).count(to), id, from, to),
            moved is Ok ==> {
                &&& final(self)@ == old(self)@.insert(id, to)
                &&& taken_out(old(self).holding(from), final(self).holding(from), id)
                &&& put_in(old(self).holding(to), final(self).holding(to), id)
                &&& final(self).count(from) == old(self).count(from) - 1
                &&& final(self).count(to) == old(self).count(to) + 1
                &&& forall|other: AccountId|
                    other != from && other != to ==> {
                        &&& final(self).holding(other) == old(self).holding(other)
                        &&& final(self).count(other) == old(self).count(other)
                    }
            },
            moved is Err ==> *final(self) == *old(self),
    {
        let ghost held_by_to = self.holding(to);
        let ghost held_by_from = self.holding(from);
        match self.reverse.get(&to) {
            Some(list) => {
                if search(list, id).is_ok() {
                    assert(held_by_to.contains(id));
                    return Err(Error::KnightAlreadyExists);
                }
            },
            None => {
                assert(!held_by_to.contains(id));
            },
        }
        let place = match self.reverse.get(&from) {
            Some(list) => search(list, id),
            None => Err(0),
        };
        let at = match place {
            Ok(at) => at,
            Err(_) => {
                assert(!held_by_from.contains(id));
                return Err(Error::KnightTransferFailed);
            },
        };
        assert(held_by_from.contains(id));
        let from_count = self.count_of(from);
        if from_count == 0 {
            return Err(Error::OwnerToKnightCountUnderflow);
        }
        let to_count = self.count_of(to);
        if to_count == u64::MAX {
            return Err(Error::OwnerToKnightCountOverflow);
        }
        let mut from_list = match self.reverse.remove(&from) {
            Some(list) => list,
            None => Vec::new(),
        };
        from_list.remove(at);
        self.reverse.insert(from, from_list);
        let mut to_list = match self.reverse.remove(&to) {
            Some(list) => list,
            None => Vec::new(),
        };
        let into = match search(&to_list, id) {
            Ok(into) => into,
            Err(into) => into,
        };
        to_list.insert(into, id);
        self.reverse.insert(to, to_list);
        self.counts.insert(from, from_count - 1);
        self.counts.insert(to, to_count + 1);
        self.forward.insert(id, to);
        proof {
            lemma_remove_ascending(held_by_from, at as int);
            lemma_insert_ascending(held_by_to, into as int, id);
        }
        assert forall|other: AccountId|
            #![trigger self.holding(other)]
            #![trigger self.count(other)]
            is_holding(self.holding(other), self@, other) && self.count(other) == self.holding(
                other,
            ).len() by {
            if other != from && other != to {
                assert(self.holding(other) == old(self).holding(other));
                assert(self.count(other) == old(self).count(other));
            }
        }
        Ok(Event::KnightTransferred(id, from, to))
    }
}

} // verus!

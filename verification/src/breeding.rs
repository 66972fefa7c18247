//! Breeding: a child is minted from two knights, its fingerprint combined
//! from theirs byte by byte under entropy drawn from their names.

use vstd::prelude::*;
use crate::error::Error;
use crate::event::Event;
use crate::hashing::blake2_128;
use crate::hashing::blake2_128_digest;
use crate::knight::bred_dna;
use crate::knight::combine_dna;
use crate::knight::AccountId;
use crate::knight::KnightView;
use crate::ledger::Ledger;
use crate::pallet::Pallet;

verus! {

/// The id that a child of `parent1` and `parent2` would get, or why the two
/// cannot be bred: the counter stands at its largest value, the next id is
/// occupied, a parent has no record, or the first parent's generation stands
/// at its largest value, asked in this order.
pub open spec fn breeding_outcome(ledger: Ledger, parent1: u64, parent2: u64) -> Result<
    u64,
    Error,
> {
    if ledger.knight_count == u64::MAX {
        Err(Error::IdOverflow)
    } else if ledger.knights.contains_key((ledger.knight_count + 1) as u64) {
        Err(Error::KnightAlreadyExists)
    } else if !ledger.knights.contains_key(parent1) || !ledger.knights.contains_key(parent2) {
        Err(Error::KnightNotFound)
    } else if ledger.knights[parent1].gen == u64::MAX {
        Err(Error::GenOverflow)
    } else {
        Ok((ledger.knight_count + 1) as u64)
    }
}

/// The bytes from which the entropy for breeding is drawn: the first
/// parent's name followed by the second's.
pub open spec fn breeding_seed_of(ledger: Ledger, parent1: u64, parent2: u64) -> Seq<u8> {
    ledger.knights[parent1].name + ledger.knights[parent2].name
}

/// The record of the child of `parent1` and `parent2`: its fingerprint is
/// combined from theirs under `entropy`, its generation is one more than the
/// first parent's, it is worth nothing and not for sale.
pub open spec fn bred_knight(
    ledger: Ledger,
    id: u64,
    name: Seq<u8>,
    parent1: u64,
    parent2: u64,
    entropy: Seq<u8>,
) -> KnightView {
    KnightView {
        id,
        dna: bred_dna(ledger.knights[parent1].dna, ledger.knights[parent2].dna, entropy),
        name,
        wealth: 0,
        price: 0,
        gen: (ledger.knights[parent1].gen + 1) as u64,
    }
}

impl Pallet {
    /// The bytes from which the entropy for breeding `parent1` with
    /// `parent2` is to be drawn, or why the two cannot be bred.
    pub fn breeding_seed(&self, parent1: u64, parent2: u64) -> (seed: Result<Vec<u8>, Error>)
        ensures
            match seed {
                Ok(bytes) => breeding_outcome(self@, parent1, parent2) is Ok && bytes@
                    == breeding_seed_of(self@, parent1, parent2),
                Err(e) => breeding_outcome(self@, parent1, parent2) == Err::<u64, Error>(e),
            },
    {
        let count = self.knight_count();
        if count == u64::MAX {
            return Err(Error::IdOverflow);
        }
        if self.knights(count + 1).is_some() {
            return Err(Error::KnightAlreadyExists);
        }
        let first = match self.knights(parent1) {
            Some(knight) => knight,
            None => { return Err(Error::KnightNotFound); },
        };
        let second = match self.knights(parent2) {
            Some(knight) => knight,
            None => { return Err(Error::KnightNotFound); },
        };
        if first.gen == u64::MAX {
            return Err(Error::GenOverflow);
        }
        let mut bytes: Vec<u8> = Vec::new();
        bytes.extend_from_slice(first.name.as_slice());
        bytes.extend_from_slice(second.name.as_slice());
        assert(bytes@ =~= first.name@ + second.name@);
        Ok(bytes)
    }

    /// Breeds `parent1` with `parent2` under the given entropy and mints the
    /// child for `who` under the name `name`. Any caller may breed any two
    /// knights.
    ///
    /// At each position the child's fingerprint has the byte of the first
    /// parent, unless the entropy byte there is even, in which case it has
    /// the byte of the second. A refusal changes nothing. The child's id is
    /// the largest that `who` holds.
    pub fn breed_with_entropy(
        &mut self,
        who: AccountId,
        name: Vec<u8>,
        parent1: u64,
        parent2: u64,
        entropy: &[u8; 16],
    ) -> (bred: Result<Event, Error>)
        requires
            old(self).wf(),
        ensures
            final(self).wf(),
            bred == match breeding_outcome(old(self)@, parent1, parent2) {
                Ok(id) => Ok::<Event, Error>(Event::SquireKnighted(id, parent1, parent2, who)),
                Err(e) => Err::<Event, Error>(e),
            },
            breeding_outcome(old(self)@, parent1, parent2) matches Ok(id) ==> {
                &&& final(self)@ == old(self)@.minted(
                    who,
                    bred_knight(old(self)@, id, name@, parent1, parent2, entropy@),
                )
                &&& final(self).holding(who) == old(self).holding(who).push(id)
                &&& forall|other: AccountId|
                    other != who ==> final(self).holding(other) == old(self).holding(other)
            },
            bred is Err ==> *final(self) == *old(self),
    {
        let count = self.knight_count();
        if count == u64::MAX {
            return Err(Error::IdOverflow);
        }
        if self.knights(count + 1).is_some() {
            return Err(Error::KnightAlreadyExists);
        }
        let first = match self.knights(parent1) {
            Some(knight) => knight,
            None => { return Err(Error::KnightNotFound); },
        };
        let second = match self.knights(parent2) {
            Some(knight) => knight,
            None => { return Err(Error::KnightNotFound); },
        };
        if first.gen == u64::MAX {
            return Err(Error::GenOverflow);
        }
        let gen = first.gen + 1;
        let dna = combine_dna(&first.dna, &second.dna, entropy);
        match self.mint(who, name, dna, gen) {
            Ok(id) => Ok(Event::SquireKnighted(id, parent1, parent2, who)),
            Err(e) => Err(e),
        }
    }

    /// Breeds `parent1` with `parent2` and mints the child for `who` under
    /// the name `name`. The entropy is the digest of the first parent's name
    /// followed by the second's; all else is as in `breed_with_entropy`.
    pub fn breed(&mut self, who: AccountId, name: Vec<u8>, parent1: u64, parent2: u64) -> (bred:
        Result<Event, Error>)
        requires
            old(self).wf(),
        ensures
            final(self).wf(),
            bred == match breeding_outcome(old(self)@, parent1, parent2) {
                Ok(id) => Ok::<Event, Error>(Event::SquireKnighted(id, parent1, parent2, who)),
                Err(e) => Err::<Event, Error>(e),
            },
            breeding_outcome(old(self)@, parent1, parent2) matches Ok(id) ==> {
                &&& final(self)@ == old(self)@.minted(
                    who,
                    bred_knight(
                        old(self)@,
                        id,
                        name@,
                        parent1,
                        parent2,
                        blake2_128_digest(breeding_seed_of(old(self)@, parent1, parent2)),
                    ),
                )
                &&& final(self).holding(who) == old(self).holding(who).push(id)
                &&& forall|other: AccountId|
                    other != who ==> final(self).holding(other) == old(self).holding(other)
            },
            bred is Err ==> *final(self) == *old(self),
    {
        let seed = match self.breeding_seed(parent1, parent2) {
            Ok(seed) => seed,
            Err(e) => { return Err(e); },
        };
        let entropy = blake2_128(seed.as_slice());
        self.breed_with_entropy(who, name, parent1, parent2, &entropy)
    }
}

} // verus!

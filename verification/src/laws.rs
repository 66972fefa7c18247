//! What holds of every consistent registry, and of every minting and
//! breeding.

use vstd::prelude::*;
use vstd::bytes::lemma_auto_spec_u64_to_from_le_bytes;
use vstd::bytes::spec_u64_to_le_bytes;
use crate::breeding::bred_knight;
use crate::hashing::encoded_pair;
use crate::knight::AccountId;
use crate::knight::DNA_LEN;
use crate::ordered::lemma_ascending_unique;
use crate::ownership::is_holding;
use crate::ledger::first_knight;
use crate::ledger::Ledger;
use crate::pallet::Pallet;

verus! {

/// A knight has an owner if and only if it was minted, that is, if its id
/// lies between 1 and the id that was minted last.
pub proof fn lemma_owned_iff_minted(pallet: Pallet, id: u64)
    requires
        pallet.wf(),
    ensures
        pallet@.owners.contains_key(id) <==> 1 <= id <= pallet@.knight_count,
{
}

/// Every record carries the id under which it is kept, so no two records
/// share an id.
pub proof fn lemma_ids_are_unique(pallet: Pallet, id: u64, other: u64)
    requires
        pallet.wf(),
        pallet@.knights.contains_key(id),
        pallet@.knights.contains_key(other),
    ensures
        pallet@.knights[id].id == id,
        pallet@.knights[id].id == pallet@.knights[other].id ==> id == other,
{
}

/// Every minted knight has a record, and the record carries its id.
pub proof fn lemma_minted_has_record(pallet: Pallet, id: u64)
    requires
        pallet.wf(),
        1 <= id <= pallet@.knight_count,
    ensures
        pallet@.knights.contains_key(id),
        pallet@.knights[id].id == id,
{
    assert(pallet@.knights.contains_key(id));
}

/// The list kept for an owner holds a knight if and only if that owner is
/// recorded as the knight's owner.
pub proof fn lemma_held_iff_owned(pallet: Pallet, owner: AccountId, id: u64)
    requires
        pallet.wf(),
    ensures
        pallet.holding(owner).contains(id) <==> (pallet@.owners.contains_key(id)
            && pallet@.owners[id] == owner),
{
    assert(is_holding(pallet.holding(owner), pallet@.owners, owner));
}

/// A minted knight stands in the list of exactly one owner.
pub proof fn lemma_one_holder(pallet: Pallet, id: u64, owner: AccountId, other: AccountId)
    requires
        pallet.wf(),
        pallet.holding(owner).contains(id),
        pallet.holding(other).contains(id),
    ensures
        owner == other,
        1 <= id <= pallet@.knight_count,
{
    lemma_held_iff_owned(pallet, owner, id);
    lemma_held_iff_owned(pallet, other, id);
}

/// The count kept for an owner is the length of the list kept for that
/// owner, and no owner holds more knights than were minted.
pub proof fn lemma_count_is_length(pallet: Pallet, owner: AccountId)
    requires
        pallet.wf(),
    ensures
        pallet.count(owner) == pallet.holding(owner).len(),
        pallet.count(owner) <= pallet@.knight_count,
{
    pallet.lemma_holding_bounded(owner);
}

/// The owners recorded fix the list of each owner: two lists that both
/// hold, in ascending order, exactly the knights of one owner are equal.
pub proof fn lemma_holding_unique(
    held: Seq<u64>,
    other: Seq<u64>,
    owners: Map<u64, AccountId>,
    owner: AccountId,
)
    requires
        is_holding(held, owners, owner),
        is_holding(other, owners, owner),
    ensures
        held == other,
{
    lemma_ascending_unique(held, other);
}

/// Two knights minted one after the other for the same account under the
/// same name have different ids, both keep their records, and the bytes from
/// which their fingerprints are digested differ.
pub proof fn lemma_mints_in_sequence_differ(ledger: Ledger, who: AccountId, name: Seq<u8>)
    requires
        ledger.next_id() is Ok,
        ledger.minted(who, first_knight(ledger.next_id()->Ok_0, who, name)).next_id() is Ok,
    ensures
        ({
            let first = ledger.next_id()->Ok_0;
            let after = ledger.minted(who, first_knight(first, who, name));
            let second = after.next_id()->Ok_0;
            let last = after.minted(who, first_knight(second, who, name));
            &&& first != second
            &&& last.knights[first] == first_knight(first, who, name)
            &&& last.knights[second] == first_knight(second, who, name)
            &&& encoded_pair(first, who) != encoded_pair(second, who)
        }),
{
    let first = ledger.next_id()->Ok_0;
    let after = ledger.minted(who, first_knight(first, who, name));
    let second = after.next_id()->Ok_0;
    lemma_auto_spec_u64_to_from_le_bytes();
    let a = encoded_pair(first, who);
    let b = encoded_pair(second, who);
    assert(a.subrange(0, 8) =~= spec_u64_to_le_bytes(first));
    assert(b.subrange(0, 8) =~= spec_u64_to_le_bytes(second));
}

/// Breeding is fixed by the parents' fingerprints and the entropy: whatever
/// else two registries hold, and whatever the child is called, the child's
/// fingerprint is the same. It has sixteen bytes, and at each position the
/// byte of the first parent, unless the entropy byte there is even, in which
/// case the byte of the second.
pub proof fn lemma_breeding_is_determined(
    ledger: Ledger,
    other: Ledger,
    id: u64,
    other_id: u64,
    name: Seq<u8>,
    other_name: Seq<u8>,
    parent1: u64,
    parent2: u64,
    entropy: Seq<u8>,
)
    requires
        ledger.knights[parent1].dna == other.knights[parent1].dna,
        ledger.knights[parent2].dna == other.knights[parent2].dna,
    ensures
        bred_knight(ledger, id, name, parent1, parent2, entropy).dna == bred_knight(
            other,
            other_id,
            other_name,
            parent1,
            parent2,
            entropy,
        ).dna,
        bred_knight(ledger, id, name, parent1, parent2, entropy).dna.len() == DNA_LEN,
        forall|i: int|
            0 <= i < DNA_LEN ==> #[trigger] bred_knight(
                ledger,
                id,
                name,
                parent1,
                parent2,
                entropy,
            ).dna[i] == if entropy[i] % 2 == 0 {
                ledger.knights[parent2].dna[i]
            } else {
                ledger.knights[parent1].dna[i]
            },
{
}

} // verus!

//! The knight record and the rule by which two fingerprints are combined.

use vstd::prelude::*;

verus! {

/// An account, as the caller's verified identity hands it in.
pub type AccountId = u64;

/// An amount of currency.
pub type Balance = u128;

/// The number of bytes in a genetic fingerprint.
pub const DNA_LEN: usize = 16;

/// A knight: a uniquely identified asset with a genetic fingerprint.
#[derive(Clone, Debug, PartialEq, Eq)]
pub struct Knight {
    pub id: u64,
    pub dna: [u8; 16],
    pub name: Vec<u8>,
    pub wealth: Balance,
    pub price: Balance,
    pub gen: u64,
}

/// What a knight holds, as mathematical values.
pub struct KnightView {
    pub id: u64,
    pub dna: Seq<u8>,
    pub name: Seq<u8>,
    pub wealth: Balance,
    pub price: Balance,
    pub gen: u64,
}

impl View for Knight {
    type V = KnightView;

    open spec fn view(&self) -> KnightView {
        KnightView {
            id: self.id,
            dna: self.dna@,
            name: self.name@,
            wealth: self.wealth,
            price: self.price,
            gen: self.gen,
        }
    }
}

/// The fingerprint of a child: at each position the byte of the first parent,
/// unless the entropy byte there is even, in which case the byte of the second.
pub open spec fn bred_dna(first: Seq<u8>, second: Seq<u8>, entropy: Seq<u8>) -> Seq<u8> {
    Seq::new(
        DNA_LEN as nat,
        |i: int|
            if entropy[i] % 2 == 0 {
                second[i]
            } else {
                first[i]
            },
    )
}

/// Combines the fingerprints of two parents under the given entropy.
pub fn combine_dna(first: &[u8; 16], second: &[u8; 16], entropy: &[u8; 16]) -> (child: [u8; 16])
    ensures
        child@ == bred_dna(first@, second@, entropy@),
{
    let mut child: [u8; 16] = *first;
    let mut i: usize = 0;
    while i < DNA_LEN
        invariant
            i <= DNA_LEN,
            forall|j: int| 0 <= j < i ==> child@[j] == bred_dna(first@, second@, entropy@)[j],
            forall|j: int| i <= j < DNA_LEN ==> child@[j] == first@[j],
        decreases DNA_LEN - i,
    {
        if entropy[i] % 2 == 0 {
            child[i] = second[i];
        }
        i += 1;
    }
    child
}

} // verus!

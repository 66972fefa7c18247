//! Seeding: the records that a registry holds before anything is minted.

use vstd::prelude::*;
use vstd::bytes::spec_u32_to_le_bytes;
use vstd::slice::slice_to_vec;
use vstd::string::StringSliceAdditionalSpecFns;
use crate::hashing::blake2_128;
use crate::hashing::blake2_128_digest;
use crate::hashing::encode_i32;
use crate::knight::Knight;
use crate::knight::KnightView;
use crate::ledger::Ledger;
use crate::pallet::Pallet;
use crate::store::AssetStore;

verus! {

/// With what a registry starts.
pub struct GenesisConfig {
    /// The number that the registry keeps.
    pub thing: u64,
    /// One entry for each id under which the origin knight is to be kept.
    /// Only the id of an entry is read.
    pub knights: Vec<(u64, Knight)>,
}

/// The record that seeding keeps under the id `id`: an origin knight. It
/// carries that id; its fingerprint is the digest of the number one, encoded
/// in four bytes; it has no owner.
pub open spec fn origin_knight(id: u64) -> KnightView {
    KnightView {
        id,
        dna: blake2_128_digest(spec_u32_to_le_bytes(1)),
        name: "OriginKnight".spec_bytes(),
        wealth: 0,
        price: 0,
        gen: 0,
    }
}

/// Whether one of the first `upto` entries carries `id`.
pub open spec fn seeds_id(entries: Seq<(u64, Knight)>, upto: int, id: u64) -> bool {
    exists|i: int| 0 <= i < upto && (#[trigger] entries[i]).0 == id
}

impl Default for GenesisConfig {
    /// The configuration that seeds nothing.
    fn default() -> (config: GenesisConfig)
        ensures
            config.thing == 0,
            config.knights@ == Seq::<(u64, Knight)>::empty(),
    {
        GenesisConfig { thing: 0, knights: Vec::new() }
    }
}

impl GenesisConfig {
    /// The registry that this configuration seeds: nothing is minted and
    /// nothing is owned; under each id of an entry, and under no other,
    /// stands an origin knight that carries that id.
    pub fn build(&self) -> (pallet: Pallet)
        ensures
            pallet.wf(),
            pallet@ == (Ledger {
                thing: self.thing,
                knight_count: 0,
                knights: Map::new(
                    |id: u64| seeds_id(self.knights@, self.knights@.len() as int, id),
                    |id: u64| origin_knight(id),
                ),
                owners: Map::empty(),
            }),
    {
        let mut store = AssetStore::new();
        let mut i: usize = 0;
        while i < self.knights.len()
            invariant
                i <= self.knights@.len(),
                store.wf(),
                store@.count == 0,
                store@.knights == Map::new(
                    |id: u64| seeds_id(self.knights@, i as int, id),
                    |id: u64| origin_knight(id),
                ),
            decreases self.knights@.len() - i,
        {
            let id = self.knights[i].0;
            let knight = Knight {
                id,
                name: slice_to_vec("OriginKnight".as_bytes()),
                dna: blake2_128(encode_i32(1).as_slice()),
                wealth: 0,
                price: 0,
                gen: 0,
            };
            let ghost before = store@.knights;
            store.seed(id, knight);
            i += 1;
            proof {
                assert(knight@ == origin_knight(id));
                assert(seeds_id(self.knights@, i as int, id)) by {
                    assert(self.knights@[i - 1].0 == id);
                }
                assert forall|k: u64| seeds_id(self.knights@, i as int, k) <==> (k == id
                    || seeds_id(self.knights@, i - 1, k)) by {
                    if seeds_id(self.knights@, i as int, k) {
                        let j = choose|j: int| 0 <= j < i && (#[trigger] self.knights@[j]).0 == k;
                        if j < i - 1 {
                            assert(seeds_id(self.knights@, i - 1, k));
                        }
                    }
                    if seeds_id(self.knights@, i - 1, k) {
                        let j = choose|j: int|
                            0 <= j < i - 1 && (#[trigger] self.knights@[j]).0 == k;
                        assert(self.knights@[j].0 == k);
                    }
                }
                assert(store@.knights =~= Map::new(
                    |id: u64| seeds_id(self.knights@, i as int, id),
                    |id: u64| origin_knight(id),
                ));
            }
        }
        Pallet::seeded(self.thing, store)
    }
}

} // verus!

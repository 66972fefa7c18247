//! The asset store: the table of knight records and the counter from which
//! ids are issued. Records are created, read and repriced, never deleted.

use std::collections::HashMap;
use vstd::prelude::*;
use crate::error::Error;
use crate::knight::Balance;
use crate::knight::Knight;
use crate::knight::KnightView;

verus! {

broadcast use vstd::std_specs::hash::group_hash_axioms;

/// What the store holds, as mathematical values.
pub struct AssetTable {
    /// The records, by the id under which each is kept.
    pub knights: Map<u64, KnightView>,
    /// The id that was issued last; zero before the first.
    pub count: u64,
}

/// The id that the store would issue next, or why it cannot issue one.
pub open spec fn next_id_outcome(table: AssetTable) -> Result<u64, Error> {
    if table.count == u64::MAX {
        Err(Error::KnightCountOverflow)
    } else if table.knights.contains_key((table.count + 1) as u64) {
        Err(Error::KnightAlreadyExists)
    } else {
        Ok((table.count + 1) as u64)
    }
}

/// The table of knight records.
pub struct AssetStore {
    knights: HashMap<u64, Knight>,
    knight_count: u64,
}

impl View for AssetStore {
    type V = AssetTable;

    closed spec fn view(&self) -> AssetTable {
        AssetTable {
            knights: self.knights@.map_values(|knight: Knight| knight@),
            count: self.knight_count,
        }
    }
}

impl AssetStore {
    /// Every record carries the id under which it is kept, so no two records
    /// share an id; and every id issued so far, from 1 to the counter, is
    /// occupied.
    pub open spec fn wf(&self) -> bool {
        &&& forall|id: u64| #[trigger]
            self@.knights.contains_key(id) ==> self@.knights[id].id == id
        &&& forall|id: u64| 1 <= id <= self@.count ==> #[trigger] self@.knights.contains_key(id)
    }

    /// A store without records, whose counter stands at zero.
    pub fn new() -> (store: AssetStore)
        ensures
            store.wf(),
            store@ == (AssetTable { knights: Map::empty(), count: 0 }),
    {
        let store = AssetStore { knights: HashMap::new(), knight_count: 0 };
        assert(store@.knights =~= Map::empty());
        store
    }

    /// The id that was issued last; zero before the first.
    pub fn knight_count(&self) -> (count: u64)
        ensures
            count == self@.count,
    {
        self.knight_count
    }

    /// Whether a record is kept under `id`.
    pub fn contains(&self, id: u64) -> (kept: bool)
        ensures
            kept == self@.knights.contains_key(id),
    {
        self.knights.contains_key(&id)
    }

    /// The id that `create` would issue next.
    pub fn next_id(&self) -> (next: Result<u64, Error>)
        ensures
            next == next_id_outcome(self@),
    {
        if self.knight_count == u64::MAX {
            return Err(Error::KnightCountOverflow);
        }
        let id = self.knight_count + 1;
        if self.knights.contains_key(&id) {
            return Err(Error::KnightAlreadyExists);
        }
        Ok(id)
    }

    /// Issues the next id and keeps `record` under it, with the id written
    /// into the record. A refusal changes nothing.
    pub fn create(&mut self, record: Knight) -> (created: Result<u64, Error>)
        requires
            old(self).wf(),
        ensures
            final(self).wf(),
            created == next_id_outcome(old(self)@),
            created matches Ok(id) ==> final(self)@ == (AssetTable {
                knights: old(self)@.knights.insert(id, KnightView { id, ..record@ }),
                count: id,
            }),
            created is Err ==> *final(self) == *old(self),
    {
        let id = match self.next_id() {
            Ok(id) => id,
            Err(e) => { return Err(e); },
        };
        let mut record = record;
        record.id = id;
        self.knights.insert(id, record);
        self.knight_count = id;
        assert(self@.knights =~= old(self)@.knights.insert(id, record@));
        Ok(id)
    }

    /// The record kept under `id`.
    pub fn get(&self, id: u64) -> (record: Result<&Knight, Error>)
        ensures
            match record {
                Ok(knight) => self@.knights.contains_key(id) && knight@ == self@.knights[id],
                Err(e) => !self@.knights.contains_key(id) && e == Error::KnightNotFound,
            },
    {
        match self.knights.get(&id) {
            Some(knight) => Ok(knight),
            None => Err(Error::KnightNotFound),
        }
    }

    /// Overwrites the price of the record kept under `id`, and nothing else.
    /// Where no record is kept under `id`, nothing changes.
    pub fn set_price(&mut self, id: u64, price: Balance) -> (set: Result<(), Error>)
        requires
            old(self).wf(),
        ensures
            final(self).wf(),
            set == if old(self)@.knights.contains_key(id) {
                Ok::<(), Error>(())
            } else {
                Err::<(), Error>(Error::KnightNotFound)
            },
            set is Ok ==> final(self)@ == (AssetTable {
                knights: old(self)@.knights.insert(
                    id,
                    KnightView { price, ..old(self)@.knights[id] },
                ),
                count: old(self)@.count,
            }),
            set is Err ==> *final(self) == *old(self),
    {
        if !self.knights.contains_key(&id) {
            return Err(Error::KnightNotFound);
        }
        let mut record = match self.knights.remove(&id) {
            Some(record) => record,
            None => { return Err(Error::KnightNotFound); },
        };
        record.price = price;
        self.knights.insert(id, record);
        assert(self@.knights =~= old(self)@.knights.insert(
            id,
            KnightView { price, ..old(self)@.knights[id] },
        ));
        Ok(())
    }

    /// Keeps `record` under `id` before any id has been issued, with the id
    /// written into the record, in place of what was kept there.
    pub(crate) fn seed(&mut self, id: u64, record: Knight)
        requires
            old(self).wf(),
            old(self)@.count == 0,
        ensures
            final(self).wf(),
            final(self)@ == (AssetTable {
                knights: old(self)@.knights.insert(id, KnightView { id, ..record@ }),
                count: 0,
            }),
    {
        let mut record = record;
        record.id = id;
        self.knights.insert(id, record);
        assert(self@.knights =~= old(self)@.knights.insert(id, record@));
    }
}

} // verus!

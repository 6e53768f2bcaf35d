//! The entity store: every fish ever adopted, by id.

use vstd::prelude::*;

use crate::state::{Fish, FishView};

verus! {

struct Entry {
    id: u64,
    fish: Fish,
}

/// A map from id to [`Fish`] that remembers the order in which ids were first
/// stored. Nothing is ever removed from it.
pub struct EntityStore {
    entries: Vec<Entry>,
}

impl View for EntityStore {
    type V = Map<u64, FishView>;

    /// The fish by id.
    closed spec fn view(&self) -> Map<u64, FishView> {
        Map::new(
            |id: u64| self.ids().contains(id),
            |id: u64| self.entries@[self.ids().index_of(id)].fish@,
        )
    }
}

impl EntityStore {
    /// The ids in use, in the order they were first stored.
    pub closed spec fn ids(&self) -> Seq<u64> {
        self.entries@.map_values(|entry: Entry| entry.id)
    }

    /// No id is stored twice. Every store made by this module is well formed.
    pub closed spec fn wf(&self) -> bool {
        self.ids().no_duplicates()
    }

    /// In a well-formed store the order lists exactly the ids in use, each once.
    pub proof fn lemma_order(&self)
        requires
            self.wf(),
        ensures
            self.ids().no_duplicates(),
            forall|id: u64| self.ids().contains(id) <==> self@.dom().contains(id),
    {
    }

    proof fn lemma_entry(&self, i: int)
        requires
            self.wf(),
            0 <= i < self.entries@.len(),
        ensures
            self.ids()[i] == self.entries@[i].id,
            self.ids().contains(self.entries@[i].id),
            self.ids().index_of(self.entries@[i].id) == i,
            self@.dom().contains(self.entries@[i].id),
            self@[self.entries@[i].id] == self.entries@[i].fish@,
    {
        let ids = self.ids();
        let id = self.entries@[i].id;
        assert(ids[i] == id);
        let j = ids.index_of(id);
        assert(0 <= j < ids.len() && ids[j] == id);
    }

    /// An empty store.
    pub fn new() -> (store: EntityStore)
        ensures
            store.wf(),
            store@ == Map::<u64, FishView>::empty(),
            store.ids() == Seq::<u64>::empty(),
    {
        let store = EntityStore { entries: Vec::new() };
        assert(store.ids() =~= Seq::<u64>::empty());
        assert(store@ =~= Map::<u64, FishView>::empty());
        store
    }

    /// The number of fish stored.
    pub fn len(&self) -> (n: usize)
        ensures
            n == self.ids().len(),
    {
        self.entries.len()
    }

    fn position(&self, id: u64) -> (found: Option<usize>)
        ensures
            match found {
                Some(i) => i < self.entries@.len() && self.entries@[i as int].id == id,
                None => !self.ids().contains(id),
            },
    {
        let mut i: usize = 0;
        while i < self.entries.len()
            invariant
                i <= self.entries@.len(),
                forall|j: int| 0 <= j < i ==> self.entries@[j].id != id,
            decreases self.entries@.len() - i,
        {
            if self.entries[i].id == id {
                return Some(i);
            }
            i += 1;
        }
        None
    }

    /// The fish stored under `id`, if there is one.
    pub fn get(&self, id: u64) -> (found: Option<&Fish>)
        requires
            self.wf(),
        ensures
            match found {
                Some(fish) => self@.dom().contains(id) && fish@ == self@[id],
                None => !self@.dom().contains(id),
            },
    {
        match self.position(id) {
            Some(i) => {
                proof {
                    self.lemma_entry(i as int);
                }
                Some(&self.entries[i].fish)
            },
            None => None,
        }
    }

    /// Stores `fish` under `id`, in place of whatever was stored there. An id
    /// already in use keeps its place in the order; a new one goes to the end.
    pub fn put(&mut self, id: u64, fish: Fish)
        requires
            old(self).wf(),
        ensures
            final(self).wf(),
            final(self)@ == old(self)@.insert(id, fish@),
            final(self).ids() == if old(self)@.dom().contains(id) {
                old(self).ids()
            } else {
                old(self).ids().push(id)
            },
    {
        let ghost before = *self;
        let ghost value = fish@;
        match self.position(id) {
            Some(i) => {
                self.entries.set(i, Entry { id, fish });
                proof {
                    before.lemma_entry(i as int);
                    assert(self.ids() =~= before.ids());
                    assert forall|k: u64| #[trigger] self@.dom().contains(k) implies self@[k]
                        == before@.insert(id, value)[k] by {
                        let j = self.ids().index_of(k);
                        assert(0 <= j < self.ids().len() && self.ids()[j] == k);
                        if j != i as int {
                            before.lemma_entry(j);
                        }
                    }
                    assert(self@ =~= before@.insert(id, value));
                }
            },
            None => {
                self.entries.push(Entry { id, fish });
                proof {
                    let n = before.entries@.len() as int;
                    assert(self.ids() =~= before.ids().push(id));
                    assert(self.ids().no_duplicates());
                    assert forall|k: u64| #[trigger]
                        self@.dom().contains(k) <==> before@.insert(id, value).dom().contains(k) by {
                        if before.ids().contains(k) {
                            let j = before.ids().index_of(k);
                            assert(self.ids()[j] == k);
                        }
                        if k == id {
                            assert(self.ids()[n] == k);
                        }
                    }
                    assert forall|k: u64| #[trigger] self@.dom().contains(k) implies self@[k]
                        == before@.insert(id, value)[k] by {
                        let j = self.ids().index_of(k);
                        assert(0 <= j < self.ids().len() && self.ids()[j] == k);
                        if j < n {
                            before.lemma_entry(j);
                        }
                    }
                    assert(self@ =~= before@.insert(id, value));
                }
            },
        }
    }

    /// The id at place `i` of the order.
    pub fn id_at(&self, i: usize) -> (id: u64)
        requires
            i < self.ids().len(),
        ensures
            id == self.ids()[i as int],
    {
        self.entries[i].id
    }

    /// The fish stored under the id at place `i` of the order.
    pub fn fish_at(&self, i: usize) -> (fish: &Fish)
        requires
            self.wf(),
            i < self.ids().len(),
        ensures
            self@.dom().contains(self.ids()[i as int]),
            fish@ == self@[self.ids()[i as int]],
    {
        proof {
            self.lemma_entry(i as int);
        }
        &self.entries[i].fish
    }

    /// Every id in use with a copy of its fish, in the order the ids were
    /// first stored.
    pub fn iterate(&self) -> (all: Vec<(u64, Fish)>)
        requires
            self.wf(),
        ensures
            all@.len() == self.ids().len(),
            forall|i: int|
                0 <= i < all@.len() ==> (#[trigger] all@[i]).0 == self.ids()[i] && all@[i].1@
                    == self@[self.ids()[i]],
    {
        let mut all: Vec<(u64, Fish)> = Vec::new();
        let mut i: usize = 0;
        while i < self.entries.len()
            invariant
                self.wf(),
                i <= self.entries@.len(),
                all@.len() == i,
                forall|j: int|
                    0 <= j < i ==> (#[trigger] all@[j]).0 == self.ids()[j] && all@[j].1@
                        == self@[self.ids()[j]],
            decreases self.entries@.len() - i,
        {
            proof {
                self.lemma_entry(i as int);
            }
            all.push((self.entries[i].id, self.entries[i].fish.clone()));
            i += 1;
        }
        all
    }
}

} // verus!

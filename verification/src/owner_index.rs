//! The owner index: for each owner, the ids of the fish they adopted.

use vstd::prelude::*;

use crate::state::same_address;

verus! {

struct Listing {
    owner: Vec<u8>,
    ids: Vec<u64>,
}

/// A map from an owner's canonical address to the list of ids that owner
/// adopted. Nothing is ever removed from it.
pub struct OwnerIndex {
    listings: Vec<Listing>,
}

impl View for OwnerIndex {
    type V = Map<Seq<u8>, Seq<u64>>;

    /// The lists by owner.
    closed spec fn view(&self) -> Map<Seq<u8>, Seq<u64>> {
        Map::new(
            |owner: Seq<u8>| self.owners().contains(owner),
            |owner: Seq<u8>| self.listings@[self.owners().index_of(owner)].ids@,
        )
    }
}

impl OwnerIndex {
    spec fn owners(&self) -> Seq<Seq<u8>> {
        self.listings@.map_values(|listing: Listing| listing.owner@)
    }

    /// No owner is listed twice. Every index made by this module is well formed.
    pub closed spec fn wf(&self) -> bool {
        self.owners().no_duplicates()
    }

    /// The list kept for `owner`; the empty list for an owner never seen.
    pub open spec fn ids_of(&self, owner: Seq<u8>) -> Seq<u64> {
        if self@.dom().contains(owner) {
            self@[owner]
        } else {
            Seq::empty()
        }
    }

    proof fn lemma_listing(&self, i: int)
        requires
            self.wf(),
            0 <= i < self.listings@.len(),
        ensures
            self.owners()[i] == self.listings@[i].owner@,
            self.owners().contains(self.listings@[i].owner@),
            self.owners().index_of(self.listings@[i].owner@) == i,
            self@.dom().contains(self.listings@[i].owner@),
            self@[self.listings@[i].owner@] == self.listings@[i].ids@,
    {
        let owners = self.owners();
        let owner = self.listings@[i].owner@;
        assert(owners[i] == owner);
        let j = owners.index_of(owner);
        assert(0 <= j < owners.len() && owners[j] == owner);
    }

    /// An empty index.
    pub fn new() -> (index: OwnerIndex)
        ensures
            index.wf(),
            index@ == Map::<Seq<u8>, Seq<u64>>::empty(),
    {
        let index = OwnerIndex { listings: Vec::new() };
        assert(index.owners() =~= Seq::<Seq<u8>>::empty());
        assert(index@ =~= Map::<Seq<u8>, Seq<u64>>::empty());
        index
    }

    fn position(&self, owner: &Vec<u8>) -> (found: Option<usize>)
        ensures
            match found {
                Some(i) => i < self.listings@.len() && self.listings@[i as int].owner@ == owner@,
                None => !self.owners().contains(owner@),
            },
    {
        let mut i: usize = 0;
        while i < self.listings.len()
            invariant
                i <= self.listings@.len(),
                forall|j: int| 0 <= j < i ==> self.listings@[j].owner@ != owner@,
            decreases self.listings@.len() - i,
        {
            if same_address(&self.listings[i].owner, owner) {
                return Some(i);
            }
            i += 1;
        }
        None
    }

    /// A copy of the list kept for `owner`; the empty list for an owner never
    /// seen. An unknown owner is no error.
    pub fn get(&self, owner: &Vec<u8>) -> (ids: Vec<u64>)
        requires
            self.wf(),
        ensures
            ids@ == self.ids_of(owner@),
    {
        match self.position(owner) {
            Some(i) => {
                proof {
                    self.lemma_listing(i as int);
                }
                self.listings[i].ids.clone()
            },
            None => Vec::new(),
        }
    }

    /// Keeps `ids` as the list of `owner`, in place of the list kept before.
    pub fn put(&mut self, owner: Vec<u8>, ids: Vec<u64>)
        requires
            old(self).wf(),
        ensures
            final(self).wf(),
            final(self)@ == old(self)@.insert(owner@, ids@),
    {
        let ghost before = *self;
        let ghost key = owner@;
        let ghost value = ids@;
        match self.position(&owner) {
            Some(i) => {
                self.listings.set(i, Listing { owner, ids });
                proof {
                    before.lemma_listing(i as int);
                    assert(self.owners() =~= before.owners());
                    assert forall|k: Seq<u8>| #[trigger] self@.dom().contains(k) implies self@[k]
                        == before@.insert(key, value)[k] by {
                        let j = self.owners().index_of(k);
                        assert(0 <= j < self.owners().len() && self.owners()[j] == k);
                        if j != i as int {
                            before.lemma_listing(j);
                        }
                    }
                    assert(self@ =~= before@.insert(key, value));
                }
            },
            None => {
                self.listings.push(Listing { owner, ids });
                proof {
                    let n = before.listings@.len() as int;
                    assert(self.owners() =~= before.owners().push(key));
                    assert(self.owners().no_duplicates());
                    assert forall|k: Seq<u8>| #[trigger]
                        self@.dom().contains(k) <==> before@.insert(key, value).dom().contains(
                            k,
                        ) by {
                        if before.owners().contains(k) {
                            let j = before.owners().index_of(k);
                            assert(self.owners()[j] == k);
                        }
                        if k == key {
                            assert(self.owners()[n] == k);
                        }
                    }
                    assert forall|k: Seq<u8>| #[trigger] self@.dom().contains(k) implies self@[k]
                        == before@.insert(key, value)[k] by {
                        let j = self.owners().index_of(k);
                        assert(0 <= j < self.owners().len() && self.owners()[j] == k);
                        if j < n {
                            before.lemma_listing(j);
                        }
                    }
                    assert(self@ =~= before@.insert(key, value));
                }
            },
        }
    }
}

} // verus!

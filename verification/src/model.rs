//! The tank as a mathematical value, and what each operation does to it.
//!
//! Everything here is ghost code: the executable functions of the crate
//! promise to behave as these functions say, and the laws of the game are
//! proved about them.

use vstd::prelude::*;

use crate::error::ContractError;
use crate::msg::{
    dead_status_of, full_status_of, short_status_of, DeadFishStatusView, FeedOutcome,
    FullFishStatusView, ShortFishStatusView,
};
use crate::state::{FishView, MAX_ALIVE_FISH, MAX_HUNGER_DURATION};

verus! {

/// The whole state of the game.
pub ghost struct TankView {
    /// The fish by id.
    pub fishes: Map<u64, FishView>,
    /// The ids under which fish are stored, in the order they were first stored.
    pub order: Seq<u64>,
    /// For each owner that ever adopted, the ids adopted, oldest first.
    pub owners: Map<Seq<u8>, Seq<u64>>,
    /// The id the next adopted fish will get.
    pub counter: u64,
}

/// The fish that `owner` adopts under `name` at `now`, stored under `id`.
pub open spec fn newborn(id: u64, owner: Seq<u8>, name: Seq<char>, now: u64, colour: u16) -> FishView {
    FishView { id, name, owner, created_at: now, last_fed: now, dead: false, colour }
}

/// Whether a fish last fed at `last_fed` has gone hungry for too long by `now`.
pub open spec fn starved(last_fed: u64, now: u64) -> bool {
    now - last_fed > MAX_HUNGER_DURATION
}

/// A call that may change the tank, with all that decides what it does.
pub ghost enum Call {
    /// `owner` asks at `now` to adopt a fish, in a call whose randomness
    /// gives `colour`.
    Adopt { owner: Seq<u8>, name: Seq<char>, now: u64, colour: u16 },
    /// `sender` asks at `now` to feed the fish stored under `id`.
    Feed { sender: Seq<u8>, id: u64, now: u64 },
}

impl TankView {
    /// The tank before anything happened: no fish, no owners, ids from 0.
    pub open spec fn empty() -> TankView {
        TankView { fishes: Map::empty(), order: Seq::empty(), owners: Map::empty(), counter: 0 }
    }

    /// Whether a fish is stored under `id`.
    pub open spec fn has(self, id: u64) -> bool {
        self.fishes.dom().contains(id)
    }

    /// Whether a fish is stored under `id` and lives.
    pub open spec fn is_alive(self, id: u64) -> bool {
        self.has(id) && !self.fishes[id].dead
    }

    /// [`TankView::is_alive`] as a predicate on ids.
    pub open spec fn alive_pred(self) -> spec_fn(u64) -> bool {
        |id: u64| self.is_alive(id)
    }

    /// Whether a fish is stored under `id` and is dead.
    pub open spec fn is_dead(self, id: u64) -> bool {
        self.has(id) && self.fishes[id].dead
    }

    /// [`TankView::is_dead`] as a predicate on ids.
    pub open spec fn dead_pred(self) -> spec_fn(u64) -> bool {
        |id: u64| self.is_dead(id)
    }

    /// The ids `owner` adopted, oldest first; empty for an unknown owner.
    pub open spec fn ids_of(self, owner: Seq<u8>) -> Seq<u64> {
        if self.owners.dom().contains(owner) {
            self.owners[owner]
        } else {
            Seq::empty()
        }
    }

    /// How many entries of `owner`'s list lead to a living fish.
    pub open spec fn alive_count(self, owner: Seq<u8>) -> nat {
        self.ids_of(owner).filter(self.alive_pred()).len()
    }

    /// Whether `owner` may adopt one more fish.
    pub open spec fn has_room(self, owner: Seq<u8>) -> bool {
        self.alive_count(owner) < MAX_ALIVE_FISH
    }

    /// The tank after `fish` was stored under `id`: an id already in use keeps
    /// its place in the order, a new one goes to the end.
    pub open spec fn store(self, id: u64, fish: FishView) -> TankView {
        TankView {
            fishes: self.fishes.insert(id, fish),
            order: if self.has(id) {
                self.order
            } else {
                self.order.push(id)
            },
            ..self
        }
    }

    /// The tank after an adoption that was not refused. The fish takes the
    /// counter's value as its id, and the counter moves on by one.
    pub open spec fn adopted(self, owner: Seq<u8>, name: Seq<char>, now: u64, colour: u16) -> TankView {
        let id = self.counter;
        let stored = self.store(id, newborn(id, owner, name, now, colour));
        TankView {
            owners: self.owners.insert(owner, self.ids_of(owner).push(id)),
            counter: (self.counter + 1) as u64,
            ..stored
        }
    }

    /// How it ends when `owner` asks to adopt: with the new fish's id, or
    /// refused because the owner has no room.
    pub open spec fn adopt_result(self, owner: Seq<u8>) -> Result<u64, ContractError> {
        if self.has_room(owner) {
            Ok(self.counter)
        } else {
            Err(ContractError::CapacityExceeded)
        }
    }

    /// The tank after `owner` asked at `now` to adopt a fish. A refused
    /// adoption changes nothing, the counter included.
    pub open spec fn adopt(self, owner: Seq<u8>, name: Seq<char>, now: u64, colour: u16) -> TankView {
        if self.has_room(owner) {
            self.adopted(owner, name, now, colour)
        } else {
            self
        }
    }

    /// Why `sender` may not feed the fish stored under `id`, if so.
    pub open spec fn feed_refusal(self, sender: Seq<u8>, id: u64) -> Option<ContractError> {
        if !self.has(id) {
            Some(ContractError::NotFound)
        } else if self.fishes[id].owner != sender {
            Some(ContractError::NotOwner)
        } else if self.fishes[id].dead {
            Some(ContractError::AlreadyDead)
        } else {
            None
        }
    }

    /// How it ends when `sender` feeds the fish stored under `id` at `now`.
    pub open spec fn feed_result(self, sender: Seq<u8>, id: u64, now: u64) -> Result<
        FeedOutcome,
        ContractError,
    > {
        match self.feed_refusal(sender, id) {
            Some(refusal) => Err(refusal),
            None => if starved(self.fishes[id].last_fed, now) {
                Ok(FeedOutcome::FishDied)
            } else {
                Ok(FeedOutcome::Fed)
            },
        }
    }

    /// The tank after `sender` fed the fish stored under `id` at `now`. A
    /// refused feeding changes nothing; a starved fish is recorded as dead;
    /// any other is recorded as fed at `now`.
    pub open spec fn feed(self, sender: Seq<u8>, id: u64, now: u64) -> TankView {
        match self.feed_result(sender, id, now) {
            Err(_) => self,
            Ok(FeedOutcome::FishDied) => self.store(id, FishView { dead: true, ..self.fishes[id] }),
            Ok(FeedOutcome::Fed) => self.store(id, FishView { last_fed: now, ..self.fishes[id] }),
        }
    }

    /// What `owner` is told at `now`: one entry for each id of their list, in
    /// the list's order. Nothing is changed by asking, so a fish that has
    /// starved but was not fed since is still reported as living.
    pub open spec fn statuses(self, owner: Seq<u8>, now: u64) -> Seq<FullFishStatusView> {
        self.ids_of(owner).map_values(|id: u64| full_status_of(id, self.fishes[id], now))
    }

    /// The ids of the living fish, in the order of the store.
    pub open spec fn alive_ids(self) -> Seq<u64> {
        self.order.filter(self.alive_pred())
    }

    /// The ids of the dead fish, in the order of the store.
    pub open spec fn dead_ids(self) -> Seq<u64> {
        self.order.filter(self.dead_pred())
    }

    /// The public list of living fish, in the order of the store.
    pub open spec fn alive(self) -> Seq<ShortFishStatusView> {
        self.alive_ids().map_values(|id: u64| short_status_of(id, self.fishes[id]))
    }

    /// The public list of dead fish, in the order of the store.
    pub open spec fn dead(self) -> Seq<DeadFishStatusView> {
        self.dead_ids().map_values(|id: u64| dead_status_of(id, self.fishes[id]))
    }

    /// The living fish that belong to `owner`, whatever the index says.
    pub open spec fn alive_owned(self, owner: Seq<u8>) -> Set<u64> {
        Set::new(|id: u64| self.is_alive(id) && self.fishes[id].owner == owner)
    }

    /// Whether [`TankView::statuses`] can be computed for `owner` at `now`:
    /// every id of the list leads to a fish, and none was adopted or fed
    /// after `now`.
    pub open spec fn can_report(self, owner: Seq<u8>, now: u64) -> bool {
        forall|i: int|
            0 <= i < self.ids_of(owner).len() ==> {
                let id = #[trigger] self.ids_of(owner)[i];
                &&& self.has(id)
                &&& self.fishes[id].created_at <= now
                &&& self.fishes[id].last_fed <= now
            }
    }

    /// Whether a feeding of the fish under `id` by `sender` at `now` can be
    /// decided: if it is not refused, the fish was not fed after `now`.
    pub open spec fn can_feed(self, sender: Seq<u8>, id: u64, now: u64) -> bool {
        self.feed_refusal(sender, id) is None ==> self.fishes[id].last_fed <= now
    }

    /// Whether an adoption by `owner` can be carried out: if there is room,
    /// the counter has an id left to give.
    pub open spec fn can_adopt(self, owner: Seq<u8>) -> bool {
        self.has_room(owner) ==> self.counter < u64::MAX
    }

    /// Whether `call` can be carried out on this tank.
    pub open spec fn accepts(self, call: Call) -> bool {
        match call {
            Call::Adopt { owner, .. } => self.can_adopt(owner),
            Call::Feed { sender, id, now } => self.can_feed(sender, id, now),
        }
    }

    /// The tank after `call`.
    pub open spec fn apply(self, call: Call) -> TankView {
        match call {
            Call::Adopt { owner, name, now, colour } => self.adopt(owner, name, now, colour),
            Call::Feed { sender, id, now } => self.feed(sender, id, now),
        }
    }

    /// The tank after the given calls, made one after the other.
    pub open spec fn run(self, calls: Seq<Call>) -> TankView
        decreases calls.len(),
    {
        if calls.len() == 0 {
            self
        } else {
            self.run(calls.drop_last()).apply(calls.last())
        }
    }

    /// Whether each of the given calls can be carried out when its turn comes.
    pub open spec fn accepts_all(self, calls: Seq<Call>) -> bool
        decreases calls.len(),
    {
        calls.len() == 0 || (self.accepts_all(calls.drop_last()) && self.run(
            calls.drop_last(),
        ).accepts(calls.last()))
    }

    /// The order lists exactly the ids in use, each once.
    pub open spec fn order_matches_store(self) -> bool {
        &&& self.order.no_duplicates()
        &&& forall|id: u64| self.order.contains(id) <==> self.has(id)
    }

    /// Each fish knows the id it is stored under.
    pub open spec fn ids_agree(self) -> bool {
        forall|id: u64| self.has(id) ==> (#[trigger] self.fishes[id]).id == id
    }

    /// No id in use is one the counter will still give out.
    pub open spec fn ids_are_past(self) -> bool {
        forall|id: u64| #[trigger] self.has(id) ==> id < self.counter
    }

    /// Every entry of an owner's list leads to a fish of that owner.
    pub open spec fn index_is_sound(self) -> bool {
        forall|owner: Seq<u8>, i: int|
            0 <= i < self.ids_of(owner).len() ==> {
                let id = #[trigger] self.ids_of(owner)[i];
                self.has(id) && self.fishes[id].owner == owner
            }
    }

    /// Every fish is listed under its owner.
    pub open spec fn index_is_complete(self) -> bool {
        forall|id: u64| #[trigger]
            self.has(id) ==> self.ids_of(self.fishes[id].owner).contains(id)
    }

    /// No owner's list names a fish twice.
    pub open spec fn index_is_distinct(self) -> bool {
        forall|owner: Seq<u8>| (#[trigger] self.ids_of(owner)).no_duplicates()
    }

    /// No fish was fed before it was adopted.
    pub open spec fn feedings_follow_adoption(self) -> bool {
        forall|id: u64| self.has(id) ==> (#[trigger] self.fishes[id]).created_at <= self.fishes[id].last_fed
    }

    /// No owner has more living fish than one owner may adopt up to.
    pub open spec fn within_cap(self) -> bool {
        forall|owner: Seq<u8>| #[trigger] self.alive_count(owner) <= MAX_ALIVE_FISH
    }

    /// What holds of every tank that began empty and was changed by adoptions
    /// and feedings only.
    pub open spec fn inv(self) -> bool {
        &&& self.order_matches_store()
        &&& self.ids_agree()
        &&& self.ids_are_past()
        &&& self.index_is_sound()
        &&& self.index_is_complete()
        &&& self.index_is_distinct()
        &&& self.feedings_follow_adoption()
        &&& self.within_cap()
    }
}

} // verus!

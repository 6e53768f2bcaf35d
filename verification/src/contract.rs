//! The tank and the calls a host makes on it.

use vstd::prelude::*;

use crate::colour::{assign_colour, colour_for};
use crate::entity_store::EntityStore;
use crate::error::ContractError;
use crate::id_allocator::IdAllocator;
use crate::laws::{
    law_alive_and_dead_split_the_store, lemma_adopt_keeps_inv, lemma_empty_inv,
    lemma_feed_keeps_inv,
};
use crate::model::TankView;
use crate::msg::{
    dead_status_of, full_status_of, short_status_of, DeadFishStatus, ExecuteAnswer, ExecuteMsg,
    FeedOutcome, FullFishStatus, InstantiateMsg, QueryAnswer, QueryAnswerView, QueryMsg,
    ShortFishStatus,
};
use crate::owner_index::OwnerIndex;
use crate::state::{same_address, Env, Fish, MAX_ALIVE_FISH, MAX_HUNGER_DURATION};

verus! {

/// The state of the game: the entity store, the owner index over it, and the
/// id allocator. Only the calls of this module write to it, and they keep
/// the three in step.
pub struct Tank {
    fishes: EntityStore,
    owners: OwnerIndex,
    ids: IdAllocator,
}

impl View for Tank {
    type V = TankView;

    closed spec fn view(&self) -> TankView {
        TankView {
            fishes: self.fishes@,
            order: self.fishes.ids(),
            owners: self.owners@,
            counter: self.ids@,
        }
    }
}

impl Tank {
    /// The parts are well formed. Every tank made by this module is.
    pub closed spec fn wf(&self) -> bool {
        self.fishes.wf() && self.owners.wf()
    }

    /// In a well-formed tank the order lists exactly the ids in use, each once.
    pub proof fn lemma_order(&self)
        requires
            self.wf(),
        ensures
            self@.order_matches_store(),
    {
        self.fishes.lemma_order();
    }

    /// A tank made of the given parts, for a host that keeps them between
    /// calls. Nothing is asked of how the parts fit together.
    pub fn from_parts(fishes: EntityStore, owners: OwnerIndex, ids: IdAllocator) -> (tank: Tank)
        requires
            fishes.wf(),
            owners.wf(),
        ensures
            tank.wf(),
            tank@.fishes == fishes@,
            tank@.order == fishes.ids(),
            tank@.owners == owners@,
            tank@.counter == ids@,
    {
        Tank { fishes, owners, ids }
    }

    /// The entity store, to read.
    pub fn fishes(&self) -> (fishes: &EntityStore)
        requires
            self.wf(),
        ensures
            fishes.wf(),
            fishes@ == self@.fishes,
            fishes.ids() == self@.order,
    {
        &self.fishes
    }

    /// The owner index, to read.
    pub fn owners(&self) -> (owners: &OwnerIndex)
        requires
            self.wf(),
        ensures
            owners.wf(),
            owners@ == self@.owners,
    {
        &self.owners
    }

    /// The id the next adopted fish will get.
    pub fn counter(&self) -> (counter: u64)
        ensures
            counter == self@.counter,
    {
        self.ids.current()
    }

    /// Whether `owner` can ask to adopt: if they have room, the counter must
    /// have an id left to give.
    pub fn can_adopt(&self, owner: &Vec<u8>) -> (can: bool)
        requires
            self.wf(),
        ensures
            can == self@.can_adopt(owner@),
    {
        let fish_ids = self.owners.get(owner);
        self.count_alive(&fish_ids) >= MAX_ALIVE_FISH || self.ids.current() < u64::MAX
    }

    /// Whether `sender` can ask at `now` to feed the fish stored under
    /// `fish_id`: if the feeding is not refused, the fish must not have been
    /// fed after `now`.
    pub fn can_feed(&self, sender: &Vec<u8>, fish_id: u64, now: u64) -> (can: bool)
        requires
            self.wf(),
        ensures
            can == self@.can_feed(sender@, fish_id, now),
    {
        match self.fishes.get(fish_id) {
            Some(fish) => !same_address(&fish.owner, sender) || fish.dead || fish.last_fed <= now,
            None => true,
        }
    }

    /// Whether `owner` can be told at `now` of their fish: each id of their
    /// list must lead to a fish, and none may have been adopted or fed after
    /// `now`.
    pub fn can_report(&self, owner: &Vec<u8>, now: u64) -> (can: bool)
        requires
            self.wf(),
        ensures
            can == self@.can_report(owner@, now),
    {
        let fish_ids = self.owners.get(owner);
        let mut i: usize = 0;
        while i < fish_ids.len()
            invariant
                self.wf(),
                fish_ids@ == self@.ids_of(owner@),
                i <= fish_ids@.len(),
                forall|j: int|
                    0 <= j < i ==> {
                        let id = #[trigger] self@.ids_of(owner@)[j];
                        &&& self@.has(id)
                        &&& self@.fishes[id].created_at <= now
                        &&& self@.fishes[id].last_fed <= now
                    },
            decreases fish_ids@.len() - i,
        {
            let known = match self.fishes.get(fish_ids[i]) {
                Some(fish) => fish.created_at <= now && fish.last_fed <= now,
                None => false,
            };
            if !known {
                assert(!self@.can_report(owner@, now)) by {
                    let id = self@.ids_of(owner@)[i as int];
                    assert(!(self@.has(id) && self@.fishes[id].created_at <= now
                        && self@.fishes[id].last_fed <= now));
                }
                return false;
            }
            i += 1;
        }
        true
    }

    fn count_alive(&self, ids: &Vec<u64>) -> (count: usize)
        requires
            self.wf(),
        ensures
            count == ids@.filter(self@.alive_pred()).len(),
    {
        let ghost alive = self@.alive_pred();
        let mut count: usize = 0;
        let mut i: usize = 0;
        assert(ids@.take(0) =~= Seq::<u64>::empty());
        proof {
            reveal(Seq::filter);
        }
        while i < ids.len()
            invariant
                self.wf(),
                alive == self@.alive_pred(),
                i <= ids@.len(),
                count <= i,
                count == ids@.take(i as int).filter(alive).len(),
            decreases ids@.len() - i,
        {
            proof {
                assert(ids@.take(i + 1) =~= ids@.take(i as int).push(ids@[i as int]));
                Seq::lemma_filter_push(ids@.take(i as int), ids@[i as int], alive);
            }
            let lives = match self.fishes.get(ids[i]) {
                Some(fish) => !fish.dead,
                None => false,
            };
            if lives {
                count += 1;
            }
            i += 1;
        }
        assert(ids@.take(ids@.len() as int) =~= ids@);
        count
    }
}

/// Sets up the tank: no fish, no owners, ids from 0.
pub fn instantiate(_msg: InstantiateMsg) -> (tank: Tank)
    ensures
        tank.wf(),
        tank@ == TankView::empty(),
        tank@.inv(),
{
    proof {
        lemma_empty_inv();
    }
    Tank { fishes: EntityStore::new(), owners: OwnerIndex::new(), ids: IdAllocator::new() }
}

/// Carries out a request of `sender` that changes the tank.
pub fn execute(tank: &mut Tank, env: &Env, sender: Vec<u8>, msg: ExecuteMsg) -> (done: Result<
    ExecuteAnswer,
    ContractError,
>)
    requires
        old(tank).wf(),
        match msg {
            ExecuteMsg::AdoptFish { .. } => old(tank)@.can_adopt(sender@),
            ExecuteMsg::FeedFish { fish_id } => old(tank)@.can_feed(sender@, fish_id, env.time),
        },
    ensures
        final(tank).wf(),
        old(tank)@.inv() ==> final(tank)@.inv(),
        match msg {
            ExecuteMsg::AdoptFish { name } => {
                &&& final(tank)@ == old(tank)@.adopt(
                    sender@,
                    name@,
                    env.time,
                    colour_for(env.random),
                )
                &&& match old(tank)@.adopt_result(sender@) {
                    Ok(fish_id) => done == Ok::<ExecuteAnswer, ContractError>(
                        ExecuteAnswer::AdoptFish { fish_id },
                    ),
                    Err(refusal) => done == Err::<ExecuteAnswer, ContractError>(refusal),
                }
            },
            ExecuteMsg::FeedFish { fish_id } => {
                &&& final(tank)@ == old(tank)@.feed(sender@, fish_id, env.time)
                &&& match old(tank)@.feed_result(sender@, fish_id, env.time) {
                    Ok(outcome) => done == Ok::<ExecuteAnswer, ContractError>(
                        ExecuteAnswer::FeedFish { outcome },
                    ),
                    Err(refusal) => done == Err::<ExecuteAnswer, ContractError>(refusal),
                }
            },
        },
{
    match msg {
        ExecuteMsg::AdoptFish { name } => match adopt_fish(tank, env, sender, name) {
            Ok(fish_id) => Ok(ExecuteAnswer::AdoptFish { fish_id }),
            Err(refusal) => Err(refusal),
        },
        ExecuteMsg::FeedFish { fish_id } => match feed_fish(tank, env, sender, fish_id) {
            Ok(outcome) => Ok(ExecuteAnswer::FeedFish { outcome }),
            Err(refusal) => Err(refusal),
        },
    }
}

/// Adopts a fish for `sender` under `name` and returns its id. The sender
/// may hold up to five living fish; dead ones do not count. The fish gets
/// the hue that the call's randomness gives, or the default hue.
pub fn adopt_fish(tank: &mut Tank, env: &Env, sender: Vec<u8>, name: String) -> (adopted: Result<
    u64,
    ContractError,
>)
    requires
        old(tank).wf(),
        old(tank)@.can_adopt(sender@),
    ensures
        final(tank).wf(),
        adopted == old(tank)@.adopt_result(sender@),
        final(tank)@ == old(tank)@.adopt(sender@, name@, env.time, colour_for(env.random)),
        old(tank)@.inv() ==> final(tank)@.inv(),
{
    proof {
        if tank@.inv() {
            lemma_adopt_keeps_inv(tank@, sender@, name@, env.time, colour_for(env.random));
        }
    }
    let mut fish_ids = tank.owners.get(&sender);
    let num_alive_fish = tank.count_alive(&fish_ids);
    if num_alive_fish >= MAX_ALIVE_FISH {
        return Err(ContractError::CapacityExceeded);
    }
    let colour = assign_colour(env);
    let fish_id = tank.ids.next();
    let fish = Fish {
        id: fish_id,
        name,
        owner: sender.clone(),
        created_at: env.time,
        last_fed: env.time,
        dead: false,
        colour,
    };
    fish_ids.push(fish_id);
    tank.fishes.put(fish_id, fish);
    tank.owners.put(sender, fish_ids);
    Ok(fish_id)
}

/// Feeds the fish stored under `fish_id` on behalf of `sender`. A fish that
/// has gone more than a day without food is found dead: that is recorded,
/// and reported as an outcome, not as an error, so that the record stays.
pub fn feed_fish(tank: &mut Tank, env: &Env, sender: Vec<u8>, fish_id: u64) -> (fed: Result<
    FeedOutcome,
    ContractError,
>)
    requires
        old(tank).wf(),
        old(tank)@.can_feed(sender@, fish_id, env.time),
    ensures
        final(tank).wf(),
        fed == old(tank)@.feed_result(sender@, fish_id, env.time),
        final(tank)@ == old(tank)@.feed(sender@, fish_id, env.time),
        old(tank)@.inv() ==> final(tank)@.inv(),
{
    proof {
        if tank@.inv() {
            lemma_feed_keeps_inv(tank@, sender@, fish_id, env.time);
        }
    }
    let mut fish = match tank.fishes.get(fish_id) {
        Some(found) => found.clone(),
        None => {
            return Err(ContractError::NotFound);
        },
    };
    if !same_address(&fish.owner, &sender) {
        return Err(ContractError::NotOwner);
    }
    if fish.dead {
        return Err(ContractError::AlreadyDead);
    }
    let hunger_duration = env.time - fish.last_fed;
    if hunger_duration > MAX_HUNGER_DURATION {
        fish.dead = true;
        tank.fishes.put(fish_id, fish);
        return Ok(FeedOutcome::FishDied);
    }
    fish.last_fed = env.time;
    tank.fishes.put(fish_id, fish);
    Ok(FeedOutcome::Fed)
}

/// Answers a request that only reads the tank.
pub fn query(tank: &Tank, env: &Env, msg: QueryMsg) -> (answer: QueryAnswer)
    requires
        tank.wf(),
        msg matches QueryMsg::FishStatus { address } ==> tank@.can_report(address@, env.time),
    ensures
        answer@ == match msg {
            QueryMsg::FishStatus { address } => QueryAnswerView::MyFishStatus(
                tank@.statuses(address@, env.time),
            ),
            QueryMsg::AllFish {  } => QueryAnswerView::AllFishStatus(tank@.alive()),
            QueryMsg::DeadFish {  } => QueryAnswerView::DeadFishStatus(tank@.dead()),
        },
{
    match msg {
        QueryMsg::FishStatus { address } => QueryAnswer::MyFishStatus(
            fish_status(tank, env, address),
        ),
        QueryMsg::AllFish {  } => QueryAnswer::AllFishStatus(all_fish(tank, env)),
        QueryMsg::DeadFish {  } => QueryAnswer::DeadFishStatus(dead_fish(tank, env)),
    }
}

/// Every fish `sender` ever adopted, dead ones included, oldest first, with
/// its age and the time since it was fed as of the call's time.
pub fn fish_status(tank: &Tank, env: &Env, sender: Vec<u8>) -> (statuses: Vec<FullFishStatus>)
    requires
        tank.wf(),
        tank@.can_report(sender@, env.time),
    ensures
        statuses.deep_view() == tank@.statuses(sender@, env.time),
{
    let fish_ids = tank.owners.get(&sender);
    let now = env.time;
    let mut statuses: Vec<FullFishStatus> = Vec::new();
    let mut i: usize = 0;
    while i < fish_ids.len()
        invariant
            tank.wf(),
            fish_ids@ == tank@.ids_of(sender@),
            tank@.can_report(sender@, now),
            i <= fish_ids@.len(),
            statuses@.len() == i,
            forall|j: int|
                0 <= j < i ==> (#[trigger] statuses@[j])@ == full_status_of(
                    fish_ids@[j],
                    tank@.fishes[fish_ids@[j]],
                    now,
                ),
        decreases fish_ids@.len() - i,
    {
        let fish_id = fish_ids[i];
        assert(fish_id == tank@.ids_of(sender@)[i as int]);
        let fish = tank.fishes.get(fish_id).unwrap();
        statuses.push(
            FullFishStatus {
                id: fish_id,
                name: fish.name.clone(),
                age: now - fish.created_at,
                seconds_since_fed: now - fish.last_fed,
                dead: fish.dead,
                colour: fish.colour,
            },
        );
        i += 1;
    }
    assert(statuses.deep_view() =~= tank@.statuses(sender@, now));
    statuses
}

/// Every living fish in the tank, in the order of the store. The call's
/// time plays no part: a fish that has starved but was not fed since is
/// still listed.
pub fn all_fish(tank: &Tank, _env: &Env) -> (alive_fishes: Vec<ShortFishStatus>)
    requires
        tank.wf(),
    ensures
        alive_fishes.deep_view() == tank@.alive(),
        forall|i: int|
            0 <= i < alive_fishes@.len() ==> tank@.is_alive((#[trigger] alive_fishes@[i]).id),
{
    proof {
        tank.lemma_order();
        law_alive_and_dead_split_the_store(tank@);
    }
    let ghost alive = tank@.alive_pred();
    let ghost order = tank@.order;
    let mut alive_fishes: Vec<ShortFishStatus> = Vec::new();
    let mut i: usize = 0;
    assert(order.take(0) =~= Seq::<u64>::empty());
    proof {
        reveal(Seq::filter);
    }
    while i < tank.fishes.len()
        invariant
            tank.wf(),
            alive == tank@.alive_pred(),
            order == tank@.order,
            i <= order.len(),
            alive_fishes.deep_view() == order.take(i as int).filter(alive).map_values(
                |id: u64| short_status_of(id, tank@.fishes[id]),
            ),
        decreases order.len() - i,
    {
        let ghost so_far = alive_fishes.deep_view();
        let fish_id = tank.fishes.id_at(i);
        let fish = tank.fishes.fish_at(i);
        proof {
            assert(order.take(i + 1) =~= order.take(i as int).push(order[i as int]));
            Seq::lemma_filter_push(order.take(i as int), order[i as int], alive);
        }
        if !fish.dead {
            alive_fishes.push(
                ShortFishStatus { id: fish_id, name: fish.name.clone(), colour: fish.colour },
            );
            assert(alive_fishes.deep_view() =~= so_far.push(
                short_status_of(fish_id, tank@.fishes[fish_id]),
            ));
        }
        i += 1;
        assert(alive_fishes.deep_view() =~= order.take(i as int).filter(alive).map_values(
            |id: u64| short_status_of(id, tank@.fishes[id]),
        ));
    }
    assert(order.take(order.len() as int) =~= order);
    assert forall|i: int| 0 <= i < alive_fishes@.len() implies tank@.is_alive(
        (#[trigger] alive_fishes@[i]).id,
    ) by {
        assert(alive_fishes.deep_view()[i] == alive_fishes@[i]@);
        assert(tank@.is_alive(tank@.alive()[i].id));
    }
    alive_fishes
}

/// Every dead fish in the tank, in the order of the store, each with the
/// canonical address of its owner.
pub fn dead_fish(tank: &Tank, _env: &Env) -> (dead_fishes: Vec<DeadFishStatus>)
    requires
        tank.wf(),
    ensures
        dead_fishes.deep_view() == tank@.dead(),
        forall|i: int|
            0 <= i < dead_fishes@.len() ==> tank@.is_dead((#[trigger] dead_fishes@[i]).id),
{
    proof {
        tank.lemma_order();
        law_alive_and_dead_split_the_store(tank@);
    }
    let ghost dead = tank@.dead_pred();
    let ghost order = tank@.order;
    let mut dead_fishes: Vec<DeadFishStatus> = Vec::new();
    let mut i: usize = 0;
    assert(order.take(0) =~= Seq::<u64>::empty());
    proof {
        reveal(Seq::filter);
    }
    while i < tank.fishes.len()
        invariant
            tank.wf(),
            dead == tank@.dead_pred(),
            order == tank@.order,
            i <= order.len(),
            dead_fishes.deep_view() == order.take(i as int).filter(dead).map_values(
                |id: u64| dead_status_of(id, tank@.fishes[id]),
            ),
        decreases order.len() - i,
    {
        let ghost so_far = dead_fishes.deep_view();
        let fish_id = tank.fishes.id_at(i);
        let fish = tank.fishes.fish_at(i);
        proof {
            assert(order.take(i + 1) =~= order.take(i as int).push(order[i as int]));
            Seq::lemma_filter_push(order.take(i as int), order[i as int], dead);
        }
        if fish.dead {
            dead_fishes.push(
                DeadFishStatus {
                    id: fish_id,
                    name: fish.name.clone(),
                    colour: fish.colour,
                    owner: fish.owner.clone(),
                },
            );
            assert(dead_fishes.deep_view() =~= so_far.push(
                dead_status_of(fish_id, tank@.fishes[fish_id]),
            ));
        }
        i += 1;
        assert(dead_fishes.deep_view() =~= order.take(i as int).filter(dead).map_values(
            |id: u64| dead_status_of(id, tank@.fishes[id]),
        ));
    }
    assert(order.take(order.len() as int) =~= order);
    assert forall|i: int| 0 <= i < dead_fishes@.len() implies tank@.is_dead(
        (#[trigger] dead_fishes@[i]).id,
    ) by {
        assert(dead_fishes.deep_view()[i] == dead_fishes@[i]@);
        assert(tank@.is_dead(tank@.dead()[i].id));
    }
    dead_fishes
}

} // verus!

//! The laws of the game, proved of the tank's mathematical value.

use vstd::prelude::*;

use crate::error::ContractError;
use crate::model::{newborn, starved, Call, TankView};
use crate::msg::FeedOutcome;
use crate::state::{FishView, MAX_ALIVE_FISH, MAX_HUNGER_DURATION};

verus! {

proof fn lemma_filter_agree<A>(s: Seq<A>, p: spec_fn(A) -> bool, q: spec_fn(A) -> bool)
    requires
        forall|i: int| 0 <= i < s.len() ==> p(#[trigger] s[i]) == q(s[i]),
    ensures
        s.filter(p) == s.filter(q),
    decreases s.len(),
{
    reveal(Seq::filter);
    if s.len() > 0 {
        let front = s.drop_last();
        assert forall|i: int| 0 <= i < front.len() implies p(#[trigger] front[i]) == q(
            front[i],
        ) by {
            assert(front[i] == s[i]);
        }
        lemma_filter_agree(front, p, q);
        assert(p(s[s.len() - 1]) == q(s[s.len() - 1]));
    }
}

proof fn lemma_filter_fewer<A>(s: Seq<A>, p: spec_fn(A) -> bool, q: spec_fn(A) -> bool)
    requires
        forall|i: int| 0 <= i < s.len() && q(#[trigger] s[i]) ==> p(s[i]),
    ensures
        s.filter(q).len() <= s.filter(p).len(),
    decreases s.len(),
{
    reveal(Seq::filter);
    if s.len() > 0 {
        let front = s.drop_last();
        assert forall|i: int| 0 <= i < front.len() && q(#[trigger] front[i]) implies p(
            front[i],
        ) by {
            assert(front[i] == s[i]);
        }
        lemma_filter_fewer(front, p, q);
        assert(q(s[s.len() - 1]) ==> p(s[s.len() - 1]));
    }
}

/// What an adoption that is not refused does to the lists of the index: the
/// new id goes to the end of the adopter's list, and no other list changes.
proof fn lemma_adopted_lists(tank: TankView, owner: Seq<u8>, name: Seq<char>, now: u64, colour: u16)
    ensures
        tank.adopted(owner, name, now, colour).ids_of(owner) == tank.ids_of(owner).push(
            tank.counter,
        ),
        forall|other: Seq<u8>|
            other != owner ==> #[trigger] tank.adopted(owner, name, now, colour).ids_of(other)
                == tank.ids_of(other),
{
}

/// The empty tank is as a tank should be.
pub proof fn lemma_empty_inv()
    ensures
        TankView::empty().inv(),
{
    let tank = TankView::empty();
    reveal(Seq::filter);
    assert forall|owner: Seq<u8>| #[trigger] tank.alive_count(owner) <= MAX_ALIVE_FISH by {
        assert(tank.ids_of(owner) =~= Seq::<u64>::empty());
    }
}

/// An adoption keeps a tank as a tank should be. In particular no owner
/// comes to hold more living fish than the cap allows.
pub proof fn lemma_adopt_keeps_inv(
    tank: TankView,
    owner: Seq<u8>,
    name: Seq<char>,
    now: u64,
    colour: u16,
)
    requires
        tank.inv(),
        tank.can_adopt(owner),
    ensures
        tank.adopt(owner, name, now, colour).inv(),
{
    if tank.has_room(owner) {
        let id = tank.counter;
        let post = tank.adopted(owner, name, now, colour);
        lemma_adopted_lists(tank, owner, name, now, colour);
        assert(!tank.has(id));
        assert(!tank.order.contains(id));
        assert(post.order == tank.order.push(id));
        assert(post.fishes == tank.fishes.insert(id, newborn(id, owner, name, now, colour)));
        assert forall|x: u64| post.has(x) <==> (tank.has(x) || x == id) by {}

        assert(post.order_matches_store()) by {
            assert forall|x: u64| post.order.contains(x) <==> post.has(x) by {
                if tank.order.contains(x) {
                    let i = tank.order.index_of(x);
                    assert(post.order[i] == x);
                }
                if x == id {
                    assert(post.order[tank.order.len() as int] == x);
                }
            }
        }
        assert(post.ids_agree());
        assert(post.ids_are_past());
        assert(post.feedings_follow_adoption());

        // No list named the new id before, since every list leads to stored fish.
        assert forall|o: Seq<u8>, i: int| 0 <= i < tank.ids_of(o).len() implies #[trigger] tank.ids_of(
            o,
        )[i] != id by {
            assert(tank.has(tank.ids_of(o)[i]));
        }

        assert(post.index_is_sound()) by {
            assert forall|o: Seq<u8>, i: int| 0 <= i < post.ids_of(o).len() implies {
                let x = #[trigger] post.ids_of(o)[i];
                post.has(x) && post.fishes[x].owner == o
            } by {
                if i < tank.ids_of(o).len() {
                    assert(post.ids_of(o)[i] == tank.ids_of(o)[i]);
                    assert(tank.has(tank.ids_of(o)[i]));
                }
            }
        }
        assert(post.index_is_distinct()) by {
            assert forall|o: Seq<u8>| (#[trigger] post.ids_of(o)).no_duplicates() by {
                assert(tank.ids_of(o).no_duplicates());
            }
        }
        assert(post.index_is_complete()) by {
            assert forall|x: u64| #[trigger] post.has(x) implies post.ids_of(
                post.fishes[x].owner,
            ).contains(x) by {
                if x == id {
                    assert(post.ids_of(owner)[tank.ids_of(owner).len() as int] == id);
                } else {
                    assert(tank.has(x));
                    let o = tank.fishes[x].owner;
                    let i = tank.ids_of(o).index_of(x);
                    assert(tank.ids_of(o).contains(x));
                    assert(post.ids_of(o)[i] == x);
                }
            }
        }
        assert(post.within_cap()) by {
            assert forall|o: Seq<u8>| #[trigger] post.alive_count(o) <= MAX_ALIVE_FISH by {
                let old_ids = tank.ids_of(o);
                assert forall|i: int| 0 <= i < old_ids.len() implies (tank.alive_pred())(
                    #[trigger] old_ids[i],
                ) == (post.alive_pred())(old_ids[i]) by {
                    assert(tank.ids_of(o)[i] != id);
                }
                lemma_filter_agree(old_ids, tank.alive_pred(), post.alive_pred());
                assert(tank.alive_count(o) <= MAX_ALIVE_FISH);
                if o == owner {
                    Seq::lemma_filter_push(old_ids, id, post.alive_pred());
                }
            }
        }
    }
}

/// What a feeding that is not refused does to the store: the fed fish is
/// replaced, every other fish stays, and the order stays.
proof fn lemma_fed_store(tank: TankView, sender: Seq<u8>, id: u64, now: u64)
    requires
        tank.feed_refusal(sender, id) is None,
    ensures
        tank.feed(sender, id, now).order == tank.order,
        tank.feed(sender, id, now).owners == tank.owners,
        tank.feed(sender, id, now).counter == tank.counter,
        tank.feed(sender, id, now).fishes.dom() == tank.fishes.dom(),
        forall|x: u64| x != id ==> #[trigger] tank.feed(sender, id, now).fishes[x] == tank.fishes[x],
        tank.feed(sender, id, now).fishes[id] == if starved(tank.fishes[id].last_fed, now) {
            FishView { dead: true, ..tank.fishes[id] }
        } else {
            FishView { last_fed: now, ..tank.fishes[id] }
        },
{
    assert(tank.feed(sender, id, now).fishes.dom() =~= tank.fishes.dom());
}

/// A feeding keeps a tank as a tank should be.
pub proof fn lemma_feed_keeps_inv(tank: TankView, sender: Seq<u8>, id: u64, now: u64)
    requires
        tank.inv(),
        tank.can_feed(sender, id, now),
    ensures
        tank.feed(sender, id, now).inv(),
{
    if tank.feed_refusal(sender, id) is None {
        let post = tank.feed(sender, id, now);
        lemma_fed_store(tank, sender, id, now);
        assert forall|x: u64| post.has(x) <==> tank.has(x) by {}
        assert forall|o: Seq<u8>| #[trigger] post.ids_of(o) == tank.ids_of(o) by {}
        assert(post.order_matches_store());
        assert(post.ids_agree()) by {
            assert forall|x: u64| post.has(x) implies (#[trigger] post.fishes[x]).id == x by {
                assert(tank.fishes[x].id == x);
            }
        }
        assert(post.ids_are_past());
        assert(post.feedings_follow_adoption()) by {
            assert forall|x: u64| post.has(x) implies (#[trigger] post.fishes[x]).created_at
                <= post.fishes[x].last_fed by {
                assert(tank.fishes[x].created_at <= tank.fishes[x].last_fed);
            }
        }
        assert(post.index_is_sound()) by {
            assert forall|o: Seq<u8>, i: int| 0 <= i < post.ids_of(o).len() implies {
                let x = #[trigger] post.ids_of(o)[i];
                post.has(x) && post.fishes[x].owner == o
            } by {
                assert(post.ids_of(o)[i] == tank.ids_of(o)[i]);
                assert(tank.has(tank.ids_of(o)[i]));
            }
        }
        assert(post.index_is_distinct()) by {
            assert forall|o: Seq<u8>| (#[trigger] post.ids_of(o)).no_duplicates() by {
                assert(tank.ids_of(o).no_duplicates());
            }
        }
        assert(post.index_is_complete()) by {
            assert forall|x: u64| #[trigger] post.has(x) implies post.ids_of(
                post.fishes[x].owner,
            ).contains(x) by {
                assert(tank.has(x));
                assert(post.fishes[x].owner == tank.fishes[x].owner);
            }
        }
        assert(post.within_cap()) by {
            assert forall|o: Seq<u8>| #[trigger] post.alive_count(o) <= MAX_ALIVE_FISH by {
                let ids = tank.ids_of(o);
                assert forall|i: int|
                    0 <= i < ids.len() && (post.alive_pred())(#[trigger] ids[i]) implies (
                tank.alive_pred())(ids[i]) by {}
                lemma_filter_fewer(ids, tank.alive_pred(), post.alive_pred());
                assert(tank.alive_count(o) <= MAX_ALIVE_FISH);
            }
        }
    }
}

proof fn lemma_filter_distinct<A>(s: Seq<A>, p: spec_fn(A) -> bool)
    requires
        s.no_duplicates(),
    ensures
        s.filter(p).no_duplicates(),
    decreases s.len(),
{
    reveal(Seq::filter);
    if s.len() > 0 {
        let front = s.drop_last();
        let last = s.last();
        lemma_filter_distinct(front, p);
        if front.filter(p).contains(last) {
            front.lemma_filter_contains_rev(p, last);
            let i = front.index_of(last);
            assert(s[i] == last);
        }
    }
}

/// Any number of calls keeps a tank as a tank should be.
pub proof fn law_calls_keep_inv(tank: TankView, calls: Seq<Call>)
    requires
        tank.inv(),
        tank.accepts_all(calls),
    ensures
        tank.run(calls).inv(),
    decreases calls.len(),
{
    if calls.len() > 0 {
        law_calls_keep_inv(tank, calls.drop_last());
        let before = tank.run(calls.drop_last());
        match calls.last() {
            Call::Adopt { owner, name, now, colour } => {
                lemma_adopt_keeps_inv(before, owner, name, now, colour);
            },
            Call::Feed { sender, id, now } => {
                lemma_feed_keeps_inv(before, sender, id, now);
            },
        }
    }
}

/// In a tank that is as it should be, the living entries of an owner's list
/// are exactly the living fish of that owner, each counted once.
pub proof fn law_alive_count_counts_the_owned(tank: TankView, owner: Seq<u8>)
    requires
        tank.inv(),
    ensures
        tank.alive_owned(owner).finite(),
        tank.alive_owned(owner).len() == tank.alive_count(owner),
{
    let ids = tank.ids_of(owner);
    let alive = ids.filter(tank.alive_pred());
    lemma_filter_distinct(ids, tank.alive_pred());
    alive.unique_seq_to_set();
    assert forall|id: u64| alive.contains(id) <==> tank.alive_owned(owner).contains(id) by {
        if alive.contains(id) {
            let i = alive.index_of(id);
            ids.lemma_filter_pred(tank.alive_pred(), i);
            ids.lemma_filter_contains_rev(tank.alive_pred(), id);
            let j = ids.index_of(id);
            assert(tank.ids_of(owner)[j] == id);
        }
        if tank.alive_owned(owner).contains(id) {
            assert(tank.has(id));
            let j = ids.index_of(id);
            assert(ids.contains(id));
            ids.lemma_filter_contains(tank.alive_pred(), j);
        }
    }
    assert(alive.to_set() =~= tank.alive_owned(owner));
}

/// After any history of calls on a new tank, no owner holds more living fish
/// than the cap allows.
pub proof fn law_cap_always_holds(calls: Seq<Call>, owner: Seq<u8>)
    requires
        TankView::empty().accepts_all(calls),
    ensures
        TankView::empty().run(calls).alive_owned(owner).finite(),
        TankView::empty().run(calls).alive_owned(owner).len() <= MAX_ALIVE_FISH,
{
    lemma_empty_inv();
    law_calls_keep_inv(TankView::empty(), calls);
    let tank = TankView::empty().run(calls);
    law_alive_count_counts_the_owned(tank, owner);
    assert(tank.alive_count(owner) <= MAX_ALIVE_FISH);
}

/// An owner who holds as many living fish as the cap allows is refused
/// another, and the refusal changes nothing.
pub proof fn law_full_owner_is_refused(
    tank: TankView,
    owner: Seq<u8>,
    name: Seq<char>,
    now: u64,
    colour: u16,
)
    requires
        tank.alive_count(owner) >= MAX_ALIVE_FISH,
    ensures
        tank.adopt_result(owner) == Err::<u64, ContractError>(ContractError::CapacityExceeded),
        tank.adopt(owner, name, now, colour) == tank,
{
}

/// An owner with room gets the fish: it takes the counter's value as its id,
/// starts out alive and fed at the time of adoption, and is the last of the
/// owner's list. The owner then has one more living fish than before.
pub proof fn law_adoption_adds_one(
    tank: TankView,
    owner: Seq<u8>,
    name: Seq<char>,
    now: u64,
    colour: u16,
)
    requires
        tank.inv(),
        tank.can_adopt(owner),
        tank.has_room(owner),
    ensures
        tank.adopt_result(owner) == Ok::<u64, ContractError>(tank.counter),
        tank.adopt(owner, name, now, colour).fishes[tank.counter] == newborn(
            tank.counter,
            owner,
            name,
            now,
            colour,
        ),
        tank.adopt(owner, name, now, colour).ids_of(owner) == tank.ids_of(owner).push(
            tank.counter,
        ),
        tank.adopt(owner, name, now, colour).counter == tank.counter + 1,
        tank.adopt(owner, name, now, colour).alive_count(owner) == tank.alive_count(owner) + 1,
        tank.adopt(owner, name, now, colour).alive_count(owner) <= MAX_ALIVE_FISH,
{
    let id = tank.counter;
    let post = tank.adopted(owner, name, now, colour);
    let old_ids = tank.ids_of(owner);
    lemma_adopted_lists(tank, owner, name, now, colour);
    assert(!tank.has(id));
    assert forall|i: int| 0 <= i < old_ids.len() implies (tank.alive_pred())(
        #[trigger] old_ids[i],
    ) == (post.alive_pred())(old_ids[i]) by {
        assert(tank.has(tank.ids_of(owner)[i]));
    }
    lemma_filter_agree(old_ids, tank.alive_pred(), post.alive_pred());
    Seq::lemma_filter_push(old_ids, id, post.alive_pred());
}

/// A fish fed by its owner within the hunger deadline of its adoption is
/// recorded as fed at that time, and lives.
pub proof fn law_feeding_a_new_fish(
    tank: TankView,
    owner: Seq<u8>,
    name: Seq<char>,
    adopted_at: u64,
    colour: u16,
    fed_at: u64,
)
    requires
        tank.has_room(owner),
        adopted_at <= fed_at <= adopted_at + MAX_HUNGER_DURATION,
    ensures
        ({
            let home = tank.adopt(owner, name, adopted_at, colour);
            let id = tank.counter;
            &&& home.can_feed(owner, id, fed_at)
            &&& home.feed_result(owner, id, fed_at) == Ok::<FeedOutcome, ContractError>(
                FeedOutcome::Fed,
            )
            &&& home.feed(owner, id, fed_at).fishes[id] == FishView {
                last_fed: fed_at,
                ..newborn(id, owner, name, adopted_at, colour)
            }
            &&& home.feed(owner, id, fed_at).is_alive(id)
        }),
{
}

/// A fish fed by its owner after the hunger deadline is recorded as dead.
/// The call ends with an outcome, not with an error, and nothing else about
/// the fish or the tank changes.
pub proof fn law_late_feeding_kills(tank: TankView, sender: Seq<u8>, id: u64, now: u64)
    requires
        tank.feed_refusal(sender, id) is None,
        now - tank.fishes[id].last_fed > MAX_HUNGER_DURATION,
    ensures
        tank.feed_result(sender, id, now) == Ok::<FeedOutcome, ContractError>(
            FeedOutcome::FishDied,
        ),
        tank.feed(sender, id, now).is_dead(id),
        tank.feed(sender, id, now).fishes[id] == (FishView { dead: true, ..tank.fishes[id] }),
        tank.feed(sender, id, now) == tank.store(id, FishView { dead: true, ..tank.fishes[id] }),
{
}

/// A fish fed by its owner within the hunger deadline is recorded as fed at
/// the time of the call, and nothing else about it changes.
pub proof fn law_timely_feeding_feeds(tank: TankView, sender: Seq<u8>, id: u64, now: u64)
    requires
        tank.feed_refusal(sender, id) is None,
        now - tank.fishes[id].last_fed <= MAX_HUNGER_DURATION,
    ensures
        tank.feed_result(sender, id, now) == Ok::<FeedOutcome, ContractError>(FeedOutcome::Fed),
        tank.feed(sender, id, now).is_alive(id),
        tank.feed(sender, id, now).fishes[id] == (FishView { last_fed: now, ..tank.fishes[id] }),
{
}

/// No call undoes what is on record: a fish stays in the store under its id,
/// keeps its name, owner, time of adoption and hue, is never fed at an
/// earlier time than before, and stays dead once it is dead. Each owner's
/// list and the order of the store only grow at the end, and the counter
/// never goes back.
pub proof fn law_calls_keep_the_record(tank: TankView, call: Call)
    requires
        tank.inv(),
        tank.accepts(call),
    ensures
        tank.counter <= tank.apply(call).counter,
        tank.order.is_prefix_of(tank.apply(call).order),
        forall|owner: Seq<u8>| #[trigger]
            tank.ids_of(owner).is_prefix_of(tank.apply(call).ids_of(owner)),
        forall|id: u64| #[trigger]
            tank.has(id) ==> {
                let before = tank.fishes[id];
                let after = tank.apply(call).fishes[id];
                &&& tank.apply(call).has(id)
                &&& after.id == before.id
                &&& after.name == before.name
                &&& after.owner == before.owner
                &&& after.created_at == before.created_at
                &&& after.colour == before.colour
                &&& after.last_fed >= before.last_fed
                &&& before.dead ==> after.dead
            },
{
    let post = tank.apply(call);
    match call {
        Call::Adopt { owner, name, now, colour } => {
            if tank.has_room(owner) {
                lemma_adopted_lists(tank, owner, name, now, colour);
                assert(!tank.has(tank.counter));
                assert forall|o: Seq<u8>| #[trigger]
                    tank.ids_of(o).is_prefix_of(post.ids_of(o)) by {
                    if o == owner {
                        assert(tank.ids_of(o) =~= post.ids_of(o).subrange(
                            0,
                            tank.ids_of(o).len() as int,
                        ));
                    }
                }
            }
        },
        Call::Feed { sender, id, now } => {
            if tank.feed_refusal(sender, id) is None {
                lemma_fed_store(tank, sender, id, now);
                assert forall|o: Seq<u8>| #[trigger]
                    tank.ids_of(o).is_prefix_of(post.ids_of(o)) by {
                    assert(post.ids_of(o) == tank.ids_of(o));
                }
            }
        },
    }
}

/// Death is final: whatever calls follow, a dead fish stays dead.
pub proof fn law_death_is_final(tank: TankView, calls: Seq<Call>, id: u64)
    requires
        tank.inv(),
        tank.accepts_all(calls),
        tank.is_dead(id),
    ensures
        tank.run(calls).is_dead(id),
    decreases calls.len(),
{
    if calls.len() > 0 {
        law_death_is_final(tank, calls.drop_last(), id);
        law_calls_keep_inv(tank, calls.drop_last());
        law_calls_keep_the_record(tank.run(calls.drop_last()), calls.last());
        assert(tank.run(calls.drop_last()).has(id));
    }
}

/// A dead fish is reported as dead to its owner, at whatever time they ask.
pub proof fn law_dead_fish_are_reported_dead(tank: TankView, owner: Seq<u8>, now: u64, i: int)
    requires
        0 <= i < tank.ids_of(owner).len(),
        tank.is_dead(tank.ids_of(owner)[i]),
    ensures
        tank.statuses(owner, now).len() == tank.ids_of(owner).len(),
        tank.statuses(owner, now)[i].id == tank.ids_of(owner)[i],
        tank.statuses(owner, now)[i].dead,
{
}

/// The owner of a dead fish who feeds it is told that it is dead, however
/// much or little time has gone by, and nothing changes.
pub proof fn law_dead_fish_cannot_be_fed(tank: TankView, sender: Seq<u8>, id: u64, now: u64)
    requires
        tank.is_dead(id),
        tank.fishes[id].owner == sender,
    ensures
        tank.can_feed(sender, id, now),
        tank.feed_result(sender, id, now) == Err::<FeedOutcome, ContractError>(
            ContractError::AlreadyDead,
        ),
        tank.feed(sender, id, now) == tank,
{
}

/// Feeding under an id that no fish has is refused, and nothing changes.
pub proof fn law_unknown_fish_cannot_be_fed(tank: TankView, sender: Seq<u8>, id: u64, now: u64)
    requires
        !tank.has(id),
    ensures
        tank.can_feed(sender, id, now),
        tank.feed_result(sender, id, now) == Err::<FeedOutcome, ContractError>(
            ContractError::NotFound,
        ),
        tank.feed(sender, id, now) == tank,
{
}

/// Feeding a fish of somebody else is refused, be the fish alive or dead,
/// and nothing changes.
pub proof fn law_only_the_owner_feeds(tank: TankView, sender: Seq<u8>, id: u64, now: u64)
    requires
        tank.has(id),
        tank.fishes[id].owner != sender,
    ensures
        tank.can_feed(sender, id, now),
        tank.feed_result(sender, id, now) == Err::<FeedOutcome, ContractError>(
            ContractError::NotOwner,
        ),
        tank.feed(sender, id, now) == tank,
{
}

/// The two public lists split the store between them: the list of the
/// living names living fish only, the list of the dead names dead fish only,
/// each fish of the store is named by exactly one entry of the two, and
/// each entry tells of the fish it names.
pub proof fn law_alive_and_dead_split_the_store(tank: TankView)
    requires
        tank.order_matches_store(),
    ensures
        tank.alive().len() == tank.alive_ids().len(),
        tank.dead().len() == tank.dead_ids().len(),
        tank.alive().len() + tank.dead().len() == tank.order.len(),
        tank.alive_ids().no_duplicates(),
        tank.dead_ids().no_duplicates(),
        forall|i: int|
            0 <= i < tank.alive().len() ==> {
                let entry = #[trigger] tank.alive()[i];
                tank.is_alive(entry.id) && entry.id == tank.alive_ids()[i]
            },
        forall|i: int|
            0 <= i < tank.dead().len() ==> {
                let entry = #[trigger] tank.dead()[i];
                tank.is_dead(entry.id) && entry.id == tank.dead_ids()[i]
            },
        forall|id: u64| #[trigger] tank.is_alive(id) <==> tank.alive_ids().contains(id),
        forall|id: u64| #[trigger] tank.is_dead(id) <==> tank.dead_ids().contains(id),
        forall|id: u64| #[trigger]
            tank.has(id) <==> (tank.alive_ids().contains(id) || tank.dead_ids().contains(id)),
        forall|id: u64| !(tank.alive_ids().contains(id) && tank.dead_ids().contains(id)),
{
    let order = tank.order;
    let alive = tank.alive_pred();
    let dead = tank.dead_pred();
    lemma_filter_distinct(order, alive);
    lemma_filter_distinct(order, dead);
    lemma_split_len(tank, order);
    assert forall|i: int| 0 <= i < tank.alive_ids().len() implies tank.is_alive(
        #[trigger] tank.alive_ids()[i],
    ) by {
        order.lemma_filter_pred(alive, i);
    }
    assert forall|i: int| 0 <= i < tank.dead_ids().len() implies tank.is_dead(
        #[trigger] tank.dead_ids()[i],
    ) by {
        order.lemma_filter_pred(dead, i);
    }
    assert forall|id: u64| #[trigger] tank.is_alive(id) <==> tank.alive_ids().contains(id) by {
        if tank.is_alive(id) {
            assert(order.contains(id));
            order.lemma_filter_contains(alive, order.index_of(id));
        }
        if tank.alive_ids().contains(id) {
            let i = tank.alive_ids().index_of(id);
            assert(tank.is_alive(tank.alive_ids()[i]));
        }
    }
    assert forall|id: u64| #[trigger] tank.is_dead(id) <==> tank.dead_ids().contains(id) by {
        if tank.is_dead(id) {
            assert(order.contains(id));
            order.lemma_filter_contains(dead, order.index_of(id));
        }
        if tank.dead_ids().contains(id) {
            let i = tank.dead_ids().index_of(id);
            assert(tank.is_dead(tank.dead_ids()[i]));
        }
    }
    assert forall|id: u64| #[trigger]
        tank.has(id) <==> (tank.alive_ids().contains(id) || tank.dead_ids().contains(id)) by {
        assert(tank.is_alive(id) <==> tank.alive_ids().contains(id));
        assert(tank.is_dead(id) <==> tank.dead_ids().contains(id));
    }
    assert forall|id: u64| !(tank.alive_ids().contains(id) && tank.dead_ids().contains(id)) by {
        assert(tank.is_alive(id) <==> tank.alive_ids().contains(id));
        assert(tank.is_dead(id) <==> tank.dead_ids().contains(id));
    }
}

proof fn lemma_split_len(tank: TankView, ids: Seq<u64>)
    requires
        forall|i: int| 0 <= i < ids.len() ==> tank.has(#[trigger] ids[i]),
    ensures
        ids.filter(tank.alive_pred()).len() + ids.filter(tank.dead_pred()).len() == ids.len(),
    decreases ids.len(),
{
    reveal(Seq::filter);
    if ids.len() > 0 {
        let front = ids.drop_last();
        assert forall|i: int| 0 <= i < front.len() implies tank.has(#[trigger] front[i]) by {
            assert(front[i] == ids[i]);
        }
        lemma_split_len(tank, front);
        assert(tank.has(ids[ids.len() - 1]));
    }
}

} // verus!

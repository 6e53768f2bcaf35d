use fish_tank::contract::{
    adopt_fish, all_fish, dead_fish, feed_fish, fish_status, instantiate, query, Tank,
};
use fish_tank::entity_store::EntityStore;
use fish_tank::id_allocator::IdAllocator;
use fish_tank::msg::{
    DeadFishStatus, FeedOutcome, FullFishStatus, InstantiateMsg, QueryAnswer, QueryMsg,
    ShortFishStatus,
};
use fish_tank::owner_index::OwnerIndex;
use fish_tank::state::{Env, Fish};

fn env(time: u64) -> Env {
    Env { time, random: None }
}

fn with_hue(time: u64, hue: u8) -> Env {
    Env { time, random: Some(vec![0, 0, 0, hue]) }
}

fn carol() -> Vec<u8> {
    vec![0xca, 0x01]
}

fn dave() -> Vec<u8> {
    vec![0xda, 0x7e]
}

/// Carol has fish 0 (dead), 2 and 3; Dave has fish 1 (dead) and 4.
fn mixed_tank() -> Tank {
    let mut tank = instantiate(InstantiateMsg {});
    adopt_fish(&mut tank, &with_hue(0, 10), carol(), "zero".to_string()).unwrap();
    adopt_fish(&mut tank, &with_hue(5, 20), dave(), "one".to_string()).unwrap();
    assert_eq!(feed_fish(&mut tank, &env(90000), carol(), 0), Ok(FeedOutcome::FishDied));
    assert_eq!(feed_fish(&mut tank, &env(90000), dave(), 1), Ok(FeedOutcome::FishDied));
    adopt_fish(&mut tank, &with_hue(90010, 30), carol(), "two".to_string()).unwrap();
    adopt_fish(&mut tank, &with_hue(90020, 40), carol(), "three".to_string()).unwrap();
    adopt_fish(&mut tank, &with_hue(90030, 50), dave(), "four".to_string()).unwrap();
    assert_eq!(feed_fish(&mut tank, &env(90100), carol(), 2), Ok(FeedOutcome::Fed));
    tank
}

#[test]
fn an_owner_sees_all_their_fish_oldest_first() {
    let tank = mixed_tank();
    assert_eq!(
        fish_status(&tank, &env(100000), carol()),
        vec![
            FullFishStatus {
                id: 0,
                name: "zero".to_string(),
                age: 100000,
                seconds_since_fed: 100000,
                dead: true,
                colour: 10,
            },
            FullFishStatus {
                id: 2,
                name: "two".to_string(),
                age: 9990,
                seconds_since_fed: 9900,
                dead: false,
                colour: 30,
            },
            FullFishStatus {
                id: 3,
                name: "three".to_string(),
                age: 9980,
                seconds_since_fed: 9980,
                dead: false,
                colour: 40,
            },
        ]
    );
}

#[test]
fn an_unknown_owner_sees_nothing() {
    let tank = mixed_tank();
    assert_eq!(fish_status(&tank, &env(100000), vec![7]), vec![]);
    assert_eq!(fish_status(&instantiate(InstantiateMsg {}), &env(0), carol()), vec![]);
}

#[test]
fn asking_does_not_kill_a_starved_fish() {
    let mut tank = instantiate(InstantiateMsg {});
    adopt_fish(&mut tank, &env(0), carol(), "Wanda".to_string()).unwrap();
    let statuses = fish_status(&tank, &env(200000), carol());
    assert!(!statuses[0].dead);
    assert_eq!(statuses[0].seconds_since_fed, 200000);
    assert_eq!(all_fish(&tank, &env(200000)).len(), 1);
    assert_eq!(dead_fish(&tank, &env(200000)), vec![]);
    // asked again, the answer is the same
    assert!(!fish_status(&tank, &env(200000), carol())[0].dead);
    // only a feeding finds the fish dead
    assert_eq!(feed_fish(&mut tank, &env(200000), carol(), 0), Ok(FeedOutcome::FishDied));
    assert!(fish_status(&tank, &env(200000), carol())[0].dead);
    assert_eq!(all_fish(&tank, &env(200000)), vec![]);
    assert_eq!(dead_fish(&tank, &env(200000)).len(), 1);
}

#[test]
fn the_living_are_listed_in_store_order() {
    let tank = mixed_tank();
    assert_eq!(
        all_fish(&tank, &env(100000)),
        vec![
            ShortFishStatus { id: 2, name: "two".to_string(), colour: 30 },
            ShortFishStatus { id: 3, name: "three".to_string(), colour: 40 },
            ShortFishStatus { id: 4, name: "four".to_string(), colour: 50 },
        ]
    );
}

#[test]
fn the_dead_are_listed_with_their_owners() {
    let tank = mixed_tank();
    assert_eq!(
        dead_fish(&tank, &env(100000)),
        vec![
            DeadFishStatus { id: 0, name: "zero".to_string(), colour: 10, owner: carol() },
            DeadFishStatus { id: 1, name: "one".to_string(), colour: 20, owner: dave() },
        ]
    );
}

#[test]
fn the_living_and_the_dead_split_the_store() {
    let tank = mixed_tank();
    let living: Vec<u64> = all_fish(&tank, &env(100000)).iter().map(|s| s.id).collect();
    let dead: Vec<u64> = dead_fish(&tank, &env(100000)).iter().map(|s| s.id).collect();
    for (id, fish) in tank.fishes().iterate() {
        assert_eq!(living.contains(&id), !fish.dead);
        assert_eq!(dead.contains(&id), fish.dead);
    }
    let mut both: Vec<u64> = living.iter().chain(dead.iter()).copied().collect();
    both.sort();
    assert_eq!(both, vec![0, 1, 2, 3, 4]);
    assert_eq!(living.len() + dead.len(), tank.fishes().len());
}

#[test]
fn the_public_lists_of_an_empty_tank_are_empty() {
    let tank = instantiate(InstantiateMsg {});
    assert_eq!(all_fish(&tank, &env(0)), vec![]);
    assert_eq!(dead_fish(&tank, &env(0)), vec![]);
}

#[test]
fn query_answers_each_request() {
    let tank = mixed_tank();
    let now = env(100000);
    assert_eq!(
        query(&tank, &now, QueryMsg::FishStatus { address: dave() }),
        QueryAnswer::MyFishStatus(fish_status(&tank, &now, dave()))
    );
    assert_eq!(
        query(&tank, &now, QueryMsg::AllFish {}),
        QueryAnswer::AllFishStatus(all_fish(&tank, &now))
    );
    assert_eq!(
        query(&tank, &now, QueryMsg::DeadFish {}),
        QueryAnswer::DeadFishStatus(dead_fish(&tank, &now))
    );
    match query(&tank, &now, QueryMsg::FishStatus { address: dave() }) {
        QueryAnswer::MyFishStatus(statuses) => {
            assert_eq!(statuses.len(), 2);
            assert_eq!(statuses[0].id, 1);
            assert!(statuses[0].dead);
            assert_eq!(statuses[1].id, 4);
            assert_eq!(statuses[1].age, 100000 - 90030);
        }
        other => panic!("unexpected answer {:?}", other),
    }
}

#[test]
fn a_tank_can_be_taken_apart_and_put_together() {
    let tank = mixed_tank();
    let mut fishes = EntityStore::new();
    for (id, fish) in tank.fishes().iterate() {
        fishes.put(id, fish);
    }
    let mut owners = OwnerIndex::new();
    owners.put(carol(), tank.owners().get(&carol()));
    owners.put(dave(), tank.owners().get(&dave()));
    let mut again = Tank::from_parts(fishes, owners, IdAllocator::starting_at(tank.counter()));

    let now = env(100000);
    assert_eq!(again.counter(), 5);
    assert_eq!(fish_status(&again, &now, carol()), fish_status(&tank, &now, carol()));
    assert_eq!(fish_status(&again, &now, dave()), fish_status(&tank, &now, dave()));
    assert_eq!(all_fish(&again, &now), all_fish(&tank, &now));
    assert_eq!(dead_fish(&again, &now), dead_fish(&tank, &now));
    assert_eq!(adopt_fish(&mut again, &now, dave(), "five".to_string()), Ok(5));
    assert_eq!(again.owners().get(&dave()), vec![1, 4, 5]);
}

#[test]
fn a_status_shows_the_key_the_fish_is_listed_under() {
    let mut fishes = EntityStore::new();
    fishes.put(
        8,
        Fish {
            id: 8,
            name: "Odd".to_string(),
            owner: carol(),
            created_at: 40,
            last_fed: 60,
            dead: false,
            colour: 359,
        },
    );
    let mut owners = OwnerIndex::new();
    owners.put(carol(), vec![8, 8]);
    let tank = Tank::from_parts(fishes, owners, IdAllocator::starting_at(9));
    let statuses = fish_status(&tank, &env(100), carol());
    assert_eq!(statuses.len(), 2);
    assert_eq!(statuses[0], statuses[1]);
    assert_eq!(statuses[0].id, 8);
    assert_eq!(statuses[0].age, 60);
    assert_eq!(statuses[0].seconds_since_fed, 40);
    assert_eq!(statuses[0].colour, 359);
}

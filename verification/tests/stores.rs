use fish_tank::entity_store::EntityStore;
use fish_tank::id_allocator::IdAllocator;
use fish_tank::owner_index::OwnerIndex;
use fish_tank::state::{same_address, Fish};

fn fish(id: u64, name: &str) -> Fish {
    Fish {
        id,
        name: name.to_string(),
        owner: vec![id as u8],
        created_at: id,
        last_fed: id + 1,
        dead: false,
        colour: 7,
    }
}

#[test]
fn an_empty_store_has_nothing() {
    let store = EntityStore::new();
    assert_eq!(store.len(), 0);
    assert_eq!(store.get(0), None);
    assert_eq!(store.iterate(), vec![]);
}

#[test]
fn the_store_returns_what_was_put() {
    let mut store = EntityStore::new();
    store.put(4, fish(4, "four"));
    store.put(2, fish(2, "two"));
    assert_eq!(store.get(4), Some(&fish(4, "four")));
    assert_eq!(store.get(2), Some(&fish(2, "two")));
    assert_eq!(store.get(3), None);
    assert_eq!(store.len(), 2);
}

#[test]
fn the_store_iterates_in_the_order_of_first_put() {
    let mut store = EntityStore::new();
    store.put(4, fish(4, "four"));
    store.put(2, fish(2, "two"));
    store.put(9, fish(9, "nine"));
    assert_eq!(
        store.iterate(),
        vec![(4, fish(4, "four")), (2, fish(2, "two")), (9, fish(9, "nine"))]
    );
    assert_eq!(store.id_at(0), 4);
    assert_eq!(store.id_at(2), 9);
    assert_eq!(store.fish_at(1), &fish(2, "two"));
}

#[test]
fn putting_again_replaces_in_place() {
    let mut store = EntityStore::new();
    store.put(4, fish(4, "four"));
    store.put(2, fish(2, "two"));
    store.put(9, fish(9, "nine"));
    store.put(2, fish(2, "deux"));
    assert_eq!(store.len(), 3);
    assert_eq!(store.get(2), Some(&fish(2, "deux")));
    assert_eq!(
        store.iterate(),
        vec![(4, fish(4, "four")), (2, fish(2, "deux")), (9, fish(9, "nine"))]
    );
    // putting the same thing twice is the same as putting it once
    store.put(2, fish(2, "deux"));
    assert_eq!(store.len(), 3);
    assert_eq!(store.get(2), Some(&fish(2, "deux")));
}

#[test]
fn the_store_keeps_the_key_it_is_given() {
    let mut store = EntityStore::new();
    store.put(1, fish(5, "five"));
    assert_eq!(store.get(1), Some(&fish(5, "five")));
    assert_eq!(store.get(5), None);
    assert_eq!(store.iterate(), vec![(1, fish(5, "five"))]);
}

#[test]
fn an_unknown_owner_has_an_empty_list() {
    let index = OwnerIndex::new();
    assert_eq!(index.get(&vec![1, 2, 3]), Vec::<u64>::new());
    assert_eq!(index.get(&vec![]), Vec::<u64>::new());
}

#[test]
fn the_index_returns_the_list_that_was_put() {
    let mut index = OwnerIndex::new();
    index.put(vec![1], vec![0, 3]);
    index.put(vec![2], vec![1]);
    index.put(vec![], vec![2]);
    assert_eq!(index.get(&vec![1]), vec![0, 3]);
    assert_eq!(index.get(&vec![2]), vec![1]);
    assert_eq!(index.get(&vec![]), vec![2]);
    assert_eq!(index.get(&vec![1, 0]), Vec::<u64>::new());
    index.put(vec![1], vec![0, 3, 4]);
    assert_eq!(index.get(&vec![1]), vec![0, 3, 4]);
    assert_eq!(index.get(&vec![2]), vec![1]);
}

#[test]
fn the_allocator_gives_each_id_once() {
    let mut ids = IdAllocator::new();
    assert_eq!(ids.current(), 0);
    assert_eq!(ids.next(), 0);
    assert_eq!(ids.next(), 1);
    assert_eq!(ids.next(), 2);
    assert_eq!(ids.current(), 3);
}

#[test]
fn the_allocator_goes_on_where_it_was_left() {
    let mut ids = IdAllocator::starting_at(41);
    assert_eq!(ids.current(), 41);
    assert_eq!(ids.next(), 41);
    assert_eq!(ids.current(), 42);
    let mut last = IdAllocator::starting_at(u64::MAX - 1);
    assert_eq!(last.next(), u64::MAX - 1);
    assert_eq!(last.current(), u64::MAX);
}

#[test]
fn addresses_are_the_same_when_their_bytes_are() {
    assert!(same_address(&vec![], &vec![]));
    assert!(same_address(&vec![1, 2], &vec![1, 2]));
    assert!(!same_address(&vec![1, 2], &vec![2, 1]));
    assert!(!same_address(&vec![1, 2], &vec![1, 2, 0]));
    assert!(!same_address(&vec![0], &vec![]));
}

#[test]
fn a_copy_of_a_fish_is_the_same_fish() {
    let original = fish(3, "three");
    let copy = original.clone();
    assert_eq!(copy, original);
}

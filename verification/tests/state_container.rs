use dynastes::state_machine::StateContainer;
use dynastes::state_machine::StateID;

fn id(text: &str) -> StateID {
    StateID::from(text.to_string())
}

#[test]
fn a_new_container_is_empty() {
    let states: StateContainer<u32> = StateContainer::new();
    assert_eq!(states.len(), 0);
    assert_eq!(states.get(&id("idle")), None);
    assert!(!states.contains(&id("idle")));
    assert!(states.pairs().is_empty());
}

#[test]
fn what_is_put_in_is_found_again() {
    let mut states = StateContainer::new();
    states.insert(id("idle"), 1u32);
    states.insert(id("walk"), 2u32);
    assert_eq!(states.len(), 2);
    assert_eq!(states.get(&id("idle")), Some(&1));
    assert_eq!(states.get(&id("walk")), Some(&2));
    assert_eq!(states.get(&id("run")), None);
    assert!(states.contains(&id("walk")));
    assert!(!states.contains(&id("Walk")));
}

#[test]
fn the_last_state_under_an_id_stays() {
    let mut states = StateContainer::new();
    states.insert(id("idle"), 1u32);
    states.insert(id("walk"), 2u32);
    states.insert(id("idle"), 3u32);
    assert_eq!(states.len(), 2);
    assert_eq!(states.get(&id("idle")), Some(&3));
    assert_eq!(states.pairs(), &vec![(id("idle"), 3), (id("walk"), 2)]);
}

#[test]
fn a_list_of_pairs_is_read_in_order() {
    let states = StateContainer::from_pairs(vec![
        (id("b"), 1u32),
        (id("a"), 2),
        (id("b"), 3),
        (id("c"), 4),
        (id("a"), 5),
    ]);
    assert_eq!(states.len(), 3);
    assert_eq!(states.get(&id("a")), Some(&5));
    assert_eq!(states.get(&id("b")), Some(&3));
    assert_eq!(states.get(&id("c")), Some(&4));
    assert_eq!(states.into_pairs(), vec![(id("b"), 3), (id("a"), 5), (id("c"), 4)]);
}

#[test]
fn the_list_of_pairs_survives_a_round_trip() {
    let mut states = StateContainer::new();
    states.insert(id("walk"), 7u32);
    states.insert(id("idle"), 8);
    states.insert(id("jump"), 9);
    let written = states.into_pairs();
    let read = StateContainer::from_pairs(written.clone());
    assert_eq!(read.pairs(), &written);
    assert_eq!(read.get(&id("walk")), Some(&7));
    assert_eq!(read.get(&id("idle")), Some(&8));
    assert_eq!(read.get(&id("jump")), Some(&9));
}

#[test]
fn the_order_of_registration_does_not_change_what_is_found() {
    let first = StateContainer::from_pairs(vec![(id("a"), 1u32), (id("b"), 2), (id("c"), 3)]);
    let second = StateContainer::from_pairs(vec![(id("c"), 3u32), (id("a"), 1), (id("b"), 2)]);
    for name in ["a", "b", "c", "d"] {
        assert_eq!(first.get(&id(name)), second.get(&id(name)));
    }
    assert_eq!(first.len(), second.len());
}

#[test]
fn extend_registers_each_pair_in_turn() {
    let mut states = StateContainer::from_pairs(vec![(id("a"), 1u32), (id("b"), 2)]);
    states.extend(vec![(id("c"), 3), (id("a"), 4), (id("c"), 5)]);
    assert_eq!(states.pairs(), &vec![(id("a"), 4), (id("b"), 2), (id("c"), 5)]);
    states.extend(Vec::new());
    assert_eq!(states.len(), 3);
}

#[test]
fn ids_are_equal_by_their_text() {
    let walk = id("walk");
    assert_eq!(walk, id("walk"));
    assert_ne!(walk, id("walk "));
    assert_eq!(walk.clone(), walk);
    assert_eq!(walk.as_str(), "walk");
    assert_eq!(walk.0, "walk".to_string());
    let made: StateID = "idle".to_string().into();
    assert_eq!(made, id("idle"));
    assert_eq!(id(""), id(""));
}

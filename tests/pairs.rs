use blockgame::authority::EntityId;
use blockgame::pairs::{body_pairs, collider_pairs, BodyRef, ColliderRef};

fn ent(index: u32) -> EntityId {
    EntityId { index, generation: 1 }
}

fn body(index: u32, empty: bool) -> BodyRef {
    BodyRef { entity: ent(index), empty }
}

#[test]
fn each_unordered_pair_once() {
    let bodies = vec![body(1, false), body(2, false), body(3, false)];
    assert_eq!(body_pairs(&bodies), vec![(1, 0), (2, 0), (2, 1)]);
}

#[test]
fn empty_bodies_are_skipped() {
    let bodies = vec![body(1, false), body(2, true), body(3, false)];
    assert_eq!(body_pairs(&bodies), vec![(2, 0)]);
}

#[test]
fn pairs_follow_entity_order() {
    let bodies = vec![body(5, false), body(2, false)];
    assert_eq!(body_pairs(&bodies), vec![(0, 1)]);
}

#[test]
fn no_pairs_for_one_body() {
    assert_eq!(body_pairs(&vec![body(1, false)]), vec![]);
    assert_eq!(body_pairs(&vec![]), vec![]);
}

#[test]
fn colliders_skip_ignored_owner() {
    let bodies = vec![body(1, false), body(2, false), body(3, true)];
    let colliders = vec![
        ColliderRef { entity: ent(10), ignore: Some(ent(1)) },
        ColliderRef { entity: ent(11), ignore: None },
    ];
    assert_eq!(collider_pairs(&bodies, &colliders), vec![(0, 1), (1, 0), (1, 1)]);
}

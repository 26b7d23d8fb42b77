use blockgame::authority::{delete_entity, EntityId, Removal, Role};

fn ent(index: u32) -> EntityId {
    EntityId { index, generation: 1 }
}

#[test]
fn networked_authority_defers_deletion() {
    let role = Role::Authoritative { networked: true };
    assert_eq!(delete_entity(role, true, ent(4)), Removal::Deferred(ent(4)));
}

#[test]
fn standalone_authority_deletes_at_once() {
    let role = Role::Authoritative { networked: false };
    assert_eq!(delete_entity(role, true, ent(4)), Removal::Immediate(ent(4)));
}

#[test]
fn no_networking_deletes_at_once() {
    let role = Role::Authoritative { networked: true };
    assert_eq!(delete_entity(role, false, ent(2)), Removal::Immediate(ent(2)));
    assert_eq!(delete_entity(Role::Replica, false, ent(2)), Removal::Immediate(ent(2)));
}

#[test]
fn role_flags() {
    assert!(Role::Authoritative { networked: false }.authoritative());
    assert!(!Role::Authoritative { networked: false }.networked());
    assert!(Role::Authoritative { networked: true }.networked());
    assert!(!Role::Replica.authoritative());
    assert!(Role::Replica.networked());
}

#[test]
fn entity_order() {
    assert!(ent(1).before(&ent(2)));
    assert!(!ent(2).before(&ent(1)));
    assert!(!ent(2).before(&ent(2)));
    let old = EntityId { index: 3, generation: 1 };
    let new = EntityId { index: 3, generation: 2 };
    assert!(old.before(&new));
}

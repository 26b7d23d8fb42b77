//! Who may run the simulation, and how an entity leaves the world.
use vstd::prelude::*;

verus! {

/// Handle of an entity in the entity store: its slot and the generation of
/// that slot. Handles are ordered by slot, then by generation.
#[derive(Clone, Copy, Debug, PartialEq, Eq, Structural, Hash)]
pub struct EntityId {
    pub index: u32,
    pub generation: i32,
}

impl EntityId {
    /// The order of handles that the store iterates in.
    pub open spec fn precedes(self, other: EntityId) -> bool {
        self.index < other.index || (self.index == other.index && self.generation
            < other.generation)
    }

    /// Whether this handle comes strictly before `other`.
    pub fn before(&self, other: &EntityId) -> (r: bool)
        ensures
            r == self.precedes(*other),
    {
        self.index < other.index || (self.index == other.index && self.generation
            < other.generation)
    }
}

/// Place of this process in a deployment.
#[derive(Clone, Copy, Debug, PartialEq, Eq, Structural)]
pub enum Role {
    /// Owns the simulation: runs collision detection and response. When
    /// `networked`, replicas follow its state over the network.
    Authoritative { networked: bool },
    /// Follows the state of an authoritative peer and never simulates.
    Replica,
}

impl Role {
    pub open spec fn is_authoritative(self) -> bool {
        self is Authoritative
    }

    pub open spec fn is_networked(self) -> bool {
        match self {
            Role::Authoritative { networked } => networked,
            Role::Replica => true,
        }
    }

    /// Whether this process may mutate physics.
    pub fn authoritative(&self) -> (r: bool)
        ensures
            r == self.is_authoritative(),
    {
        match self {
            Role::Authoritative { .. } => true,
            Role::Replica => false,
        }
    }

    /// Whether other processes observe this one's world.
    pub fn networked(&self) -> (r: bool)
        ensures
            r == self.is_networked(),
    {
        match self {
            Role::Authoritative { networked } => *networked,
            Role::Replica => true,
        }
    }
}

/// How an entity is taken out of the world.
#[derive(Clone, Copy, Debug, PartialEq, Eq, Structural)]
pub enum Removal {
    /// Delete the entity from the store now.
    Immediate(EntityId),
    /// Mark the entity for deletion once the current pass is over, so that
    /// replication sees the deletion before the handle goes stale.
    Deferred(EntityId),
}

/// The removal that deleting `entity` takes. With networking built in, an
/// authoritative networked process defers the deletion so that it can be
/// replicated; every other configuration deletes at once. Only the
/// authoritative process may delete when networking is built in.
pub fn delete_entity(role: Role, networking: bool, entity: EntityId) -> (r: Removal)
    requires
        networking ==> role.is_authoritative(),
    ensures
        networking && role.is_networked() ==> r == Removal::Deferred(entity),
        !(networking && role.is_networked()) ==> r == Removal::Immediate(entity),
{
    if networking && role.networked() {
        Removal::Deferred(entity)
    } else {
        Removal::Immediate(entity)
    }
}

} // verus!

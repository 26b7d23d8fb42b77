//! Core of a 2D game of bodies built from square cells: the bounding-box
//! trees over those bodies and their simultaneous descent, which pairs of
//! bodies a collision pass examines, who may simulate and how entities are
//! deleted in a replicated world, fixed-timestep pacing, key statuses, and
//! an in-process transport for tests.
use vstd::prelude::*;

pub mod authority;
pub mod driver;
pub mod input;
pub mod net;
pub mod pairs;
pub mod shape;
pub mod tree;

verus! {

} // verus!

//! Core of a real-time strategy game: an entity-component store, battle-map
//! and fog-of-war grids, a path cache, unit and technology tables and the
//! behaviour-tree structures used by the computer players.

pub mod bytes;
pub mod ecs;
pub mod game;
pub mod types;
pub mod map;
pub mod cluster;
pub mod pathfinding;
pub mod systems;
pub mod blueprints;
pub mod campaign;
pub mod ai;
pub mod components;
pub mod protocol;
pub mod state_snapshot;
pub mod targeting;
pub mod deployment;
pub mod replay;

use vstd::prelude::*;

verus! {

/// Name of the library.
pub fn hello() -> (s: &'static str)
    ensures
        s == "Machine Empire Core",
{
    "Machine Empire Core"
}

} // verus!

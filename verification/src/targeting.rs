use vstd::prelude::*;
use crate::types::SpriteId;
use crate::components::UnitType;

verus! {

/// Every kind of unit or building can be attacked except capture points.
pub fn is_attackable_kind(kind: SpriteId) -> (b: bool)
    ensures
        b == !(kind is CapturePoint),
{
    !matches!(kind, SpriteId::CapturePoint)
}

/// Whether an entity counts as alive: it is alive in the world and its
/// health, if it has any, is not depleted. `health_dead` is `None` without a
/// health component.
pub open spec fn counts_alive(in_world: bool, health_dead: Option<bool>) -> bool {
    in_world && match health_dead {
        Some(dead) => !dead,
        None => true,
    }
}

/// Whether an entity may be attacked: it counts as alive, has a unit type
/// whose owner is a player (not 255) and whose kind is attackable, and has a
/// health component.
pub open spec fn counts_attackable(in_world: bool, health_dead: Option<bool>, unit: Option<UnitType>) -> bool {
    &&& counts_alive(in_world, health_dead)
    &&& unit matches Some(u) && u.owner != 255 && !(u.kind is CapturePoint)
    &&& health_dead matches Some(dead) && !dead
}

/// Liveness test of a target from what the world holds of it.
pub fn unit_is_alive(in_world: bool, health_dead: Option<bool>) -> (b: bool)
    ensures
        b == counts_alive(in_world, health_dead),
{
    if !in_world {
        return false;
    }
    match health_dead {
        Some(dead) => !dead,
        None => true,
    }
}

/// Attackability test of a target from what the world holds of it.
pub fn unit_is_attackable(in_world: bool, health_dead: Option<bool>, unit: Option<UnitType>) -> (b: bool)
    ensures
        b == counts_attackable(in_world, health_dead, unit),
{
    if !unit_is_alive(in_world, health_dead) {
        return false;
    }
    let unit_type = match unit {
        Some(u) => u,
        None => return false,
    };
    if unit_type.owner == 255 || !is_attackable_kind(unit_type.kind) {
        return false;
    }
    match health_dead {
        Some(dead) => !dead,
        None => false,
    }
}

/// Whether an attacker of `attacker_owner` may attack the target: the target
/// is attackable and owned by another player.
pub fn unit_is_hostile_target(
    in_world: bool,
    health_dead: Option<bool>,
    unit: Option<UnitType>,
    attacker_owner: u8,
) -> (b: bool)
    ensures
        b == (counts_attackable(in_world, health_dead, unit) && unit.unwrap().owner != attacker_owner),
{
    if !unit_is_attackable(in_world, health_dead, unit) {
        return false;
    }
    match unit {
        Some(u) => u.owner != attacker_owner,
        None => false,
    }
}

/// A target that may be attacked by some player counts as alive, and no
/// player may attack its own units.
pub proof fn law_hostile_target_is_live_enemy(
    in_world: bool,
    health_dead: Option<bool>,
    unit: Option<UnitType>,
    attacker_owner: u8,
)
    requires
        counts_attackable(in_world, health_dead, unit) && unit.unwrap().owner != attacker_owner,
    ensures
        counts_alive(in_world, health_dead),
        unit.unwrap().owner != attacker_owner,
        !(unit.unwrap().kind is CapturePoint),
{
}

} // verus!

use vstd::prelude::*;
use crate::ecs::world::World;
use crate::map::{BattleMap, Tile};
use crate::systems::fog::FogGrid;

verus! {

/// Packed byte of a tile for the client: terrain in the low nibble, ground
/// variant shifted into the high nibble.
pub open spec fn tile_byte(t: Tile) -> u8 {
    t.terrain | (t.sprite_variant << 4u8)
}

/// Map tiles packed one byte each (terrain | (sprite_variant << 4)), in tile order.
pub fn map_tiles_bytes(map: &BattleMap) -> (v: Vec<u8>)
    ensures
        v@.len() == map.tiles@.len(),
        forall|i: int| 0 <= i < v@.len() ==> #[trigger] v@[i] == tile_byte(map.tiles@[i]),
{
    let n = map.tiles.len();
    let mut out: Vec<u8> = Vec::with_capacity(n);
    let mut i: usize = 0;
    while i < n
        invariant
            n == map.tiles@.len(),
            i <= n,
            out@.len() == i,
            forall|k: int| 0 <= k < i ==> #[trigger] out@[k] == tile_byte(map.tiles@[k]),
        decreases n - i,
    {
        let tile = &map.tiles[i];
        out.push(tile.terrain | (tile.sprite_variant << 4));
        i += 1;
    }
    out
}

/// What a fog snapshot holds: the player's grid, or nothing for a player
/// the grid does not know.
pub open spec fn fog_snapshot(fog: FogGrid, player: u32) -> Seq<u8> {
    if player < fog.player_count && player < fog.grids@.len() {
        fog.grids@[player as int]@
    } else {
        Seq::<u8>::empty()
    }
}

/// Extract fog of war grid for a specific player as a flat Vec<u8>: empty
/// when the world has no fog grid or the player is unknown.
pub fn snapshot_fog(world: &World, player_id: u8) -> (v: Vec<u8>)
    ensures
        v@ == match world.fog_grid() {
            Some(f) => fog_snapshot(f, player_id as u32),
            None => Seq::<u8>::empty(),
        },
{
    match world.fog_grid_resource() {
        Some(fog) => fog.player_snapshot(player_id as u32),
        None => Vec::new(),
    }
}

/// Extract map tiles as a packed byte array (terrain_type | (sprite_variant << 4)):
/// empty when the world has no battle map.
pub fn snapshot_map_tiles(world: &World) -> (v: Vec<u8>)
    ensures
        match world.battle_map() {
            Some(m) => {
                &&& v@.len() == m.tiles@.len()
                &&& forall|i: int| 0 <= i < v@.len() ==> #[trigger] v@[i] == tile_byte(m.tiles@[i])
            },
            None => v@.len() == 0,
        },
{
    match world.battle_map_resource() {
        Some(map) => map_tiles_bytes(map),
        None => Vec::new(),
    }
}

} // verus!

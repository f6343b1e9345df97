//! Placement of one terrain cluster on a battle map under generation: the
//! Open tiles of a diamond around a centre take the cluster's terrain, in
//! row-major order, until the cluster's share is met.

use vstd::prelude::*;
use crate::map::{
    BattleMap, Tile, generation_sane, in_spawn_corner, spawn_margin, tile_index, lemma_tile_in_range,
    lemma_tile_index_injective, is_spawn_corner,
};

verus! {

pub open spec fn iabs(a: int) -> int {
    if a < 0 {
        -a
    } else {
        a
    }
}

/// Number of tiles with terrain byte `c`.
pub open spec fn terrain_count(tiles: Seq<Tile>, c: u8) -> nat
    decreases tiles.len(),
{
    if tiles.len() == 0 {
        0
    } else {
        terrain_count(tiles.drop_last(), c) + if tiles.last().terrain == c {
            1nat
        } else {
            0nat
        }
    }
}

/// A terrain that no tile has counts zero.
pub proof fn lemma_terrain_count_none(tiles: Seq<Tile>, c: u8)
    requires
        forall|i: int| 0 <= i < tiles.len() ==> (#[trigger] tiles[i]).terrain != c,
    ensures
        terrain_count(tiles, c) == 0,
    decreases tiles.len(),
{
    if tiles.len() > 0 {
        lemma_terrain_count_none(tiles.drop_last(), c);
    }
}

/// Replacing one tile changes each terrain count by what left and what came.
pub proof fn lemma_terrain_count_update(tiles: Seq<Tile>, i: int, t: Tile, c: u8)
    requires
        0 <= i < tiles.len(),
    ensures
        terrain_count(tiles.update(i, t), c) + (if tiles[i].terrain == c {
            1int
        } else {
            0int
        }) == terrain_count(tiles, c) + (if t.terrain == c {
            1int
        } else {
            0int
        }),
    decreases tiles.len(),
{
    let u = tiles.update(i, t);
    if i == tiles.len() - 1 {
        assert(u.drop_last() =~= tiles.drop_last());
    } else {
        assert(u.drop_last() =~= tiles.drop_last().update(i, t));
        lemma_terrain_count_update(tiles.drop_last(), i, t, c);
    }
}

/// Whether the cell at offset (dx, dy) from the centre (cx, cy) is one a
/// cluster of radius `r` covers on `m`: inside the map and the diamond,
/// outside the spawn corners, and Open.
pub open spec fn cluster_cell(m: BattleMap, cx: u32, cy: u32, r: int, margin: u32, dx: int, dy: int) -> bool {
    &&& 0 <= cx + dx < m.width
    &&& 0 <= cy + dy < m.height
    &&& iabs(dx) + iabs(dy) <= r
    &&& !in_spawn_corner((cx + dx) as u32, (cy + dy) as u32, m.width, m.height, margin)
    &&& m.tile((cx + dx) as u32, (cy + dy) as u32).terrain == 0
}

/// Number of cluster cells in row `dy` with offsets from `-r` up to, not
/// including, `dx`.
pub open spec fn row_cells(m: BattleMap, cx: u32, cy: u32, r: int, margin: u32, dy: int, dx: int) -> nat
    decreases dx + r,
{
    if dx <= -r {
        0
    } else {
        row_cells(m, cx, cy, r, margin, dy, dx - 1) + if cluster_cell(m, cx, cy, r, margin, dx - 1, dy) {
            1nat
        } else {
            0nat
        }
    }
}

/// Number of cluster cells in the rows from `-r` up to, not including, `dy`.
pub open spec fn rows_cells(m: BattleMap, cx: u32, cy: u32, r: int, margin: u32, dy: int) -> nat
    decreases dy + r,
{
    if dy <= -r {
        0
    } else {
        rows_cells(m, cx, cy, r, margin, dy - 1) + row_cells(m, cx, cy, r, margin, dy - 1, r + 1)
    }
}

/// Number of cluster cells that come before offset (dx, dy) in row-major
/// order (rows from the top, cells from the left).
pub open spec fn cells_before(m: BattleMap, cx: u32, cy: u32, r: int, margin: u32, dy: int, dx: int) -> nat {
    rows_cells(m, cx, cy, r, margin, dy) + row_cells(m, cx, cy, r, margin, dy, dx)
}

/// Number of cluster cells of the whole diamond.
pub open spec fn all_cells(m: BattleMap, cx: u32, cy: u32, r: int, margin: u32) -> nat {
    rows_cells(m, cx, cy, r, margin, r + 1)
}

/// Tile (x, y) after a cluster of terrain `code` is placed on `m` with room
/// for `budget` more tiles: a cluster cell becomes `code` when fewer than
/// `budget` cluster cells come before it; every other tile is kept.
pub open spec fn clustered_tile(
    m: BattleMap,
    cx: u32,
    cy: u32,
    r: int,
    margin: u32,
    code: u8,
    budget: int,
    x: u32,
    y: u32,
) -> Tile {
    let dx = x - cx;
    let dy = y - cy;
    if cluster_cell(m, cx, cy, r, margin, dx, dy) && cells_before(m, cx, cy, r, margin, dy, dx) < budget {
        Tile { terrain: code, ..m.tile(x, y) }
    } else {
        m.tile(x, y)
    }
}

/// Counting a row prefix: a cell counts once, and the count only grows.
proof fn lemma_row_cells_grow(m: BattleMap, cx: u32, cy: u32, r: int, margin: u32, dy: int, a: int, b: int)
    requires
        -r <= a < b,
    ensures
        row_cells(m, cx, cy, r, margin, dy, a) + (if cluster_cell(m, cx, cy, r, margin, a, dy) {
            1int
        } else {
            0int
        }) <= row_cells(m, cx, cy, r, margin, dy, b),
    decreases b - a,
{
    if b > a + 1 {
        lemma_row_cells_grow(m, cx, cy, r, margin, dy, a, b - 1);
    }
}

/// Counting whole rows: the count only grows, by at least the rows passed.
proof fn lemma_rows_cells_grow(m: BattleMap, cx: u32, cy: u32, r: int, margin: u32, a: int, b: int)
    requires
        -r <= a < b,
    ensures
        rows_cells(m, cx, cy, r, margin, a) + row_cells(m, cx, cy, r, margin, a, r + 1) <= rows_cells(
            m,
            cx,
            cy,
            r,
            margin,
            b,
        ),
    decreases b - a,
{
    if b > a + 1 {
        lemma_rows_cells_grow(m, cx, cy, r, margin, a, b - 1);
    }
}

/// A cluster cell that comes before (qdx, qdy) in row-major order counts
/// among the cells before it.
proof fn lemma_cells_before_order(
    m: BattleMap,
    cx: u32,
    cy: u32,
    r: int,
    margin: u32,
    pdy: int,
    pdx: int,
    qdy: int,
    qdx: int,
)
    requires
        0 <= r,
        -r <= pdy <= r,
        -r <= pdx <= r,
        -r <= qdy,
        -r <= qdx <= r + 1,
        pdy < qdy || (pdy == qdy && pdx < qdx),
    ensures
        cells_before(m, cx, cy, r, margin, pdy, pdx) + (if cluster_cell(m, cx, cy, r, margin, pdx, pdy) {
            1int
        } else {
            0int
        }) <= cells_before(m, cx, cy, r, margin, qdy, qdx),
{
    if pdy == qdy {
        lemma_row_cells_grow(m, cx, cy, r, margin, pdy, pdx, qdx);
    } else {
        lemma_row_cells_grow(m, cx, cy, r, margin, pdy, pdx, r + 1);
        lemma_rows_cells_grow(m, cx, cy, r, margin, pdy, qdy);
    }
}

/// Cluster cells lie inside the square of side 2r + 1 around the centre.
proof fn lemma_cell_in_square(m: BattleMap, cx: u32, cy: u32, r: int, margin: u32, dx: int, dy: int)
    requires
        cluster_cell(m, cx, cy, r, margin, dx, dy),
    ensures
        -r <= dx <= r,
        -r <= dy <= r,
{
}

/// Places one cluster of terrain `code` centred on (cx, cy): scanning the
/// square of side 2 * radius + 1 around the centre row by row, every Open tile
/// of the diamond `|dx| + |dy| <= radius` outside the spawn corners takes the
/// terrain, until `target` tiles have been placed. `placed` counts the tiles
/// placed so far; the new count is returned.
pub fn place_cluster(
    map: &mut BattleMap,
    cx: u32,
    cy: u32,
    radius: u32,
    code: u8,
    margin: u32,
    placed: usize,
    target: usize,
) -> (n: usize)
    requires
        generation_sane(*old(map), false),
        old(map).width <= 0x7FFF_0000,
        old(map).height <= 0x7FFF_0000,
        cx < old(map).width,
        cy < old(map).height,
        1 <= radius <= 5,
        0 < code < 7,
        margin == spawn_margin(old(map).width, old(map).height),
        placed <= target,
    ensures
        final(map).width == old(map).width,
        final(map).height == old(map).height,
        generation_sane(*final(map), false),
        n == placed + if target - placed < all_cells(*old(map), cx, cy, radius as int, margin) {
            target - placed
        } else {
            all_cells(*old(map), cx, cy, radius as int, margin) as int
        },
        forall|x: u32, y: u32|
            x < old(map).width && y < old(map).height ==> #[trigger] final(map).tile(x, y)
                == clustered_tile(*old(map), cx, cy, radius as int, margin, code, target - placed, x, y),
        terrain_count(final(map).tiles@, code) == terrain_count(old(map).tiles@, code) + (n - placed),
        forall|c: u8|
            c != code && c != 0 ==> #[trigger] terrain_count(final(map).tiles@, c) == terrain_count(
                old(map).tiles@,
                c,
            ),
{
    let ghost m0 = *map;
    let ghost r = radius as int;
    let ghost budget = target - placed;
    let width = map.width;
    let height = map.height;
    let mut count = placed;
    let ri = radius as i32;
    let ci = cx as i32;
    let cj = cy as i32;
    let mut dy: i32 = -ri;
    while dy <= ri && count < target
        invariant
            map.width == width,
            map.height == height,
            width == m0.width,
            height == m0.height,
            width <= 0x7FFF_0000,
            height <= 0x7FFF_0000,
            ci == cx,
            cj == cy,
            cx < width,
            cy < height,
            ri == r,
            1 <= r <= 5,
            0 < code < 7,
            margin == spawn_margin(width, height),
            -r <= dy <= r + 1,
            placed <= count <= target,
            budget == target - placed,
            count - placed == if budget < rows_cells(m0, cx, cy, r, margin, dy as int) {
                budget
            } else {
                rows_cells(m0, cx, cy, r, margin, dy as int) as int
            },
            generation_sane(*map, false),
            terrain_count(map.tiles@, code) == terrain_count(m0.tiles@, code) + (count - placed),
            forall|c: u8|
                c != code && c != 0 ==> #[trigger] terrain_count(map.tiles@, c) == terrain_count(m0.tiles@, c),
            forall|x: u32, y: u32|
                x < width && y < height ==> #[trigger] map.tile(x, y) == clustered_tile(
                    m0,
                    cx,
                    cy,
                    r,
                    margin,
                    code,
                    count - placed,
                    x,
                    y,
                ),
        decreases r + 1 - dy,
    {
        let mut dx: i32 = -ri;
        while dx <= ri && count < target
            invariant
                map.width == width,
                map.height == height,
                width == m0.width,
                height == m0.height,
                width <= 0x7FFF_0000,
                height <= 0x7FFF_0000,
                ci == cx,
                cj == cy,
                cx < width,
                cy < height,
                ri == r,
                1 <= r <= 5,
                0 < code < 7,
                margin == spawn_margin(width, height),
                -r <= dy <= r,
                -r <= dx <= r + 1,
                placed <= count <= target,
                budget == target - placed,
                count - placed == if budget < cells_before(m0, cx, cy, r, margin, dy as int, dx as int) {
                    budget
                } else {
                    cells_before(m0, cx, cy, r, margin, dy as int, dx as int) as int
                },
                generation_sane(*map, false),
                terrain_count(map.tiles@, code) == terrain_count(m0.tiles@, code) + (count - placed),
                forall|c: u8|
                    c != code && c != 0 ==> #[trigger] terrain_count(map.tiles@, c) == terrain_count(m0.tiles@, c),
                forall|x: u32, y: u32|
                    x < width && y < height ==> #[trigger] map.tile(x, y) == clustered_tile(
                        m0,
                        cx,
                        cy,
                        r,
                        margin,
                        code,
                        count - placed,
                        x,
                        y,
                    ),
            decreases r + 1 - dx,
        {
            let ghost c = count - placed;
            let ghost cell = cluster_cell(m0, cx, cy, r, margin, dx as int, dy as int);
            assert(row_cells(m0, cx, cy, r, margin, dy as int, dx + 1) == row_cells(m0, cx, cy, r, margin, dy as int, dx as int) + if cell { 1nat } else { 0nat });
            let nx = ci + dx;
            let ny = cj + dy;
            if map.in_bounds(nx, ny) {
                let ux = nx as u32;
                let uy = ny as u32;
                let adx = if dx < 0 { -dx } else { dx };
                let ady = if dy < 0 { -dy } else { dy };
                assert(adx == iabs(dx as int) && ady == iabs(dy as int));
                assert(0 <= adx + ady <= 10);
                assert(ux == (cx + dx) as u32 && uy == (cy + dy) as u32);
                if !is_spawn_corner(ux, uy, width, height, margin) && adx + ady <= ri {
                    proof {
                        lemma_tile_in_range(width, height, ux, uy);
                    }
                    let tidx = map.idx(ux, uy);
                    let mut tile = map.tiles[tidx];
                    assert(tile == map.tile(ux, uy));
                    assert(ux - cx == dx && uy - cy == dy);
                    assert(c == cells_before(m0, cx, cy, r, margin, dy as int, dx as int));
                    assert(map.tile(ux, uy) == clustered_tile(m0, cx, cy, r, margin, code, c, ux, uy));
                    assert(tile == m0.tile(ux, uy));
                    assert(iabs(dx as int) + iabs(dy as int) <= r);
                    if tile.terrain == 0 {
                        assert(cell);
                        let ghost before = *map;
                        tile.terrain = code;
                        map.tiles.set(tidx, tile);
                        count += 1;
                        proof {
                            assert(before.tiles@[tidx as int].terrain == 0);
                            assert(map.tiles@ == before.tiles@.update(tidx as int, tile));
                            lemma_terrain_count_update(before.tiles@, tidx as int, tile, code);
                            assert forall|c: u8| c != code && c != 0 implies #[trigger] terrain_count(map.tiles@, c)
                                == terrain_count(m0.tiles@, c) by {
                                lemma_terrain_count_update(before.tiles@, tidx as int, tile, c);
                            }
                            assert forall|x: u32, y: u32|
                                x < width && y < height implies #[trigger] map.tile(x, y) == clustered_tile(
                                    m0,
                                    cx,
                                    cy,
                                    r,
                                    margin,
                                    code,
                                    count - placed,
                                    x,
                                    y,
                                ) by {
                                lemma_tile_in_range(width, height, x, y);
                                if x == ux && y == uy {
                                } else {
                                    if tile_index(width, x, y) == tile_index(width, ux, uy) {
                                        lemma_tile_index_injective(width, height, x, y, ux, uy);
                                    }
                                    assert(map.tile(x, y) == before.tile(x, y));
                                    let qdx = x - cx;
                                    let qdy = y - cy;
                                    if cluster_cell(m0, cx, cy, r, margin, qdx, qdy) {
                                        lemma_cell_in_square(m0, cx, cy, r, margin, qdx, qdy);
                                        if qdy < dy || (qdy == dy && qdx < dx) {
                                            lemma_cells_before_order(m0, cx, cy, r, margin, qdy, qdx, dy as int, dx as int);
                                        } else {
                                            lemma_cells_before_order(m0, cx, cy, r, margin, dy as int, dx as int, qdy, qdx);
                                        }
                                    }
                                }
                            }
                            assert forall|i: int| 0 <= i < map.tiles@.len() implies {
                                let t = #[trigger] map.tiles@[i];
                                &&& t.terrain < 7
                                &&& t.sprite_variant < 5
                                &&& t.flags == 0
                                &&& t.elevation == 0u8
                            } by {
                                if i != tidx {
                                    assert(map.tiles@[i] == before.tiles@[i]);
                                }
                            }
                            assert forall|x: u32, y: u32|
                                x < map.width && y < map.height && in_spawn_corner(
                                    x,
                                    y,
                                    map.width,
                                    map.height,
                                    spawn_margin(map.width, map.height),
                                ) implies (#[trigger] map.tile(x, y)).terrain == 0 by {
                                lemma_tile_in_range(width, height, x, y);
                                assert(before.tile(x, y).terrain == 0);
                                if tile_index(width, x, y) == tile_index(width, ux, uy) {
                                    lemma_tile_index_injective(width, height, x, y, ux, uy);
                                }
                            }
                        }
                    }
                }
            }
            dx += 1;
        }
        proof {
            if dx <= ri {
                lemma_row_cells_grow(m0, cx, cy, r, margin, dy as int, dx as int, r + 1);
            }
        }
        dy += 1;
    }
    proof {
        if dy <= ri {
            lemma_rows_cells_grow(m0, cx, cy, r, margin, dy as int, r + 1);
        }
        let c = count - placed;
        assert forall|x: u32, y: u32|
            x < width && y < height implies #[trigger] clustered_tile(m0, cx, cy, r, margin, code, c, x, y)
                == clustered_tile(m0, cx, cy, r, margin, code, budget, x, y) by {
            let qdx = x - cx;
            let qdy = y - cy;
            if cluster_cell(m0, cx, cy, r, margin, qdx, qdy) {
                lemma_cell_in_square(m0, cx, cy, r, margin, qdx, qdy);
                lemma_cells_before_order(m0, cx, cy, r, margin, qdy, qdx, r + 1, -r);
            }
        }
    }
    count
}

} // verus!

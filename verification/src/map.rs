use vstd::prelude::*;
use rand::rngs::SmallRng;
use rand::{Rng, SeedableRng};
use crate::cluster::{place_cluster, terrain_count, lemma_terrain_count_none, lemma_terrain_count_update};

verus! {

#[verifier::external_type_specification]
#[verifier::external_body]
pub struct ExSmallRng(SmallRng);

/// `SmallRng::seed_from_u64`. The generator's state is opaque: nothing is claimed.
#[verifier::external_body]
fn rng_seeded(seed: u64) -> SmallRng {
    SmallRng::seed_from_u64(seed)
}

/// `Rng::gen_range(0..n)` on `u8`: a value below `n` (the range must not be empty).
#[verifier::external_body]
fn rng_u8_below(rng: &mut SmallRng, n: u8) -> (r: u8)
    requires
        n > 0,
    ensures
        r < n,
{
    rng.gen_range(0..n)
}

/// `Rng::gen_range(0..n)` on `u32`: a value below `n` (the range must not be empty).
#[verifier::external_body]
fn rng_u32_below(rng: &mut SmallRng, n: u32) -> (r: u32)
    requires
        n > 0,
    ensures
        r < n,
{
    rng.gen_range(0..n)
}

/// `Rng::gen_range(lo..=hi)` on `u32`: a value in `[lo, hi]` (the range must not be empty).
#[verifier::external_body]
fn rng_u32_between(rng: &mut SmallRng, lo: u32, hi: u32) -> (r: u32)
    requires
        lo <= hi,
    ensures
        lo <= r <= hi,
{
    rng.gen_range(lo..=hi)
}

/// Terrain types for battle map tiles. The variant order gives the
/// `terrain` byte of a tile.
#[derive(Clone, Copy, Debug, PartialEq, Eq, Structural)]
pub enum TerrainType {
    Open,
    Impassable,
    Rough,
    Elevated,
    Hazard,
    Cover,
    Road,
}

/// The `terrain` byte of a terrain type.
pub open spec fn terrain_code(t: TerrainType) -> u8 {
    match t {
        TerrainType::Open => 0,
        TerrainType::Impassable => 1,
        TerrainType::Rough => 2,
        TerrainType::Elevated => 3,
        TerrainType::Hazard => 4,
        TerrainType::Cover => 5,
        TerrainType::Road => 6,
    }
}

/// Decoding of a `terrain` byte; unknown bytes read as Impassable.
pub open spec fn terrain_of(v: u8) -> TerrainType {
    match v {
        0 => TerrainType::Open,
        2 => TerrainType::Rough,
        3 => TerrainType::Elevated,
        4 => TerrainType::Hazard,
        5 => TerrainType::Cover,
        6 => TerrainType::Road,
        _ => TerrainType::Impassable,
    }
}

impl TerrainType {
    pub fn from_u8(v: u8) -> (t: Self)
        ensures
            t == terrain_of(v),
    {
        match v {
            0 => TerrainType::Open,
            1 => TerrainType::Impassable,
            2 => TerrainType::Rough,
            3 => TerrainType::Elevated,
            4 => TerrainType::Hazard,
            5 => TerrainType::Cover,
            6 => TerrainType::Road,
            _ => TerrainType::Impassable,
        }
    }

    /// The `terrain` byte of this terrain type.
    pub fn to_u8(self) -> (v: u8)
        ensures
            v == terrain_code(self),
    {
        match self {
            TerrainType::Open => 0,
            TerrainType::Impassable => 1,
            TerrainType::Rough => 2,
            TerrainType::Elevated => 3,
            TerrainType::Hazard => 4,
            TerrainType::Cover => 5,
            TerrainType::Road => 6,
        }
    }
}

/// Decoding the byte of a terrain type gives it back.
pub proof fn law_terrain_code_roundtrip(t: TerrainType)
    ensures
        terrain_of(terrain_code(t)) == t,
        terrain_code(t) < 7,
{
}

#[derive(Clone, Copy, Debug)]
pub struct Tile {
    pub terrain: u8,
    pub elevation: u8,
    pub sprite_variant: u8,
    pub flags: u8,
}

impl Tile {
    pub fn terrain_type(&self) -> (t: TerrainType)
        ensures
            t == terrain_of(self.terrain),
    {
        TerrainType::from_u8(self.terrain)
    }
}

/// Whether `a` lies within `margin` of `c`.
pub open spec fn near(a: u32, c: u32, margin: u32) -> bool {
    if a > c {
        a - c <= margin
    } else {
        c - a <= margin
    }
}

/// `a - 1`, or 0 for 0.
pub open spec fn last_of(a: u32) -> u32 {
    if a > 0 {
        (a - 1) as u32
    } else {
        0
    }
}

/// Whether (x, y) lies within `margin` tiles (on both axes) of a map corner.
pub open spec fn in_spawn_corner(x: u32, y: u32, width: u32, height: u32, margin: u32) -> bool {
    ||| near(x, 0, margin) && near(y, 0, margin)
    ||| near(x, last_of(width), margin) && near(y, last_of(height), margin)
    ||| near(x, last_of(width), margin) && near(y, 0, margin)
    ||| near(x, 0, margin) && near(y, last_of(height), margin)
}

/// Safety margin around corners: a quarter of the shorter side, at least 4.
pub open spec fn spawn_margin(width: u32, height: u32) -> u32 {
    let shorter = if width < height {
        width
    } else {
        height
    };
    if shorter / 4 > 4 {
        shorter / 4
    } else {
        4
    }
}

fn near_exec(a: u32, c: u32, margin: u32) -> (b: bool)
    ensures
        b == near(a, c, margin),
{
    let d = if a > c {
        a - c
    } else {
        c - a
    };
    d <= margin
}

/// Check if a tile position is within the spawn corner safety margin.
pub fn is_spawn_corner(x: u32, y: u32, width: u32, height: u32, margin: u32) -> (b: bool)
    ensures
        b == in_spawn_corner(x, y, width, height, margin),
{
    let last_x = width.saturating_sub(1);
    let last_y = height.saturating_sub(1);
    (near_exec(x, 0, margin) && near_exec(y, 0, margin)) || (near_exec(x, last_x, margin)
        && near_exec(y, last_y, margin)) || (near_exec(x, last_x, margin) && near_exec(
        y,
        0,
        margin,
    )) || (near_exec(x, 0, margin) && near_exec(y, last_y, margin))
}

/// Terrain clusters placed by map generation, in placement order, with the
/// range of their radius. The share of tiles each should cover is given
/// separately (see `generate_with_targets`): Rough 15%, Cover 8%, Road 5%,
/// Elevated 5%, Hazard 3%, Impassable 2%.
pub open spec fn cluster_kind(i: int) -> (TerrainType, u32, u32) {
    if i == 0 {
        (TerrainType::Rough, 2, 5)
    } else if i == 1 {
        (TerrainType::Cover, 1, 3)
    } else if i == 2 {
        (TerrainType::Road, 1, 2)
    } else if i == 3 {
        (TerrainType::Elevated, 2, 4)
    } else if i == 4 {
        (TerrainType::Hazard, 1, 3)
    } else {
        (TerrainType::Impassable, 1, 2)
    }
}

pub const CLUSTER_KINDS: usize = 6;

/// Terrain byte of cluster kind `i`.
pub open spec fn cluster_code(i: int) -> u8 {
    terrain_code(cluster_kind(i).0)
}

fn cluster_kind_exec(i: usize) -> (r: (TerrainType, u32, u32))
    requires
        i < CLUSTER_KINDS,
    ensures
        r == cluster_kind(i as int),
{
    if i == 0 {
        (TerrainType::Rough, 2, 5)
    } else if i == 1 {
        (TerrainType::Cover, 1, 3)
    } else if i == 2 {
        (TerrainType::Road, 1, 2)
    } else if i == 3 {
        (TerrainType::Elevated, 2, 4)
    } else if i == 4 {
        (TerrainType::Hazard, 1, 3)
    } else {
        (TerrainType::Impassable, 1, 2)
    }
}

pub struct BattleMap {
    pub width: u32,
    pub height: u32,
    pub tiles: Vec<Tile>,
}

/// Row-major index of a tile.
pub open spec fn tile_index(width: u32, x: u32, y: u32) -> int {
    y * width + x
}

impl BattleMap {
    /// One tile per cell, row-major.
    pub open spec fn wf(&self) -> bool {
        &&& self.width * self.height <= u32::MAX
        &&& self.tiles@.len() == self.width * self.height
    }

    /// The tile at (x, y).
    pub open spec fn tile(&self, x: u32, y: u32) -> Tile {
        self.tiles@[tile_index(self.width, x, y)]
    }

    pub fn new(width: u32, height: u32) -> (m: Self)
        requires
            width * height <= u32::MAX,
        ensures
            m.wf(),
            m.width == width,
            m.height == height,
            forall|i: int|
                0 <= i < m.tiles@.len() ==> #[trigger] m.tiles@[i] == (Tile {
                    terrain: 0,
                    elevation: 0,
                    sprite_variant: 0,
                    flags: 0,
                }),
    {
        let size = (width * height) as usize;
        let mut tiles: Vec<Tile> = Vec::with_capacity(size);
        let mut i: usize = 0;
        while i < size
            invariant
                i <= size,
                tiles@.len() == i,
                forall|k: int|
                    0 <= k < i ==> #[trigger] tiles@[k] == (Tile {
                        terrain: 0,
                        elevation: 0,
                        sprite_variant: 0,
                        flags: 0,
                    }),
            decreases size - i,
        {
            tiles.push(Tile { terrain: TerrainType::Open.to_u8(), elevation: 0, sprite_variant: 0, flags: 0 });
            i += 1;
        }
        BattleMap { width, height, tiles }
    }

    pub fn idx(&self, x: u32, y: u32) -> (i: usize)
        requires
            y * self.width + x <= u32::MAX,
        ensures
            i == tile_index(self.width, x, y),
    {
        (y * self.width + x) as usize
    }

    pub fn get(&self, x: u32, y: u32) -> (t: &Tile)
        requires
            self.wf(),
            tile_index(self.width, x, y) < self.tiles@.len(),
        ensures
            *t == self.tile(x, y),
    {
        proof {
            assert(self.tiles@.len() <= u32::MAX);
        }
        &self.tiles[self.idx(x, y)]
    }

    pub fn get_mut(&mut self, x: u32, y: u32) -> (t: &mut Tile)
        requires
            old(self).wf(),
            tile_index(old(self).width, x, y) < old(self).tiles@.len(),
        ensures
            *t == old(self).tile(x, y),
            final(self).width == old(self).width,
            final(self).height == old(self).height,
            final(self).tiles@ == old(self).tiles@.update(tile_index(old(self).width, x, y), *final(t)),
    {
        let idx = self.idx(x, y);
        &mut self.tiles[idx]
    }

    pub fn in_bounds(&self, x: i32, y: i32) -> (b: bool)
        ensures
            b == (0 <= x < self.width && 0 <= y < self.height),
    {
        x >= 0 && y >= 0 && (x as u32) < self.width && (y as u32) < self.height
    }

    /// Returns true if the tile is walkable (anything except Impassable).
    pub fn is_walkable(&self, x: u32, y: u32) -> (b: bool)
        requires
            self.wf(),
        ensures
            b == (x < self.width && y < self.height && terrain_of(self.tile(x, y).terrain)
                != TerrainType::Impassable),
    {
        if x >= self.width || y >= self.height {
            return false;
        }
        proof {
            lemma_tile_in_range(self.width, self.height, x, y);
        }
        self.get(x, y).terrain_type() != TerrainType::Impassable
    }
}

/// A cell inside the grid has a row-major index inside the tile array.
pub proof fn lemma_tile_in_range(width: u32, height: u32, x: u32, y: u32)
    requires
        x < width,
        y < height,
    ensures
        0 <= tile_index(width, x, y) < width * height,
{
    assert(y * width + x < width * height) by (nonlinear_arith)
        requires
            x < width,
            y < height,
    ;
}

/// Tiles of a map under generation: known terrain bytes, ground variants
/// below 5, no flags, and Open ground in every spawn corner. With
/// `elevated_marked`, exactly the Elevated tiles have elevation 1;
/// otherwise every elevation is still 0.
pub open spec fn generation_sane(m: BattleMap, elevated_marked: bool) -> bool {
    &&& m.wf()
    &&& forall|i: int|
        0 <= i < m.tiles@.len() ==> {
            let t = #[trigger] m.tiles@[i];
            &&& t.terrain < 7
            &&& t.sprite_variant < 5
            &&& t.flags == 0
            &&& t.elevation == (if elevated_marked && t.terrain == 3 {
                1u8
            } else {
                0u8
            })
        }
    &&& forall|x: u32, y: u32|
        x < m.width && y < m.height && in_spawn_corner(x, y, m.width, m.height, spawn_margin(m.width, m.height))
            ==> (#[trigger] m.tile(x, y)).terrain == 0
}

fn spawn_margin_exec(width: u32, height: u32) -> (m: u32)
    ensures
        m == spawn_margin(width, height),
{
    let shorter = if width < height {
        width
    } else {
        height
    };
    if shorter / 4 > 4 {
        shorter / 4
    } else {
        4
    }
}

impl BattleMap {
    /// Generate a battle map with terrain clusters. `targets[i]` is how many
    /// tiles the i-th cluster kind of `cluster_kind` should cover. Ground
    /// variants (0-4) are drawn for every tile first; then clusters of each
    /// kind are placed at random centres, as diamonds of random radius, over
    /// Open tiles only, until the kind's target is met or its attempts
    /// (`10 * target + 100`) run out. Spawn corners (within the spawn margin
    /// of each corner) are kept Open. Elevated tiles get elevation 1. Each
    /// cluster is placed by `place_cluster`, whose contract states which tiles
    /// it covers; no kind covers more tiles than its target.
    pub fn generate_with_targets(width: u32, height: u32, seed: u64, targets: &[usize]) -> (m: Self)
        requires
            width * height <= u32::MAX,
            width <= 0x7FFF_0000,
            height <= 0x7FFF_0000,
            targets@.len() == CLUSTER_KINDS,
            forall|i: int| 0 <= i < CLUSTER_KINDS ==> #[trigger] targets@[i] <= width * height,
            forall|i: int| 0 <= i < CLUSTER_KINDS ==> #[trigger] targets@[i] <= (usize::MAX - 100) / 10,
        ensures
            m.width == width,
            m.height == height,
            generation_sane(m, true),
            forall|k: int|
                0 <= k < CLUSTER_KINDS ==> #[trigger] terrain_count(m.tiles@, cluster_code(k)) <= targets@[k],
    {
        let mut map = BattleMap::new(width, height);
        let mut rng = rng_seeded(seed);
        let ghost margin_s = spawn_margin(width, height);
        assert forall|x: u32, y: u32|
            x < map.width && y < map.height && in_spawn_corner(x, y, map.width, map.height, margin_s)
            implies (#[trigger] map.tile(x, y)).terrain == 0 by {
            lemma_tile_in_range(width, height, x, y);
        }

        // Assign random sprite variants (0-4) to all tiles (5 ground textures)
        let n = map.tiles.len();
        let mut i: usize = 0;
        while i < n
            invariant
                n == map.tiles@.len(),
                i <= n,
                map.width == width,
                map.height == height,
                map.wf(),
                forall|k: int|
                    0 <= k < n ==> {
                        let t = #[trigger] map.tiles@[k];
                        &&& t.terrain == 0
                        &&& t.flags == 0
                        &&& t.elevation == 0
                        &&& (k < i ==> t.sprite_variant < 5)
                    },
            decreases n - i,
        {
            let mut t = map.tiles[i];
            t.sprite_variant = rng_u8_below(&mut rng, 5);
            map.tiles.set(i, t);
            i += 1;
        }
        assert forall|x: u32, y: u32|
            x < map.width && y < map.height && in_spawn_corner(x, y, map.width, map.height, margin_s)
            implies (#[trigger] map.tile(x, y)).terrain == 0 by {
            lemma_tile_in_range(width, height, x, y);
        }
        assert(generation_sane(map, false));
        assert forall|k: int| 0 <= k < CLUSTER_KINDS implies #[trigger] terrain_count(
            map.tiles@,
            cluster_code(k),
        ) == 0 by {
            lemma_terrain_count_none(map.tiles@, cluster_code(k));
        }

        let margin = spawn_margin_exec(width, height);
        let mut s: usize = 0;
        while s < CLUSTER_KINDS
            invariant
                map.width == width,
                map.height == height,
                margin == margin_s,
                margin_s == spawn_margin(width, height),
                width <= 0x7FFF_0000,
                height <= 0x7FFF_0000,
                targets@.len() == CLUSTER_KINDS,
                forall|i: int| 0 <= i < CLUSTER_KINDS ==> #[trigger] targets@[i] <= width * height,
                forall|i: int| 0 <= i < CLUSTER_KINDS ==> #[trigger] targets@[i] <= (usize::MAX - 100) / 10,
                generation_sane(map, false),
                s <= CLUSTER_KINDS,
                forall|k: int|
                    0 <= k < CLUSTER_KINDS ==> #[trigger] terrain_count(map.tiles@, cluster_code(k)) <= targets@[k]
                        && (k >= s ==> terrain_count(map.tiles@, cluster_code(k)) == 0),
            decreases CLUSTER_KINDS - s,
        {
            let (terrain, min_r, max_r) = cluster_kind_exec(s);
            let code = terrain.to_u8();
            let target_count = targets[s];
            let max_attempts = target_count * 10 + 100;
            let mut placed: usize = 0;
            let mut attempts: usize = 0;
            let ghost start = map;
            while placed < target_count && attempts < max_attempts
                invariant
                    map.width == width,
                    map.height == height,
                    margin == margin_s,
                    margin_s == spawn_margin(width, height),
                    width <= 0x7FFF_0000,
                    height <= 0x7FFF_0000,
                    s < CLUSTER_KINDS,
                    target_count == targets@[s as int],
                    target_count <= width * height,
                    code == cluster_code(s as int),
                    1 <= min_r <= max_r <= 5,
                    generation_sane(map, false),
                    placed <= target_count,
                    terrain_count(map.tiles@, code) == terrain_count(start.tiles@, code) + placed,
                    forall|c: u8|
                        c != code && c != 0 ==> #[trigger] terrain_count(map.tiles@, c) == terrain_count(
                            start.tiles@,
                            c,
                        ),
                decreases max_attempts - attempts,
            {
                attempts += 1;
                proof {
                    assert(width > 0 && height > 0) by (nonlinear_arith)
                        requires
                            0 < target_count <= width * height,
                    ;
                }
                // Random cluster center
                let cx = rng_u32_below(&mut rng, width);
                let cy = rng_u32_below(&mut rng, height);
                // Skip if in spawn corner margin
                if !is_spawn_corner(cx, cy, width, height, margin) {
                    let radius = rng_u32_between(&mut rng, min_r, max_r);
                    placed = place_cluster(&mut map, cx, cy, radius, code, margin, placed, target_count);
                }
            }
            proof {
                assert forall|k: int| 0 <= k < CLUSTER_KINDS implies #[trigger] terrain_count(
                    map.tiles@,
                    cluster_code(k),
                ) <= targets@[k] && (k > s ==> terrain_count(map.tiles@, cluster_code(k)) == 0) by {
                    if k != s {
                        assert(cluster_code(k) != code && cluster_code(k) != 0);
                    }
                }
            }
            s += 1;
        }

        // Set elevation for Elevated tiles
        let mut i: usize = 0;
        while i < n
            invariant
                n == map.tiles@.len(),
                i <= n,
                map.width == width,
                map.height == height,
                generation_sane(map, false) || i > 0,
                map.wf(),
                forall|k: int|
                    0 <= k < n ==> {
                        let t = #[trigger] map.tiles@[k];
                        &&& t.terrain < 7
                        &&& t.sprite_variant < 5
                        &&& t.flags == 0
                        &&& t.elevation == (if k < i && t.terrain == 3 {
                            1u8
                        } else {
                            0u8
                        })
                    },
                forall|x: u32, y: u32|
                    x < map.width && y < map.height && in_spawn_corner(x, y, map.width, map.height, margin_s)
                        ==> (#[trigger] map.tile(x, y)).terrain == 0,
                targets@.len() == CLUSTER_KINDS,
                forall|k: int|
                    0 <= k < CLUSTER_KINDS ==> #[trigger] terrain_count(map.tiles@, cluster_code(k)) <= targets@[k],
            decreases n - i,
        {
            let mut t = map.tiles[i];
            if t.terrain == TerrainType::Elevated.to_u8() {
                let ghost before = map;
                t.elevation = 1;
                map.tiles.set(i, t);
                assert forall|k: int| 0 <= k < CLUSTER_KINDS implies #[trigger] terrain_count(
                    map.tiles@,
                    cluster_code(k),
                ) <= targets@[k] by {
                    lemma_terrain_count_update(before.tiles@, i as int, t, cluster_code(k));
                }
                assert forall|x: u32, y: u32|
                    x < map.width && y < map.height && in_spawn_corner(x, y, map.width, map.height, margin_s)
                    implies (#[trigger] map.tile(x, y)).terrain == 0 by {
                    lemma_tile_in_range(width, height, x, y);
                    assert(before.tile(x, y).terrain == 0);
                }
            }
            i += 1;
        }
        map
    }
}

/// Two cells of the grid with the same row-major index are the same cell.
pub proof fn lemma_tile_index_injective(width: u32, height: u32, x1: u32, y1: u32, x2: u32, y2: u32)
    requires
        x1 < width,
        x2 < width,
        y1 < height,
        y2 < height,
        tile_index(width, x1, y1) == tile_index(width, x2, y2),
    ensures
        x1 == x2,
        y1 == y2,
{
    assert(x1 == x2 && y1 == y2) by (nonlinear_arith)
        requires
            x1 < width,
            x2 < width,
            y1 * width + x1 == y2 * width + x2,
    ;
}

/// Different cells of the grid have different row-major indices.
pub proof fn lemma_tile_index_injective_contra(width: u32, height: u32, x1: u32, y1: u32, x2: u32, y2: u32)
    requires
        x1 < width,
        x2 < width,
        y1 < height,
        y2 < height,
        !(x1 == x2 && y1 == y2),
    ensures
        tile_index(width, x1, y1) != tile_index(width, x2, y2),
{
    if tile_index(width, x1, y1) == tile_index(width, x2, y2) {
        lemma_tile_index_injective(width, height, x1, y1, x2, y2);
    }
}

} // verus!

use vstd::prelude::*;

verus! {

/// Fog of war visibility states per tile.
pub const FOG_UNEXPLORED: u8 = 0;

pub const FOG_EXPLORED: u8 = 1;

pub const FOG_VISIBLE: u8 = 2;

/// A cell's state once the previous tick's vision has faded: Visible
/// becomes Explored, other states stay.
pub open spec fn faded(state: u8) -> u8 {
    if state == FOG_VISIBLE {
        FOG_EXPLORED
    } else {
        state
    }
}

/// Per-player fog of war grid. Each byte is a tile's visibility state.
pub struct FogGrid {
    /// Flat array: grids[player_index][y * width + x]
    pub grids: Vec<Vec<u8>>,
    pub width: u32,
    pub height: u32,
    pub player_count: u32,
}

impl FogGrid {
    /// One row-major grid of `width * height` cells per player.
    pub open spec fn wf(&self) -> bool {
        &&& self.width * self.height <= u32::MAX
        &&& self.grids@.len() == self.player_count
        &&& forall|p: int|
            0 <= p < self.player_count ==> (#[trigger] self.grids@[p])@.len() == self.width
                * self.height
    }

    /// Visibility of (x, y) for `player`; Unexplored outside the grid.
    pub open spec fn cell(&self, player: u32, x: u32, y: u32) -> u8 {
        if player >= self.player_count || x >= self.width || y >= self.height {
            FOG_UNEXPLORED
        } else {
            self.grids@[player as int]@[y * self.width + x]
        }
    }

    pub fn new(width: u32, height: u32, player_count: u32) -> (f: Self)
        requires
            width * height <= u32::MAX,
        ensures
            f.wf(),
            f.width == width,
            f.height == height,
            f.player_count == player_count,
            forall|p: u32, x: u32, y: u32| #[trigger] f.cell(p, x, y) == FOG_UNEXPLORED,
    {
        let size = (width * height) as usize;
        let mut grids: Vec<Vec<u8>> = Vec::new();
        let mut p: u32 = 0;
        while p < player_count
            invariant
                p <= player_count,
                size == width * height,
                grids@.len() == p,
                forall|q: int|
                    0 <= q < p ==> (#[trigger] grids@[q])@.len() == size && forall|i: int|
                        0 <= i < size ==> grids@[q]@[i] == FOG_UNEXPLORED,
            decreases player_count - p,
        {
            let mut grid: Vec<u8> = Vec::with_capacity(size);
            let mut i: usize = 0;
            while i < size
                invariant
                    i <= size,
                    grid@.len() == i,
                    forall|k: int| 0 <= k < i ==> grid@[k] == FOG_UNEXPLORED,
                decreases size - i,
            {
                grid.push(FOG_UNEXPLORED);
                i += 1;
            }
            grids.push(grid);
            p += 1;
        }
        let f = FogGrid { grids, width, height, player_count };
        assert forall|p: u32, x: u32, y: u32| #[trigger] f.cell(p, x, y) == FOG_UNEXPLORED by {
            if p < player_count && x < width && y < height {
                crate::map::lemma_tile_in_range(width, height, x, y);
                let _ = f.grids@[p as int];
            }
        }
        f
    }

    /// Get visibility state for a tile for a specific player.
    pub fn get(&self, player: u32, x: u32, y: u32) -> (v: u8)
        requires
            self.wf(),
        ensures
            v == self.cell(player, x, y),
    {
        if player >= self.player_count || x >= self.width || y >= self.height {
            return FOG_UNEXPLORED;
        }
        proof {
            crate::map::lemma_tile_in_range(self.width, self.height, x, y);
            let _ = self.grids@[player as int];
        }
        self.grids[player as usize][(y * self.width + x) as usize]
    }

    /// Set visibility state for a tile for a specific player. Cells outside
    /// the grid are ignored.
    pub fn set(&mut self, player: u32, x: u32, y: u32, state: u8)
        requires
            old(self).wf(),
        ensures
            final(self).wf(),
            final(self).width == old(self).width,
            final(self).height == old(self).height,
            final(self).player_count == old(self).player_count,
            forall|p: u32, cx: u32, cy: u32|
                #[trigger] final(self).cell(p, cx, cy) == if p == player && cx == x && cy == y
                    && player < old(self).player_count && x < old(self).width && y < old(
                    self,
                ).height {
                    state
                } else {
                    old(self).cell(p, cx, cy)
                },
    {
        if player >= self.player_count || x >= self.width || y >= self.height {
            return;
        }
        proof {
            crate::map::lemma_tile_in_range(self.width, self.height, x, y);
        }
        let ghost g0 = self.grids@;
        let idx = (y * self.width + x) as usize;
        let mut row: Vec<u8> = Vec::new();
        std::mem::swap(&mut row, &mut self.grids[player as usize]);
        row.set(idx, state);
        std::mem::swap(&mut row, &mut self.grids[player as usize]);
        assert forall|p: u32, cx: u32, cy: u32|
            #[trigger] self.cell(p, cx, cy) == if p == player && cx == x && cy == y && player
                < old(self).player_count && x < old(self).width && y < old(self).height {
                state
            } else {
                old(self).cell(p, cx, cy)
            } by {
            if p < self.player_count && cx < self.width && cy < self.height {
                crate::map::lemma_tile_in_range(self.width, self.height, cx, cy);
                if p == player && !(cx == x && cy == y) {
                    crate::map::lemma_tile_index_injective_contra(self.width, self.height, cx, cy, x, y);
                }
            }
        }
    }

    /// Turns every Visible cell of every player into Explored, before vision
    /// is recomputed for the tick; other cells keep their state.
    pub fn fade_visible(&mut self)
        requires
            old(self).wf(),
        ensures
            final(self).wf(),
            final(self).width == old(self).width,
            final(self).height == old(self).height,
            final(self).player_count == old(self).player_count,
            forall|p: u32, x: u32, y: u32|
                #[trigger] final(self).cell(p, x, y) == faded(old(self).cell(p, x, y)),
    {
        let size = (self.width * self.height) as usize;
        let pc = self.player_count as usize;
        let ghost g0 = self.grids@;
        let mut p: usize = 0;
        while p < pc
            invariant
                pc == self.player_count,
                size == self.width * self.height,
                self.width == old(self).width,
                self.height == old(self).height,
                self.player_count == old(self).player_count,
                g0 == old(self).grids@,
                old(self).wf(),
                p <= pc,
                self.grids@.len() == pc,
                forall|q: int|
                    0 <= q < pc ==> (#[trigger] self.grids@[q])@.len() == size && forall|i: int|
                        0 <= i < size ==> self.grids@[q]@[i] == if q < p {
                            faded(g0[q]@[i])
                        } else {
                            g0[q]@[i]
                        },
            decreases pc - p,
        {
            let mut row: Vec<u8> = Vec::new();
            std::mem::swap(&mut row, &mut self.grids[p]);
            let ghost r0 = row@;
            let mut i: usize = 0;
            while i < row.len()
                invariant
                    i <= row@.len(),
                    row@.len() == r0.len(),
                    forall|k: int| 0 <= k < row@.len() ==> #[trigger] row@[k] == if k < i {
                        faded(r0[k])
                    } else {
                        r0[k]
                    },
                decreases row@.len() - i,
            {
                if row[i] == FOG_VISIBLE {
                    row.set(i, FOG_EXPLORED);
                }
                i += 1;
            }
            std::mem::swap(&mut row, &mut self.grids[p]);
            p += 1;
        }
        assert forall|p: u32, x: u32, y: u32|
            #[trigger] self.cell(p, x, y) == faded(old(self).cell(p, x, y)) by {
            if p < self.player_count && x < self.width && y < self.height {
                crate::map::lemma_tile_in_range(self.width, self.height, x, y);
                let _ = self.grids@[p as int];
            }
        }
    }

    /// Get the byte length of one player's fog grid.
    pub fn grid_len(&self) -> (n: u32)
        requires
            self.wf(),
        ensures
            n == self.width * self.height,
    {
        self.width * self.height
    }

    /// Copy of one player's grid; empty for an unknown player.
    pub fn player_snapshot(&self, player: u32) -> (v: Vec<u8>)
        ensures
            v@ == if player < self.player_count && player < self.grids@.len() {
                self.grids@[player as int]@
            } else {
                Seq::<u8>::empty()
            },
    {
        if player >= self.player_count || player as usize >= self.grids.len() {
            return Vec::new();
        }
        let g = &self.grids[player as usize];
        let n = g.len();
        let mut out: Vec<u8> = Vec::with_capacity(n);
        let mut i: usize = 0;
        while i < n
            invariant
                n == g@.len(),
                i <= n,
                out@ == g@.subrange(0, i as int),
            decreases n - i,
        {
            out.push(g[i]);
            i += 1;
            assert(out@ =~= g@.subrange(0, i as int));
        }
        assert(out@ =~= g@);
        out
    }
}

} // verus!

//! The path-reconstruction step of the grid search: walking the recorded
//! parents from the goal back to the start.

use vstd::prelude::*;
use crate::map::{BattleMap, TerrainType, terrain_of};

verus! {

/// Offsets of the eight neighbours in search order: N, NE, E, SE, S, SW, W, NW.
pub open spec fn step_offset(k: int) -> (int, int) {
    if k == 0 {
        (0, -1)
    } else if k == 1 {
        (1, -1)
    } else if k == 2 {
        (1, 0)
    } else if k == 3 {
        (1, 1)
    } else if k == 4 {
        (0, 1)
    } else if k == 5 {
        (-1, 1)
    } else if k == 6 {
        (-1, 0)
    } else {
        (-1, -1)
    }
}

/// The tile (x, y) is on the map and not Impassable.
pub open spec fn walkable(m: BattleMap, x: int, y: int) -> bool {
    0 <= x < m.width && 0 <= y < m.height && terrain_of(m.tile(x as u32, y as u32).terrain)
        != TerrainType::Impassable
}

/// A unit on (x, y) may step in direction `k`: the target tile is walkable,
/// and a diagonal step does not cut a corner (both tiles beside it are
/// walkable too).
pub open spec fn step_allowed(m: BattleMap, x: int, y: int, k: int) -> bool {
    let (dx, dy) = step_offset(k);
    &&& walkable(m, x + dx, y + dy)
    &&& (dx != 0 && dy != 0 ==> walkable(m, x, y + dy) && walkable(m, x + dx, y))
}

/// Sign of an integer: -1, 0 or 1.
pub open spec fn sign(a: int) -> int {
    if a < 0 {
        -1
    } else if a > 0 {
        1
    } else {
        0
    }
}

/// The neighbour direction one eighth of a turn clockwise from `d` (x grows
/// to the East, y to the South).
pub open spec fn clockwise(d: (int, int)) -> (int, int) {
    (sign(d.0 - d.1), sign(d.0 + d.1))
}

/// (dx, dy) leads to one of the eight neighbouring tiles.
pub open spec fn neighbour_offset(dx: int, dy: int) -> bool {
    -1 <= dx <= 1 && -1 <= dy <= 1 && (dx != 0 || dy != 0)
}

/// A step by (dx, dy) to one of the eight neighbours is allowed from (x, y):
/// the target is walkable, and a diagonal step does not cut a corner.
pub open spec fn move_allowed(m: BattleMap, x: int, y: int, dx: int, dy: int) -> bool {
    &&& neighbour_offset(dx, dy)
    &&& walkable(m, x + dx, y + dy)
    &&& (dx != 0 && dy != 0 ==> walkable(m, x, y + dy) && walkable(m, x + dx, y))
}

/// The search tries the eight neighbours going once round the compass
/// clockwise from North: North first, each next direction an eighth of a
/// turn on, back to North after the eighth. So every neighbour is tried,
/// exactly once.
pub proof fn law_steps_go_round_the_compass()
    ensures
        step_offset(0) == (0int, -1int),
        forall|k: int| 0 <= k < 7 ==> #[trigger] step_offset(k + 1) == clockwise(step_offset(k)),
        clockwise(step_offset(7)) == step_offset(0),
        forall|i: int, j: int| 0 <= i < j < 8 ==> #[trigger] step_offset(i) != #[trigger] step_offset(j),
        forall|dx: int, dy: int|
            #[trigger] neighbour_offset(dx, dy) ==> exists|k: int|
                0 <= k < 8 && #[trigger] step_offset(k) == (dx, dy),
{
    assert forall|dx: int, dy: int| #[trigger] neighbour_offset(dx, dy) implies exists|k: int|
            0 <= k < 8 && #[trigger] step_offset(k) == (dx, dy) by {
        if dx == 0 && dy == -1 {
            assert(step_offset(0) == (dx, dy));
        } else if dx == 1 && dy == -1 {
            assert(step_offset(1) == (dx, dy));
        } else if dx == 1 && dy == 0 {
            assert(step_offset(2) == (dx, dy));
        } else if dx == 1 && dy == 1 {
            assert(step_offset(3) == (dx, dy));
        } else if dx == 0 && dy == 1 {
            assert(step_offset(4) == (dx, dy));
        } else if dx == -1 && dy == 1 {
            assert(step_offset(5) == (dx, dy));
        } else if dx == -1 && dy == 0 {
            assert(step_offset(6) == (dx, dy));
        } else {
            assert(step_offset(7) == (dx, dy));
        }
    }
}

/// The steps a unit on (x, y) may take, in search order: each as the target
/// tile and the direction's number.
pub fn open_steps(map: &BattleMap, x: u32, y: u32) -> (steps: Vec<(u32, u32, usize)>)
    requires
        map.wf(),
        x < map.width,
        y < map.height,
        map.width <= 0x7FFF_0000,
        map.height <= 0x7FFF_0000,
    ensures
        forall|i: int| 0 <= i < steps@.len() ==> {
            let (nx, ny, k) = #[trigger] steps@[i];
            &&& k < 8
            &&& step_allowed(*map, x as int, y as int, k as int)
            &&& nx == x + step_offset(k as int).0
            &&& ny == y + step_offset(k as int).1
        },
        forall|i: int, j: int| 0 <= i < j < steps@.len() ==> (#[trigger] steps@[i]).2 < (#[trigger] steps@[j]).2,
        forall|k: int|
            0 <= k < 8 && step_allowed(*map, x as int, y as int, k) ==> exists|i: int|
                0 <= i < steps@.len() && (#[trigger] steps@[i]).2 == k,
        forall|i: int|
            0 <= i < steps@.len() ==> #[trigger] move_allowed(
                *map,
                x as int,
                y as int,
                steps@[i].0 - x,
                steps@[i].1 - y,
            ),
        forall|dx: int, dy: int|
            #[trigger] move_allowed(*map, x as int, y as int, dx, dy) ==> exists|i: int|
                0 <= i < steps@.len() && (#[trigger] steps@[i]).0 == x + dx && steps@[i].1 == y + dy,
{
    let mut steps: Vec<(u32, u32, usize)> = Vec::new();
    let xi = x as i32;
    let yi = y as i32;
    let mut k: usize = 0;
    while k < 8
        invariant
            map.wf(),
            x < map.width,
            y < map.height,
            map.width <= 0x7FFF_0000,
            map.height <= 0x7FFF_0000,
            xi == x,
            yi == y,
            k <= 8,
            forall|i: int| 0 <= i < steps@.len() ==> {
                let (nx, ny, kk) = #[trigger] steps@[i];
                &&& kk < k
                &&& step_allowed(*map, x as int, y as int, kk as int)
                &&& nx == x + step_offset(kk as int).0
                &&& ny == y + step_offset(kk as int).1
            },
            forall|i: int, j: int| 0 <= i < j < steps@.len() ==> (#[trigger] steps@[i]).2 < (#[trigger] steps@[j]).2,
            forall|kk: int|
                0 <= kk < k && step_allowed(*map, x as int, y as int, kk) ==> exists|i: int|
                    0 <= i < steps@.len() && (#[trigger] steps@[i]).2 == kk,
        decreases 8 - k,
    {
        let (dx, dy): (i32, i32) = if k == 0 {
            (0, -1)
        } else if k == 1 {
            (1, -1)
        } else if k == 2 {
            (1, 0)
        } else if k == 3 {
            (1, 1)
        } else if k == 4 {
            (0, 1)
        } else if k == 5 {
            (-1, 1)
        } else if k == 6 {
            (-1, 0)
        } else {
            (-1, -1)
        };
        let nx = xi + dx;
        let ny = yi + dy;
        let mut ok = walkable_at(map, nx, ny);
        if ok && dx != 0 && dy != 0 {
            ok = walkable_at(map, xi, ny) && walkable_at(map, nx, yi);
        }
        if ok {
            let ghost before = steps@;
            steps.push((nx as u32, ny as u32, k));
            assert forall|kk: int|
                0 <= kk < k + 1 && step_allowed(*map, x as int, y as int, kk) implies exists|i: int|
                    0 <= i < steps@.len() && (#[trigger] steps@[i]).2 == kk by {
                if kk < k {
                    let i0 = choose|i: int| 0 <= i < before.len() && (#[trigger] before[i]).2 == kk;
                    assert(steps@[i0] == before[i0]);
                } else {
                    assert(steps@[before.len() as int].2 == kk);
                }
            }
        }
        k += 1;
    }
    proof {
        law_steps_go_round_the_compass();
        assert forall|i: int| 0 <= i < steps@.len() implies #[trigger] move_allowed(
            *map,
            x as int,
            y as int,
            steps@[i].0 - x,
            steps@[i].1 - y,
        ) by {
            let kk = steps@[i].2 as int;
            assert(0 <= kk < 8);
            assert(step_offset(kk) != (0int, 0int));
        }
        assert forall|dx: int, dy: int| #[trigger] move_allowed(*map, x as int, y as int, dx, dy) implies exists|i: int|
            0 <= i < steps@.len() && (#[trigger] steps@[i]).0 == x + dx && steps@[i].1 == y + dy by {
            let kk = choose|kk: int| 0 <= kk < 8 && #[trigger] step_offset(kk) == (dx, dy);
            assert(step_allowed(*map, x as int, y as int, kk));
            let i = choose|i: int| 0 <= i < steps@.len() && (#[trigger] steps@[i]).2 == kk;
            assert(steps@[i].0 == x + dx);
        }
    }
    steps
}

/// Whether the tile (x, y) is on the map and not Impassable.
fn walkable_at(map: &BattleMap, x: i32, y: i32) -> (b: bool)
    requires
        map.wf(),
    ensures
        b == walkable(*map, x as int, y as int),
{
    if map.in_bounds(x, y) {
        map.is_walkable(x as u32, y as u32)
    } else {
        false
    }
}

/// Tile of a row-major cell index on a grid `w` tiles wide.
pub open spec fn cell_tile(w: u32, idx: u32) -> (u32, u32) {
    ((idx % w) as u32, (idx / w) as u32)
}

/// Following recorded parents from `cur` reaches `start` within `n` steps,
/// every cell on the way lying inside `came_from`.
pub open spec fn reaches_start(came_from: Seq<u32>, cur: u32, start: u32, n: nat) -> bool
    decreases n,
{
    if cur == start {
        true
    } else if n == 0 {
        false
    } else {
        cur < came_from.len() && reaches_start(came_from, came_from[cur as int], start, (n - 1) as nat)
    }
}

/// Tiles of the successive parents of `cur`, nearest first, up to and
/// including `start`.
pub open spec fn parent_trail(came_from: Seq<u32>, w: u32, cur: u32, start: u32, n: nat) -> Seq<(u32, u32)>
    decreases n,
{
    if cur == start || n == 0 {
        Seq::empty()
    } else {
        let p = came_from[cur as int];
        seq![cell_tile(w, p)] + parent_trail(came_from, w, p, start, (n - 1) as nat)
    }
}

/// Number of steps within which the parents of the goal lead to the start.
pub open spec fn trail_bound(came_from: Seq<u32>, goal_idx: u32, start_idx: u32) -> nat {
    choose|n: nat| #[trigger] reaches_start(came_from, goal_idx, start_idx, n)
}

/// Rebuilds the path found by the search: the goal, then the tiles of its
/// successive parents back to the start, all in reverse (start first, goal
/// last).
pub fn reconstruct_path(came_from: &[u32], w: u32, start: (u32, u32), goal: (u32, u32)) -> (path: Vec<(u32, u32)>)
    requires
        w > 0,
        goal.1 * w + goal.0 <= u32::MAX,
        start.1 * w + start.0 <= u32::MAX,
        exists|n: nat| #[trigger] reaches_start(came_from@, (goal.1 * w + goal.0) as u32, (start.1 * w + start.0) as u32, n),
    ensures
        path@ == (seq![goal] + parent_trail(
            came_from@,
            w,
            (goal.1 * w + goal.0) as u32,
            (start.1 * w + start.0) as u32,
            trail_bound(came_from@, (goal.1 * w + goal.0) as u32, (start.1 * w + start.0) as u32),
        )).reverse(),
{
    let ghost cf = came_from@;
    let mut current: u32 = goal.1 * w + goal.0;
    let start_idx: u32 = start.1 * w + start.0;
    let ghost n0 = trail_bound(cf, current, start_idx);
    let ghost full = seq![goal] + parent_trail(cf, w, current, start_idx, n0);
    let ghost mut left: nat = n0;
    let mut rev: Vec<(u32, u32)> = Vec::new();
    rev.push(goal);
    proof {
        assert(rev@ + parent_trail(cf, w, current, start_idx, left) =~= full);
    }
    while current != start_idx
        invariant
            cf == came_from@,
            w > 0,
            reaches_start(cf, current, start_idx, left),
            rev@ + parent_trail(cf, w, current, start_idx, left) == full,
        decreases left,
    {
        let parent = came_from[current as usize];
        let ghost before = rev@;
        rev.push((parent % w, parent / w));
        proof {
            let rest = parent_trail(cf, w, parent, start_idx, (left - 1) as nat);
            assert(parent_trail(cf, w, current, start_idx, left) == seq![cell_tile(w, parent)] + rest);
            assert(rev@ + rest =~= before + (seq![cell_tile(w, parent)] + rest));
            left = (left - 1) as nat;
        }
        current = parent;
    }
    assert(rev@ =~= full);
    let n = rev.len();
    let mut path: Vec<(u32, u32)> = Vec::with_capacity(n);
    let mut i: usize = 0;
    while i < n
        invariant
            n == rev@.len(),
            rev@ == full,
            i <= n,
            path@.len() == i,
            forall|k: int| 0 <= k < i ==> #[trigger] path@[k] == full[n - 1 - k],
        decreases n - i,
    {
        path.push(rev[n - 1 - i]);
        i += 1;
    }
    assert(path@ =~= full.reverse());
    path
}

/// The trail of parents of a cell other than the start ends at the start.
pub proof fn lemma_trail_ends_at_start(came_from: Seq<u32>, w: u32, cur: u32, start: u32, n: nat)
    requires
        reaches_start(came_from, cur, start, n),
        cur != start,
    ensures
        parent_trail(came_from, w, cur, start, n).len() > 0,
        parent_trail(came_from, w, cur, start, n).last() == cell_tile(w, start),
    decreases n,
{
    let p = came_from[cur as int];
    let rest = parent_trail(came_from, w, p, start, (n - 1) as nat);
    let t = parent_trail(came_from, w, cur, start, n);
    assert(t == seq![cell_tile(w, p)] + rest);
    if p != start {
        lemma_trail_ends_at_start(came_from, w, p, start, (n - 1) as nat);
        assert(t.last() == rest.last());
    } else {
        assert(rest.len() == 0);
        assert(t.last() == cell_tile(w, p));
    }
}

/// A rebuilt path starts on the start tile and ends on the goal tile; when
/// start and goal are the same cell it is that single tile.
pub proof fn law_path_runs_from_start_to_goal(came_from: Seq<u32>, w: u32, start: (u32, u32), goal: (u32, u32))
    requires
        w > 0,
        start.0 < w,
        goal.1 * w + goal.0 <= u32::MAX,
        start.1 * w + start.0 <= u32::MAX,
        exists|n: nat| #[trigger] reaches_start(came_from, (goal.1 * w + goal.0) as u32, (start.1 * w + start.0) as u32, n),
    ensures
        ({
            let g = (goal.1 * w + goal.0) as u32;
            let st = (start.1 * w + start.0) as u32;
            let path = (seq![goal] + parent_trail(came_from, w, g, st, trail_bound(came_from, g, st))).reverse();
            &&& path.len() > 0
            &&& path.last() == goal
            &&& path[0] == if g == st { goal } else { start }
        }),
{
    let g = (goal.1 * w + goal.0) as u32;
    let st = (start.1 * w + start.0) as u32;
    let n = trail_bound(came_from, g, st);
    let full = seq![goal] + parent_trail(came_from, w, g, st, n);
    assert(reaches_start(came_from, g, st, n));
    if g != st {
        lemma_trail_ends_at_start(came_from, w, g, st, n);
        assert(full.last() == cell_tile(w, st));
        assert(cell_tile(w, st) == start) by (nonlinear_arith)
            requires
                w > 0,
                start.0 < w,
                st == start.1 * w + start.0,
        ;
    }
    assert(full.reverse().last() == full[0]);
    assert(full.reverse()[0] == full[full.len() - 1]);
}

} // verus!

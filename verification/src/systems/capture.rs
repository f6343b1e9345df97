use vstd::prelude::*;

verus! {

/// Owner byte of a capture point that nobody holds.
pub const NEUTRAL_OWNER: u8 = 255;

/// Number of owned points per player among `owners`, for player `p`.
pub open spec fn owned_by(owners: Seq<u8>, p: u8) -> nat
    decreases owners.len(),
{
    if owners.len() == 0 {
        0
    } else {
        owned_by(owners.drop_last(), p) + if owners.last() == p {
            1nat
        } else {
            0nat
        }
    }
}

/// Resource: per-player capture point count for win condition checking.
pub struct CapturePointCounts {
    /// Total number of capture points on the map.
    pub total: u8,
    /// Number of capture points owned per player (indexed by player_id).
    pub per_player: [u8; 8],
}

impl CapturePointCounts {
    pub fn new() -> (c: Self)
        ensures
            c.total == 0,
            forall|p: int| 0 <= p < 8 ==> c.per_player@[p] == 0,
    {
        CapturePointCounts { total: 0, per_player: [0;8] }
    }

    /// Recount from the owner byte of every capture point on the map (the
    /// counting part of updating from the world's capture point components).
    /// Owners 0-7 are counted per player; any other owner (255 = neutral)
    /// only counts towards the total.
    pub fn update_from_owners(&mut self, owners: &[u8])
        requires
            owners@.len() <= 255,
        ensures
            final(self).total == owners@.len(),
            forall|p: int| 0 <= p < 8 ==> final(self).per_player@[p] == owned_by(owners@, p as u8),
    {
        self.total = 0;
        self.per_player = [0;8];
        let n = owners.len();
        let mut i: usize = 0;
        while i < n
            invariant
                n == owners@.len(),
                n <= 255,
                i <= n,
                self.total == i,
                forall|p: int|
                    0 <= p < 8 ==> self.per_player@[p] == owned_by(owners@.subrange(0, i as int), p as u8),
                forall|p: int| 0 <= p < 8 ==> self.per_player@[p] <= i,
            decreases n - i,
        {
            let owner = owners[i];
            proof {
                let s = owners@.subrange(0, i as int + 1);
                assert(s.drop_last() =~= owners@.subrange(0, i as int));
                assert(s.last() == owner);
            }
            self.total += 1;
            if owner != NEUTRAL_OWNER && (owner as usize) < 8 {
                let o = owner as usize;
                self.per_player[o] = self.per_player[o] + 1;
            }
            i += 1;
        }
        assert(owners@.subrange(0, n as int) =~= owners@);
    }
}

/// Number of capture points placed for a requested count: an odd number, 3
/// or 5 (an even request is rounded up first).
pub open spec fn placed_count(requested: u8) -> u8 {
    let odd = if requested % 2 == 0 {
        (requested + 1) as u8
    } else {
        requested
    };
    if odd < 3 {
        3
    } else if odd > 5 {
        5
    } else {
        odd
    }
}

/// How many capture points `spawn_capture_points` places for `requested`.
pub fn capture_point_count(requested: u8) -> (n: u8)
    ensures
        n == placed_count(requested),
        n == 3 || n == 5,
{
    let count = if requested % 2 == 0 { requested + 1 } else { requested };
    if count < 3 {
        3
    } else if count > 5 {
        5
    } else {
        count
    }
}

/// Who is present at a capture point.
#[derive(Clone, Copy, Debug, PartialEq, Eq, Structural)]
pub enum Presence {
    /// No player has units in range.
    Nobody,
    /// Units of several players are in range: progress is paused.
    Contested,
    /// Only `player` has units in range, `count` of them.
    Single { player: u8, count: u32 },
}

/// Presence at a point from the number of units of each player in range.
pub open spec fn presence_of(counts: [u32; 8]) -> Presence {
    if forall|q: int| 0 <= q < 8 ==> #[trigger] counts@[q] == 0 {
        Presence::Nobody
    } else if exists|a: int, b: int| 0 <= a < b < 8 && #[trigger] counts@[a] > 0 && #[trigger] counts@[b] > 0 {
        Presence::Contested
    } else {
        let p = choose|q: int| 0 <= q < 8 && #[trigger] counts@[q] > 0;
        Presence::Single { player: p as u8, count: counts@[p] }
    }
}

/// Units of each player (owners 0-7) among the owners of the units in range
/// of a capture point.
pub fn tally_presence(owners_in_range: &[u8]) -> (counts: [u32; 8])
    requires
        owners_in_range@.len() <= u32::MAX,
    ensures
        forall|q: int| 0 <= q < 8 ==> counts@[q] == owned_by(owners_in_range@, q as u8),
{
    let mut counts: [u32; 8] = [0; 8];
    let n = owners_in_range.len();
    let mut i: usize = 0;
    while i < n
        invariant
            n == owners_in_range@.len(),
            n <= u32::MAX,
            i <= n,
            forall|q: int|
                0 <= q < 8 ==> counts@[q] == owned_by(owners_in_range@.subrange(0, i as int), q as u8),
            forall|q: int| 0 <= q < 8 ==> counts@[q] <= i,
        decreases n - i,
    {
        let owner = owners_in_range[i];
        proof {
            let t = owners_in_range@.subrange(0, i as int + 1);
            assert(t.drop_last() =~= owners_in_range@.subrange(0, i as int));
            assert(t.last() == owner);
        }
        if (owner as usize) < 8 {
            let o = owner as usize;
            counts[o] = counts[o] + 1;
        }
        i += 1;
    }
    assert(owners_in_range@.subrange(0, n as int) =~= owners_in_range@);
    counts
}

/// Classifies the presence at a capture point: nobody, contested, or the
/// single player present and how many of its units are in range.
pub fn presence(counts: &[u32; 8]) -> (p: Presence)
    ensures
        p == presence_of(*counts),
{
    let mut found: Option<u8> = None;
    let mut pid: usize = 0;
    while pid < 8
        invariant
            pid <= 8,
            match found {
                Some(f) => f < pid && counts@[f as int] > 0 && forall|q: int|
                    0 <= q < pid && q != f ==> #[trigger] counts@[q] == 0,
                None => forall|q: int| 0 <= q < pid ==> #[trigger] counts@[q] == 0,
            },
        decreases 8 - pid,
    {
        if counts[pid] > 0 {
            match found {
                Some(f) => {
                    assert(counts@[f as int] > 0 && counts@[pid as int] > 0);
                    return Presence::Contested;
                },
                None => {
                    found = Some(pid as u8);
                },
            }
        }
        pid += 1;
    }
    match found {
        Some(f) => {
            proof {
                assert(counts@[f as int] > 0);
                assert(!(exists|a: int, b: int| 0 <= a < b < 8 && #[trigger] counts@[a] > 0 && #[trigger] counts@[b] > 0));
                let c = choose|q: int| 0 <= q < 8 && #[trigger] counts@[q] > 0;
                assert(c == f as int);
            }
            Presence::Single { player: f, count: counts[f as usize] }
        },
        None => Presence::Nobody,
    }
}

} // verus!

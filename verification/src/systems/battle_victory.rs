use vstd::prelude::*;
use crate::systems::capture::{CapturePointCounts, owned_by};
use crate::types::SpriteId;

verus! {

/// Battle status progression.
#[derive(Clone, Copy, Debug, PartialEq, Eq, Structural)]
pub enum BattleStatus {
    /// Pre-battle deployment phase.
    Deployment,
    /// Active battle in progress.
    Active,
    /// Battle has ended with a winner.
    Finished,
}

/// Reason for battle victory.
#[derive(Clone, Copy, Debug, PartialEq, Eq, Structural)]
pub enum VictoryReason {
    /// Player captured all capture points on the map.
    AllCapturePoints,
    /// Player held majority of capture points for 60 seconds.
    MajorityHold,
    /// All enemy units and buildings eliminated.
    TotalElimination,
}

/// Minimum ticks before win conditions are checked (prevent immediate wins).
pub const MIN_TICKS_BEFORE_WIN: u32 = 200;

/// Number of player slots in the per-player tables.
pub const MAX_PLAYERS: usize = 8;

impl VictoryReason {
    /// Numeric code of the reason, as sent in the battle-end event.
    pub fn code(self) -> (c: u8)
        ensures
            c == reason_code(self),
    {
        match self {
            VictoryReason::AllCapturePoints => 0,
            VictoryReason::MajorityHold => 1,
            VictoryReason::TotalElimination => 2,
        }
    }
}

pub open spec fn reason_code(r: VictoryReason) -> u8 {
    match r {
        VictoryReason::AllCapturePoints => 0,
        VictoryReason::MajorityHold => 1,
        VictoryReason::TotalElimination => 2,
    }
}

/// Whether player `q` owns every capture point, of which there is at least one.
pub open spec fn owns_all_points(counts: &CapturePointCounts, q: int) -> bool {
    counts.total > 0 && counts.per_player@[q] == counts.total
}

/// Win condition 1: the first player below `player_count` (and below 8) who
/// owns every capture point.
pub fn all_points_winner(counts: &CapturePointCounts, player_count: u8) -> (w: Option<u8>)
    ensures
        w matches Some(pid) ==> {
            &&& pid < player_count && pid < 8
            &&& owns_all_points(counts, pid as int)
            &&& forall|q: int| 0 <= q < pid ==> !#[trigger] owns_all_points(counts, q)
        },
        w is None ==> forall|q: int| 0 <= q < player_count && q < 8 ==> !#[trigger] owns_all_points(counts, q),
{
    if counts.total == 0 {
        return None;
    }
    let mut pid: u8 = 0;
    while pid < player_count && (pid as usize) < MAX_PLAYERS
        invariant
            pid <= player_count,
            pid <= 8,
            counts.total > 0,
            forall|q: int| 0 <= q < pid ==> !#[trigger] owns_all_points(counts, q),
        decreases 8 - pid,
    {
        if counts.per_player[pid as usize] == counts.total {
            return Some(pid);
        }
        pid += 1;
    }
    None
}

/// Strict majority of `total` capture points.
pub open spec fn majority_of(total: u8) -> int {
    total / 2 + 1
}

/// Win condition 2 (counting part): `pid` holds a strict majority of the
/// capture points, of which there is at least one. How long it has held it
/// is timed by the caller.
pub fn holds_majority(counts: &CapturePointCounts, pid: u8) -> (b: bool)
    requires
        pid < 8,
    ensures
        b == (counts.total > 0 && counts.per_player@[pid as int] >= majority_of(counts.total)),
{
    counts.total > 0 && counts.per_player[pid as usize] >= counts.total / 2 + 1
}

/// Whether player `q` still has a live combat unit, a live building or a
/// capture point.
pub open spec fn has_assets(alive_units: [u32; 8], alive_buildings: [u32; 8], counts: &CapturePointCounts, q: int) -> bool {
    alive_units@[q] > 0 || alive_buildings@[q] > 0 || counts.per_player@[q] > 0
}

/// Win condition 3: the only player below `player_count` who still has
/// assets; none when there are several or none.
pub fn elimination_winner(
    alive_units: &[u32; 8],
    alive_buildings: &[u32; 8],
    counts: &CapturePointCounts,
    player_count: u8,
) -> (w: Option<u8>)
    ensures
        w matches Some(pid) ==> {
            &&& pid < player_count && pid < 8
            &&& has_assets(*alive_units, *alive_buildings, counts, pid as int)
            &&& forall|q: int|
                0 <= q < player_count && q < 8 && q != pid ==> !has_assets(*alive_units, *alive_buildings, counts, q)
        },
        w is None ==> !(exists|p: int|
            0 <= p < player_count && p < 8 && has_assets(*alive_units, *alive_buildings, counts, p) && forall|q: int|
                0 <= q < player_count && q < 8 && q != p ==> !has_assets(*alive_units, *alive_buildings, counts, q)),
{
    let mut found: Option<u8> = None;
    let mut several = false;
    let ghost mut wa: int = 0;
    let ghost mut wb: int = 0;
    let mut pid: u8 = 0;
    while pid < player_count && (pid as usize) < MAX_PLAYERS
        invariant
            pid <= player_count,
            pid <= 8,
            !several ==> match found {
                Some(f) => f < pid && has_assets(*alive_units, *alive_buildings, counts, f as int) && forall|q: int|
                    0 <= q < pid && q != f ==> !has_assets(*alive_units, *alive_buildings, counts, q),
                None => forall|q: int| 0 <= q < pid ==> !has_assets(*alive_units, *alive_buildings, counts, q),
            },
            several ==> 0 <= wa < wb < pid && has_assets(*alive_units, *alive_buildings, counts, wa)
                && has_assets(*alive_units, *alive_buildings, counts, wb),
        decreases 8 - pid,
    {
        let p = pid as usize;
        if alive_units[p] > 0 || alive_buildings[p] > 0 || counts.per_player[p] > 0 {
            if !several {
                match found {
                    Some(f) => {
                        proof {
                            wa = f as int;
                            wb = pid as int;
                        }
                        several = true;
                    },
                    None => {
                        found = Some(pid);
                    },
                }
            }
        }
        pid += 1;
    }
    if several {
        proof {
            assert forall|p: int|
                0 <= p < player_count && p < 8 && has_assets(*alive_units, *alive_buildings, counts, p) implies !(
                forall|q: int|
                    0 <= q < player_count && q < 8 && q != p ==> !has_assets(
                        *alive_units,
                        *alive_buildings,
                        counts,
                        q,
                    )) by {
                if p == wa {
                    assert(wb != p);
                } else {
                    assert(wa != p);
                }
            }
        }
        None
    } else {
        found
    }
}

/// Counts of live combat units (Thrall, Sentinel, HoverTank) and live
/// buildings (Command Post, Forge) of `owner` among `(kind, owner, alive)`
/// entries.
pub open spec fn asset_count(units: Seq<(SpriteId, u8, bool)>, owner: int, buildings: bool) -> nat
    decreases units.len(),
{
    if units.len() == 0 {
        0
    } else {
        let (kind, o, alive) = units.last();
        let counted = alive && o as int == owner && if buildings {
            kind is CommandPost || kind is Forge
        } else {
            kind is Thrall || kind is Sentinel || kind is HoverTank
        };
        asset_count(units.drop_last(), owner, buildings) + if counted {
            1nat
        } else {
            0nat
        }
    }
}

/// Tallies live combat units and buildings per player (owners 0-7) from the
/// kind, owner and liveness of every unit; neutral entities and capture
/// points are not counted.
pub fn tally_assets(units: &[(SpriteId, u8, bool)]) -> (r: ([u32; 8], [u32; 8]))
    requires
        units@.len() <= u32::MAX,
    ensures
        forall|q: int| 0 <= q < 8 ==> r.0@[q] == asset_count(units@, q, false),
        forall|q: int| 0 <= q < 8 ==> r.1@[q] == asset_count(units@, q, true),
{
    let mut alive_units: [u32; 8] = [0; 8];
    let mut alive_buildings: [u32; 8] = [0; 8];
    let mut i: usize = 0;
    while i < units.len()
        invariant
            i <= units@.len(),
            units@.len() <= u32::MAX,
            forall|q: int| 0 <= q < 8 ==> alive_units@[q] == asset_count(units@.subrange(0, i as int), q, false),
            forall|q: int| 0 <= q < 8 ==> alive_buildings@[q] == asset_count(units@.subrange(0, i as int), q, true),
            forall|q: int| 0 <= q < 8 ==> alive_units@[q] <= i && alive_buildings@[q] <= i,
        decreases units@.len() - i,
    {
        let (kind, owner, alive) = units[i];
        proof {
            let s = units@.subrange(0, i as int + 1);
            assert(s.drop_last() =~= units@.subrange(0, i as int));
            assert(s.last() == (kind, owner, alive));
        }
        if alive && (owner as usize) < MAX_PLAYERS {
            let o = owner as usize;
            match kind {
                SpriteId::Thrall | SpriteId::Sentinel | SpriteId::HoverTank => {
                    alive_units[o] = alive_units[o] + 1;
                },
                SpriteId::CommandPost | SpriteId::Forge => {
                    alive_buildings[o] = alive_buildings[o] + 1;
                },
                SpriteId::CapturePoint => {},
            }
        }
        i += 1;
    }
    assert(units@.subrange(0, units@.len() as int) =~= units@);
    (alive_units, alive_buildings)
}

/// The 16-byte payload of the battle-end event: winner, reason code, zeros.
pub fn battle_end_payload(winner: u8, reason: VictoryReason) -> (p: [u8; 16])
    ensures
        p@[0] == winner,
        p@[1] == reason_code(reason),
        forall|k: int| 2 <= k < 16 ==> p@[k] == 0,
{
    let mut payload = [0u8; 16];
    payload[0] = winner;
    payload[1] = reason.code();
    payload
}

/// Two different players together own no more capture points than there are.
pub proof fn lemma_owned_disjoint(owners: Seq<u8>, p: u8, q: u8)
    requires
        p != q,
    ensures
        owned_by(owners, p) + owned_by(owners, q) <= owners.len(),
    decreases owners.len(),
{
    if owners.len() > 0 {
        lemma_owned_disjoint(owners.drop_last(), p, q);
    }
}

/// No two players can hold a strict majority of the capture points at the
/// same time, so the majority-hold timer runs for at most one player; and
/// when there are capture points at most one player owns them all.
pub proof fn law_one_majority_holder(owners: Seq<u8>, p: u8, q: u8)
    requires
        p != q,
        owners.len() <= 255,
    ensures
        !(owned_by(owners, p) >= majority_of(owners.len() as u8) && owned_by(owners, q) >= majority_of(
            owners.len() as u8,
        )),
        owners.len() > 0 ==> !(owned_by(owners, p) == owners.len() && owned_by(owners, q) == owners.len()),
{
    lemma_owned_disjoint(owners, p, q);
}

} // verus!

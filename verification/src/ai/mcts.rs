use vstd::prelude::*;
use crate::types::SpriteId;
use crate::blueprints::{ProductionLine, line_of};

verus! {

/// How often the strategic AI updates (in game ticks): 2 seconds at 20Hz.
pub const STRATEGIC_UPDATE_INTERVAL: u32 = 40;

/// Number of MCTS iterations per planning cycle.
pub const MCTS_ITERATIONS: u32 = 200;

/// Maximum rollout depth (simulated turns).
pub const MCTS_ROLLOUT_DEPTH: u32 = 20;

/// Units of one kind (0 Thralls, 1 Sentinels, 2 Hover Tanks) in a sector.
pub open spec fn kind_count(s: SectorUnitCounts, kind: int) -> int {
    if kind == 0 {
        s.thralls as int
    } else if kind == 1 {
        s.sentinels as int
    } else {
        s.hover_tanks as int
    }
}

/// Units of one kind over a row of sectors.
pub open spec fn kind_total(row: Seq<SectorUnitCounts>, kind: int) -> int
    decreases row.len(),
{
    if row.len() == 0 {
        0
    } else {
        kind_total(row.drop_last(), kind) + kind_count(row.last(), kind)
    }
}

/// A prefix of a row holds no more units of a kind than the whole row.
proof fn lemma_kind_total_prefix(row: Seq<SectorUnitCounts>, kind: int, i: int)
    requires
        0 <= i <= row.len(),
    ensures
        0 <= kind_total(row.take(i), kind) <= kind_total(row, kind),
        i < row.len() ==> kind_total(row.take(i + 1), kind) == kind_total(row.take(i), kind) + kind_count(
            row[i],
            kind,
        ),
    decreases row.len(),
{
    if i < row.len() {
        assert(row.take(i + 1).drop_last() =~= row.take(i));
    }
    if row.len() > 0 {
        if i == row.len() {
            assert(row.take(i) =~= row);
            lemma_kind_total_prefix(row.drop_last(), kind, i - 1);
        } else {
            lemma_kind_total_prefix(row.drop_last(), kind, i);
            assert(row.drop_last().take(i) =~= row.take(i));
            if i + 1 <= row.drop_last().len() {
                assert(row.drop_last().take(i + 1) =~= row.take(i + 1));
            }
        }
    } else {
        assert(row.take(i) =~= row);
    }
}

/// Moves every unit of a player's row of sectors into sector `target`: all
/// sectors are emptied, and when `target` is a sector of the row it holds
/// the row's totals of each kind.
pub fn concentrate_units(row: &mut Vec<SectorUnitCounts>, target: usize)
    requires
        forall|kind: int| 0 <= kind < 3 ==> #[trigger] kind_total(old(row)@, kind) <= u16::MAX,
    ensures
        final(row)@.len() == old(row)@.len(),
        forall|i: int|
            0 <= i < final(row)@.len() && i != target ==> #[trigger] final(row)@[i] == (SectorUnitCounts {
                thralls: 0,
                sentinels: 0,
                hover_tanks: 0,
            }),
        target < final(row)@.len() ==> forall|kind: int|
            0 <= kind < 3 ==> #[trigger] kind_count(final(row)@[target as int], kind) == kind_total(old(row)@, kind),
{
    let ghost row0 = row@;
    let n = row.len();
    let mut thralls: u16 = 0;
    let mut sentinels: u16 = 0;
    let mut tanks: u16 = 0;
    let mut i: usize = 0;
    while i < n
        invariant
            n == row@.len(),
            n == row0.len(),
            i <= n,
            forall|kind: int| 0 <= kind < 3 ==> #[trigger] kind_total(row0, kind) <= u16::MAX,
            thralls == kind_total(row0.take(i as int), 0),
            sentinels == kind_total(row0.take(i as int), 1),
            tanks == kind_total(row0.take(i as int), 2),
            forall|k: int|
                0 <= k < i ==> #[trigger] row@[k] == (SectorUnitCounts { thralls: 0, sentinels: 0, hover_tanks: 0 }),
            forall|k: int| i <= k < n ==> #[trigger] row@[k] == row0[k],
        decreases n - i,
    {
        proof {
            lemma_kind_total_prefix(row0, 0, i as int);
            lemma_kind_total_prefix(row0, 1, i as int);
            lemma_kind_total_prefix(row0, 2, i as int);
            lemma_kind_total_prefix(row0, 0, i + 1);
            lemma_kind_total_prefix(row0, 1, i + 1);
            lemma_kind_total_prefix(row0, 2, i + 1);
        }
        let s = &row[i];
        thralls = thralls + s.thralls;
        sentinels = sentinels + s.sentinels;
        tanks = tanks + s.hover_tanks;
        row.set(i, SectorUnitCounts { thralls: 0, sentinels: 0, hover_tanks: 0 });
        i += 1;
    }
    assert(row0.take(n as int) =~= row0);
    if target < n {
        row.set(target, SectorUnitCounts { thralls, sentinels, hover_tanks: tanks });
    }
}

/// High-level strategic actions the AI can take.
#[derive(Clone, Debug, PartialEq, Structural)]
pub enum StrategicAction {
    /// Produce a Thrall infantry unit.
    ProduceThrall,
    /// Produce a Sentinel elite unit.
    ProduceSentinel,
    /// Produce a Hover Tank.
    ProduceHoverTank,
    /// Attack-move all combat units to a specific sector.
    AttackSector(u8),
    /// Move combat units to defend a specific sector.
    DefendSector(u8),
    /// Retreat all combat units toward Command Post.
    Retreat,
    /// Do nothing this planning cycle.
    DoNothing,
}

/// Per-sector unit counts for a player.
#[derive(Clone, Debug, Default)]
pub struct SectorUnitCounts {
    pub thralls: u16,
    pub sentinels: u16,
    pub hover_tanks: u16,
}

impl SectorUnitCounts {
    /// Total unit count in this sector.
    pub fn total(&self) -> (n: u16)
        requires
            self.thralls + self.sentinels + self.hover_tanks <= u16::MAX,
        ensures
            n == self.thralls + self.sentinels + self.hover_tanks,
    {
        self.thralls + self.sentinels + self.hover_tanks
    }

    /// Removes `losses` units, Thralls first, then Sentinels, then Hover
    /// Tanks, as far as there are any.
    pub fn apply_losses(&mut self, losses: u16)
        ensures
            final(self).thralls == old(self).thralls - min_u16(losses, old(self).thralls),
            final(self).sentinels == old(self).sentinels - min_u16(
                (losses - min_u16(losses, old(self).thralls)) as u16,
                old(self).sentinels,
            ),
            final(self).hover_tanks == old(self).hover_tanks - min_u16(
                (losses - min_u16(losses, old(self).thralls) - min_u16(
                    (losses - min_u16(losses, old(self).thralls)) as u16,
                    old(self).sentinels,
                )) as u16,
                old(self).hover_tanks,
            ),
    {
        let mut losses = losses;
        let thrall_lost = if losses < self.thralls { losses } else { self.thralls };
        self.thralls = self.thralls - thrall_lost;
        losses = losses - thrall_lost;
        let sentinel_lost = if losses < self.sentinels { losses } else { self.sentinels };
        self.sentinels = self.sentinels - sentinel_lost;
        losses = losses - sentinel_lost;
        let tank_lost = if losses < self.hover_tanks { losses } else { self.hover_tanks };
        self.hover_tanks = self.hover_tanks - tank_lost;
    }
}

/// The smaller of two counts.
pub open spec fn min_u16(a: u16, b: u16) -> u16 {
    if a < b {
        a
    } else {
        b
    }
}

/// A sector loses as many units as the losses, or all of them when the
/// losses are more, and never gains any.
pub proof fn law_losses_remove_min(c: SectorUnitCounts, losses: u16, after: SectorUnitCounts)
    requires
        after.thralls == c.thralls - min_u16(losses, c.thralls),
        after.sentinels == c.sentinels - min_u16((losses - min_u16(losses, c.thralls)) as u16, c.sentinels),
        after.hover_tanks == c.hover_tanks - min_u16(
            (losses - min_u16(losses, c.thralls) - min_u16((losses - min_u16(losses, c.thralls)) as u16, c.sentinels))
                as u16,
            c.hover_tanks,
        ),
    ensures
        ({
            let before = c.thralls + c.sentinels + c.hover_tanks;
            let now = after.thralls + after.sentinels + after.hover_tanks;
            &&& now <= before
            &&& before - now == if losses < before {
                losses as int
            } else {
                before
            }
        }),
{
}

/// Number of map sectors the planner reasons about (8 by 8).
pub const TOTAL_SECTORS: usize = 64;

/// Units of player `p` in sector `s`.
pub open spec fn units_in(sector_units: Seq<Vec<SectorUnitCounts>>, p: int, s: int) -> int {
    let c = sector_units[p]@[s];
    c.thralls + c.sentinels + c.hover_tanks
}

/// Sector counts the planner can add up: one row of 64 sectors for every
/// player, and no sector's total beyond a `u16`.
pub open spec fn sector_table_ok(sector_units: Seq<Vec<SectorUnitCounts>>, player_count: u8) -> bool {
    &&& sector_units.len() >= player_count
    &&& forall|p: int| 0 <= p < sector_units.len() ==> (#[trigger] sector_units[p])@.len() == TOTAL_SECTORS
    &&& forall|p: int, s: int|
        0 <= p < sector_units.len() && 0 <= s < TOTAL_SECTORS ==> #[trigger] units_in(sector_units, p, s)
            <= u16::MAX
}

/// Some player other than `pid` (among the first `player_count`) has units
/// in sector `s`.
pub open spec fn enemy_in(sector_units: Seq<Vec<SectorUnitCounts>>, player_count: u8, pid: int, s: int) -> bool {
    exists|q: int| 0 <= q < player_count && q != pid && #[trigger] units_in(sector_units, q, s) > 0
}

/// `AttackSector` for every sector below `n` with an enemy in it, in order.
pub open spec fn attack_targets(sector_units: Seq<Vec<SectorUnitCounts>>, player_count: u8, pid: int, n: int) -> Seq<
    StrategicAction,
>
    decreases n,
{
    if n <= 0 {
        Seq::empty()
    } else {
        let earlier = attack_targets(sector_units, player_count, pid, n - 1);
        if enemy_in(sector_units, player_count, pid, n - 1) {
            earlier.push(StrategicAction::AttackSector((n - 1) as u8))
        } else {
            earlier
        }
    }
}

/// Whether player `pid` has any unit on the map.
pub open spec fn has_units(sector_units: Seq<Vec<SectorUnitCounts>>, pid: int) -> bool {
    0 <= pid < sector_units.len() && exists|s: int| 0 <= s < TOTAL_SECTORS && #[trigger] units_in(sector_units, pid, s) > 0
}

/// The strategic actions open to a player, in the planner's order: doing
/// nothing; then, when its economy is known, each production it can afford
/// on a free line (`affordable` says which of Thrall, Sentinel, Hover Tank
/// its energy covers); then, when it has units, retreating to its Command
/// Post's sector, attacking each sector holding enemies, and defending its
/// Command Post's sector.
pub open spec fn legal_actions_of(
    sector_units: Seq<Vec<SectorUnitCounts>>,
    player_count: u8,
    player_id: u8,
    affordable: Option<[bool; 3]>,
    infantry_busy: bool,
    armor_busy: bool,
    cp_sector: Option<u8>,
) -> Seq<StrategicAction> {
    let pid = player_id as int;
    let start = seq![StrategicAction::DoNothing];
    match affordable {
        None => start,
        Some(a) => {
            let produce = start
                + (if !infantry_busy && a@[0] { seq![StrategicAction::ProduceThrall] } else { Seq::empty() })
                + (if !infantry_busy && a@[1] { seq![StrategicAction::ProduceSentinel] } else { Seq::empty() })
                + (if !armor_busy && a@[2] { seq![StrategicAction::ProduceHoverTank] } else { Seq::empty() });
            if has_units(sector_units, pid) {
                produce
                    + (if cp_sector is Some { seq![StrategicAction::Retreat] } else { Seq::empty() })
                    + attack_targets(sector_units, player_count, pid, TOTAL_SECTORS as int)
                    + (match cp_sector {
                        Some(c) => seq![StrategicAction::DefendSector(c)],
                        None => Seq::empty(),
                    })
            } else {
                produce
            }
        },
    }
}

/// The unit a production action builds.
pub open spec fn produced_unit(a: StrategicAction) -> Option<SpriteId> {
    match a {
        StrategicAction::ProduceThrall => Some(SpriteId::Thrall),
        StrategicAction::ProduceSentinel => Some(SpriteId::Sentinel),
        StrategicAction::ProduceHoverTank => Some(SpriteId::HoverTank),
        _ => None,
    }
}

/// Whether `affordable` (for Thrall, Sentinel, Hover Tank in that order)
/// says the player can pay for unit `u`.
pub open spec fn can_pay(affordable: [bool; 3], u: SpriteId) -> bool {
    match u {
        SpriteId::Thrall => affordable@[0],
        SpriteId::Sentinel => affordable@[1],
        SpriteId::HoverTank => affordable@[2],
        _ => false,
    }
}

/// Whether the production line that builds `u` is free.
pub open spec fn line_free(u: SpriteId, infantry_busy: bool, armor_busy: bool) -> bool {
    match line_of(u) {
        Some(ProductionLine::Infantry) => !infantry_busy,
        Some(ProductionLine::Armor) => !armor_busy,
        None => false,
    }
}

proof fn lemma_add_contains<A>(a: Seq<A>, b: Seq<A>, x: A)
    ensures
        (a + b).contains(x) <==> a.contains(x) || b.contains(x),
{
    if (a + b).contains(x) {
        let i = choose|i: int| 0 <= i < (a + b).len() && (a + b)[i] == x;
        if i < a.len() {
            assert(a[i] == x);
        } else {
            assert(b[i - a.len()] == x);
        }
    }
    if a.contains(x) {
        let i = choose|i: int| 0 <= i < a.len() && a[i] == x;
        assert((a + b)[i] == x);
    }
    if b.contains(x) {
        let i = choose|i: int| 0 <= i < b.len() && b[i] == x;
        assert((a + b)[a.len() + i] == x);
    }
}

proof fn lemma_attacks_build_nothing(sector_units: Seq<Vec<SectorUnitCounts>>, player_count: u8, pid: int, n: int, x: StrategicAction)
    requires
        produced_unit(x) is Some,
    ensures
        !attack_targets(sector_units, player_count, pid, n).contains(x),
    decreases n,
{
    if n > 0 {
        lemma_attacks_build_nothing(sector_units, player_count, pid, n - 1, x);
        let earlier = attack_targets(sector_units, player_count, pid, n - 1);
        if enemy_in(sector_units, player_count, pid, n - 1) {
            lemma_add_contains(earlier, seq![StrategicAction::AttackSector((n - 1) as u8)], x);
            assert(!seq![StrategicAction::AttackSector((n - 1) as u8)].contains(x)) by {
                if seq![StrategicAction::AttackSector((n - 1) as u8)].contains(x) {
                    assert(seq![StrategicAction::AttackSector((n - 1) as u8)][0] == x);
                }
            }
            assert(earlier.push(StrategicAction::AttackSector((n - 1) as u8)) =~= earlier + seq![
                StrategicAction::AttackSector((n - 1) as u8),
            ]);
        }
    }
}

proof fn lemma_single_contains<A>(a: A, x: A)
    ensures
        seq![a].contains(x) <==> a == x,
{
    if seq![a].contains(x) {
        assert(seq![a][0] == x);
    }
    if a == x {
        assert(seq![a][0] == x);
    }
}

/// A unit is offered for production exactly when the player's economy is
/// known, it can pay for the unit, and the production line that builds the
/// unit (infantry for Thralls and Sentinels, armor for Hover Tanks) is free;
/// whatever units are on the map.
pub proof fn law_production_offered_on_its_free_line(
    sector_units: Seq<Vec<SectorUnitCounts>>,
    player_count: u8,
    player_id: u8,
    affordable: Option<[bool; 3]>,
    infantry_busy: bool,
    armor_busy: bool,
    cp_sector: Option<u8>,
    action: StrategicAction,
)
    requires
        produced_unit(action) is Some,
    ensures
        legal_actions_of(sector_units, player_count, player_id, affordable, infantry_busy, armor_busy, cp_sector).contains(
            action,
        ) <==> match affordable {
            Some(a) => can_pay(a, produced_unit(action).unwrap()) && line_free(
                produced_unit(action).unwrap(),
                infantry_busy,
                armor_busy,
            ),
            None => false,
        },
{
    let start = seq![StrategicAction::DoNothing];
    lemma_single_contains(StrategicAction::DoNothing, action);
    lemma_single_contains(StrategicAction::ProduceThrall, action);
    lemma_single_contains(StrategicAction::ProduceSentinel, action);
    lemma_single_contains(StrategicAction::ProduceHoverTank, action);
    lemma_single_contains(StrategicAction::Retreat, action);
    if let Some(a) = affordable {
        let t = if !infantry_busy && a@[0] { seq![StrategicAction::ProduceThrall] } else { Seq::empty() };
        let se = if !infantry_busy && a@[1] { seq![StrategicAction::ProduceSentinel] } else { Seq::empty() };
        let h = if !armor_busy && a@[2] { seq![StrategicAction::ProduceHoverTank] } else { Seq::empty() };
        lemma_add_contains(start, t, action);
        lemma_add_contains(start + t, se, action);
        lemma_add_contains(start + t + se, h, action);
        let produce = start + t + se + h;
        let r = if cp_sector is Some { seq![StrategicAction::Retreat] } else { Seq::<StrategicAction>::empty() };
        let at = attack_targets(sector_units, player_count, player_id as int, TOTAL_SECTORS as int);
        let d = match cp_sector {
            Some(c) => seq![StrategicAction::DefendSector(c)],
            None => Seq::<StrategicAction>::empty(),
        };
        if let Some(c) = cp_sector {
            lemma_single_contains(StrategicAction::DefendSector(c), action);
        }
        lemma_attacks_build_nothing(sector_units, player_count, player_id as int, TOTAL_SECTORS as int, action);
        lemma_add_contains(produce, r, action);
        lemma_add_contains(produce + r, at, action);
        lemma_add_contains(produce + r + at, d, action);
        assert(!Seq::<StrategicAction>::empty().contains(action));
    } else {
        assert(!Seq::<StrategicAction>::empty().contains(action));
    }
}

fn sector_total(sector_units: &[Vec<SectorUnitCounts>], p: usize, s: usize) -> (n: u16)
    requires
        p < sector_units@.len(),
        s < sector_units@[p as int]@.len(),
        units_in(sector_units@, p as int, s as int) <= u16::MAX,
    ensures
        n == units_in(sector_units@, p as int, s as int),
{
    sector_units[p][s].total()
}

/// Whether the player has a unit in some sector.
fn any_units(sector_units: &[Vec<SectorUnitCounts>], player_count: u8, pid: usize) -> (b: bool)
    requires
        sector_table_ok(sector_units@, player_count),
    ensures
        b == has_units(sector_units@, pid as int),
{
    if pid >= sector_units.len() {
        return false;
    }
    let mut s: usize = 0;
    while s < TOTAL_SECTORS
        invariant
            pid < sector_units@.len(),
            sector_table_ok(sector_units@, player_count),
            s <= TOTAL_SECTORS,
            forall|t: int| 0 <= t < s ==> #[trigger] units_in(sector_units@, pid as int, t) == 0,
        decreases TOTAL_SECTORS - s,
    {
        let _ = sector_units[pid].len();
        if sector_total(sector_units, pid, s) > 0 {
            return true;
        }
        s += 1;
    }
    false
}

/// Whether some player other than `pid` has units in sector `s`.
fn enemy_present(sector_units: &[Vec<SectorUnitCounts>], player_count: u8, pid: usize, s: usize) -> (b: bool)
    requires
        sector_table_ok(sector_units@, player_count),
        s < TOTAL_SECTORS,
    ensures
        b == enemy_in(sector_units@, player_count, pid as int, s as int),
{
    let mut q: usize = 0;
    while q < player_count as usize
        invariant
            sector_table_ok(sector_units@, player_count),
            s < TOTAL_SECTORS,
            q <= player_count,
            forall|r: int| 0 <= r < q && r != pid ==> #[trigger] units_in(sector_units@, r, s as int) == 0,
        decreases player_count - q,
    {
        if q != pid && sector_total(sector_units, q, s) > 0 {
            return true;
        }
        q += 1;
    }
    false
}

/// The strategic actions open to a player (see `legal_actions_of`). The
/// energy comparisons are made by the caller, as `affordable`, which is
/// `None` when the player's economy is unknown.
pub fn legal_actions(
    sector_units: &[Vec<SectorUnitCounts>],
    player_count: u8,
    player_id: u8,
    affordable: Option<[bool; 3]>,
    infantry_busy: bool,
    armor_busy: bool,
    cp_sector: Option<u8>,
) -> (actions: Vec<StrategicAction>)
    requires
        sector_table_ok(sector_units@, player_count),
    ensures
        actions@ == legal_actions_of(
            sector_units@,
            player_count,
            player_id,
            affordable,
            infantry_busy,
            armor_busy,
            cp_sector,
        ),
{
    let pid = player_id as usize;
    let mut actions: Vec<StrategicAction> = Vec::new();
    actions.push(StrategicAction::DoNothing);
    let a = match affordable {
        Some(a) => a,
        None => {
            assert(actions@ =~= seq![StrategicAction::DoNothing]);
            return actions;
        },
    };
    if !infantry_busy {
        if a[0] {
            actions.push(StrategicAction::ProduceThrall);
        }
        if a[1] {
            actions.push(StrategicAction::ProduceSentinel);
        }
    }
    if !armor_busy {
        if a[2] {
            actions.push(StrategicAction::ProduceHoverTank);
        }
    }
    let ghost start = seq![StrategicAction::DoNothing];
    let ghost produce = start
        + (if !infantry_busy && a@[0] { seq![StrategicAction::ProduceThrall] } else { Seq::empty() })
        + (if !infantry_busy && a@[1] { seq![StrategicAction::ProduceSentinel] } else { Seq::empty() })
        + (if !armor_busy && a@[2] { seq![StrategicAction::ProduceHoverTank] } else { Seq::empty() });
    assert(actions@ =~= produce);
    if any_units(sector_units, player_count, pid) {
        if cp_sector.is_some() {
            actions.push(StrategicAction::Retreat);
        }
        let ghost with_retreat = actions@;
        let mut s: usize = 0;
        while s < TOTAL_SECTORS
            invariant
                sector_table_ok(sector_units@, player_count),
                s <= TOTAL_SECTORS,
                actions@ == with_retreat + attack_targets(sector_units@, player_count, pid as int, s as int),
            decreases TOTAL_SECTORS - s,
        {
            let ghost before = actions@;
            if enemy_present(sector_units, player_count, pid, s) {
                actions.push(StrategicAction::AttackSector(s as u8));
                assert(actions@ =~= with_retreat + attack_targets(sector_units@, player_count, pid as int, s as int + 1));
            } else {
                assert(actions@ =~= with_retreat + attack_targets(sector_units@, player_count, pid as int, s as int + 1));
            }
            s += 1;
        }
        let ghost with_attacks = actions@;
        if let Some(c) = cp_sector {
            actions.push(StrategicAction::DefendSector(c));
        }
        assert(actions@ =~= legal_actions_of(
            sector_units@,
            player_count,
            player_id,
            affordable,
            infantry_busy,
            armor_busy,
            cp_sector,
        ));
    }
    actions
}

} // verus!

use vstd::prelude::*;
use crate::types::SpriteId;

verus! {

/// Technology identifiers for the research system.
#[derive(Clone, Copy, Debug, PartialEq, Eq, Hash, Structural)]
pub enum TechId {
    // Tier 1 (200 energy, 60s, 1 relic)
    ThrallPlating,
    SentinelHeavyWeapons,
    HoverTankReactiveArmor,
    ImprovedVision,
    // Tier 2 (500 energy, 120s, 1 relic + prereq)
    ThrallFireRate,
    SentinelShields,
    HoverTankSiege,
    FastProduction,
    // Tier 3 (1000 energy, 180s, 2 relics + prereq)
    ThrallRange,
    SentinelStealth,
    HoverTankOvercharge,
    EconomicEfficiency,
}

/// Tier of a technology (1, 2 or 3).
pub open spec fn tier_of(t: TechId) -> u8 {
    match t {
        TechId::ThrallPlating | TechId::SentinelHeavyWeapons | TechId::HoverTankReactiveArmor
        | TechId::ImprovedVision => 1,
        TechId::ThrallFireRate | TechId::SentinelShields | TechId::HoverTankSiege
        | TechId::FastProduction => 2,
        _ => 3,
    }
}

/// Prerequisite of a technology: the corresponding technology one tier lower.
pub open spec fn prerequisite_of(t: TechId) -> Option<TechId> {
    match t {
        TechId::ThrallFireRate => Some(TechId::ThrallPlating),
        TechId::SentinelShields => Some(TechId::SentinelHeavyWeapons),
        TechId::HoverTankSiege => Some(TechId::HoverTankReactiveArmor),
        TechId::FastProduction => Some(TechId::ImprovedVision),
        TechId::ThrallRange => Some(TechId::ThrallFireRate),
        TechId::SentinelStealth => Some(TechId::SentinelShields),
        TechId::HoverTankOvercharge => Some(TechId::HoverTankSiege),
        TechId::EconomicEfficiency => Some(TechId::FastProduction),
        _ => None,
    }
}

/// Relics a technology requires: one for tiers 1 and 2, two for tier 3.
pub open spec fn relics_required(t: TechId) -> u32 {
    if tier_of(t) == 3 {
        2
    } else {
        1
    }
}

impl TechId {
    /// Get the tier of this technology (1, 2, or 3).
    pub fn tier(&self) -> (t: u8)
        ensures
            t == tier_of(*self),
            1 <= t <= 3,
    {
        match self {
            TechId::ThrallPlating | TechId::SentinelHeavyWeapons | TechId::HoverTankReactiveArmor
            | TechId::ImprovedVision => 1,
            TechId::ThrallFireRate | TechId::SentinelShields | TechId::HoverTankSiege
            | TechId::FastProduction => 2,
            TechId::ThrallRange | TechId::SentinelStealth | TechId::HoverTankOvercharge
            | TechId::EconomicEfficiency => 3,
        }
    }

    /// Get the prerequisite technology for this tech (None for Tier 1).
    pub fn prerequisite(&self) -> (p: Option<TechId>)
        ensures
            p == prerequisite_of(*self),
    {
        match self {
            // Tier 1: no prerequisites
            TechId::ThrallPlating | TechId::SentinelHeavyWeapons | TechId::HoverTankReactiveArmor
            | TechId::ImprovedVision => None,
            // Tier 2: requires corresponding Tier 1
            TechId::ThrallFireRate => Some(TechId::ThrallPlating),
            TechId::SentinelShields => Some(TechId::SentinelHeavyWeapons),
            TechId::HoverTankSiege => Some(TechId::HoverTankReactiveArmor),
            TechId::FastProduction => Some(TechId::ImprovedVision),
            // Tier 3: requires corresponding Tier 2
            TechId::ThrallRange => Some(TechId::ThrallFireRate),
            TechId::SentinelStealth => Some(TechId::SentinelShields),
            TechId::HoverTankOvercharge => Some(TechId::HoverTankSiege),
            TechId::EconomicEfficiency => Some(TechId::FastProduction),
        }
    }

    /// Relics needed before this technology can be researched.
    pub fn required_relics(&self) -> (n: u32)
        ensures
            n == relics_required(*self),
    {
        if self.tier() == 3 {
            2
        } else {
            1
        }
    }
}

/// Exactly the tier-1 technologies have no prerequisite, and every
/// prerequisite sits exactly one tier lower.
pub proof fn law_prerequisite_one_tier_down(t: TechId)
    ensures
        prerequisite_of(t) is None <==> tier_of(t) == 1,
        prerequisite_of(t) matches Some(p) ==> tier_of(p) + 1 == tier_of(t),
{
}

/// The unit a technology improves; `None` for the economy line (vision and
/// production speed for all units, income).
pub open spec fn tech_branch(t: TechId) -> Option<SpriteId> {
    match t {
        TechId::ThrallPlating | TechId::ThrallFireRate | TechId::ThrallRange => Some(SpriteId::Thrall),
        TechId::SentinelHeavyWeapons | TechId::SentinelShields | TechId::SentinelStealth => Some(
            SpriteId::Sentinel,
        ),
        TechId::HoverTankReactiveArmor | TechId::HoverTankSiege | TechId::HoverTankOvercharge => Some(
            SpriteId::HoverTank,
        ),
        TechId::ImprovedVision | TechId::FastProduction | TechId::EconomicEfficiency => None,
    }
}

/// Each line of the tech tree (one per improved unit, and the economy line)
/// holds one technology per tier, and a technology above tier 1 requires
/// exactly the technology of its own line one tier lower.
pub proof fn law_prerequisite_is_same_line_one_tier_down(t: TechId, p: TechId)
    ensures
        prerequisite_of(t) == Some(p) <==> (tier_of(t) > 1 && tier_of(p) + 1 == tier_of(t) && tech_branch(p)
            == tech_branch(t)),
        tier_of(t) == tier_of(p) && tech_branch(t) == tech_branch(p) ==> t == p,
{
}

/// Following prerequisites from any technology ends after at most two steps:
/// the tech tree has no cycles.
pub proof fn law_prerequisite_chain_ends(t: TechId)
    ensures
        prerequisite_of(t) matches Some(p) ==> (prerequisite_of(p) matches Some(q)
            ==> prerequisite_of(q) is None),
{
}

/// Whether `tech` is among the completed technologies.
pub fn has_tech(completed: &[TechId], tech: TechId) -> (b: bool)
    ensures
        b == completed@.contains(tech),
{
    let mut i: usize = 0;
    while i < completed.len()
        invariant
            i <= completed@.len(),
            forall|k: int| 0 <= k < i ==> completed@[k] != tech,
        decreases completed@.len() - i,
    {
        if completed[i] == tech {
            assert(completed@[i as int] == tech);
            return true;
        }
        i += 1;
    }
    false
}

/// Every requirement for starting `tech` but its energy cost: not yet
/// researched, no research under way, its prerequisite done, enough relics.
pub open spec fn research_open(completed: Seq<TechId>, researching: bool, tech: TechId, owned_relics: u32) -> bool {
    &&& !completed.contains(tech)
    &&& !researching
    &&& prerequisite_of(tech) matches Some(pre) ==> completed.contains(pre)
    &&& owned_relics >= relics_required(tech)
}

/// The requirements for starting a research other than its energy cost,
/// which the caller compares with the energy at hand.
pub fn research_allowed(completed: &[TechId], researching: bool, tech: TechId, owned_relics: u32) -> (b: bool)
    ensures
        b == research_open(completed@, researching, tech, owned_relics),
{
    if has_tech(completed, tech) {
        return false;
    }
    if researching {
        return false;
    }
    if let Some(prereq) = tech.prerequisite() {
        if !has_tech(completed, prereq) {
            return false;
        }
    }
    if owned_relics < tech.required_relics() {
        return false;
    }
    true
}

/// A tier-2 or tier-3 technology can only be started once its prerequisite,
/// one tier lower, is done.
pub proof fn law_prerequisite_before_start(completed: Seq<TechId>, researching: bool, tech: TechId, owned_relics: u32)
    requires
        research_open(completed, researching, tech, owned_relics),
        tier_of(tech) > 1,
    ensures
        completed.contains(prerequisite_of(tech).unwrap()),
        tier_of(prerequisite_of(tech).unwrap()) == tier_of(tech) - 1,
{
}

} // verus!

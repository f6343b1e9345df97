use vstd::prelude::*;
use crate::ai::behavior_tree::{BehaviorTree, build_combat_bt, is_combat_tree, children_precede};

verus! {

/// Identifies which behavior tree template an AI entity uses.
#[derive(Clone, Copy, Debug, PartialEq, Eq, Structural)]
pub enum BtTemplateId {
    CombatUnit,
    DefensiveUnit,
    ScoutUnit,
}

/// Resource: pre-built behavior tree templates.
pub struct BtTemplates {
    pub combat: BehaviorTree,
}

impl BtTemplates {
    pub fn new() -> (t: Self)
        ensures
            is_combat_tree(t.combat),
            children_precede(t.combat),
    {
        BtTemplates { combat: build_combat_bt() }
    }
}

} // verus!

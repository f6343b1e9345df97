use vstd::prelude::*;
use crate::ecs::entity::Entity;

verus! {

/// Result of evaluating a behavior tree node.
#[derive(Clone, Copy, Debug, PartialEq, Eq, Structural)]
pub enum BtStatus {
    Success,
    Failure,
    Running,
}

/// A behavior tree node. Nodes form a tree structure via indices into a flat array.
#[derive(Clone, Debug)]
pub enum BtNode {
    /// Executes children in order. Fails if any child fails. Succeeds when all succeed.
    Sequence { children: Vec<usize> },
    /// Tries children in order. Succeeds on first success. Fails if all children fail.
    Selector { children: Vec<usize> },
    /// Inverts the child's result: Success <-> Failure, Running stays Running.
    Inverter { child: usize },
    /// Always returns Success regardless of child result (except Running).
    Succeeder { child: usize },
    /// Evaluates a condition and returns Success or Failure.
    Condition { condition_id: ConditionId },
    /// Executes an action and returns Success, Failure, or Running.
    Action { action_id: ActionId },
}

/// Condition identifiers for leaf nodes that query game state.
#[derive(Clone, Copy, Debug, PartialEq, Eq, Structural)]
pub enum ConditionId {
    /// Unit currently has an assigned target.
    HasTarget,
    /// Current target is within attack range.
    TargetInRange,
    /// Current target entity is still alive.
    TargetAlive,
    /// Unit's health is below a percentage threshold.
    HealthBelowPercent(u8),
    /// There is a visible enemy within vision range.
    EnemyInVisionRange,
    /// Friendly influence exceeds enemy influence at current position.
    FriendlyStrengthAdvantage,
    /// Unit is in a tile with high enemy threat (vulnerability > threshold).
    InDangerZone,
    /// Unit has more than half health.
    HealthAboveHalf,
}

/// Action identifiers for leaf nodes that produce game commands.
#[derive(Clone, Copy, Debug, PartialEq, Eq, Structural)]
pub enum ActionId {
    /// Find the nearest visible enemy and set it as target.
    AcquireNearestTarget,
    /// Attack the current target (issues Attack command).
    AttackTarget,
    /// Move toward the current target to get in range.
    ChaseTarget,
    /// Move away from enemies toward the safest nearby tile.
    Retreat,
    /// Move toward the Command Post.
    FleeToCommandPost,
    /// Stay in place and scan for enemies.
    IdleGuard,
    /// Hold current position (do nothing).
    HoldPosition,
    /// Move to assigned position if any.
    MoveToAssignedPosition,
}

/// A behavior tree stored as a flat array of nodes for cache-friendly access.
#[derive(Clone, Debug)]
pub struct BehaviorTree {
    /// All nodes in the tree. Children reference indices into this array.
    pub nodes: Vec<BtNode>,
    /// Index of the root node.
    pub root: usize,
}

/// Per-entity behavior tree execution state.
#[derive(Clone, Debug)]
pub struct BtState {
    /// Index of the currently running node (if any).
    pub running_node: Option<usize>,
}

impl BtState {
    pub fn new() -> (s: Self)
        ensures
            s.running_node is None,
    {
        BtState { running_node: None }
    }
}

/// Children of a node (none for leaves).
pub open spec fn node_children(n: BtNode) -> Seq<usize> {
    match n {
        BtNode::Sequence { children } => children@,
        BtNode::Selector { children } => children@,
        BtNode::Inverter { child } => seq![child],
        BtNode::Succeeder { child } => seq![child],
        _ => Seq::empty(),
    }
}

/// Every child is stored before its parent, so the nodes form a tree (no
/// cycles) whose evaluation always ends.
pub open spec fn children_precede(t: BehaviorTree) -> bool {
    forall|i: int, k: int|
        0 <= i < t.nodes@.len() && 0 <= k < node_children(t.nodes@[i]).len()
            ==> #[trigger] node_children(t.nodes@[i])[k] < i
}

/// The standard combat tree: leaves 0-16, composites 17-21, root selector 22.
pub open spec fn is_combat_tree(t: BehaviorTree) -> bool {
    &&& t.root == 22
    &&& t.nodes@.len() == 23
    &&& t.nodes@[0] == (BtNode::Condition { condition_id: ConditionId::HealthBelowPercent(25) })
    &&& t.nodes@[1] == (BtNode::Action { action_id: ActionId::FleeToCommandPost })
    &&& t.nodes@[2] == (BtNode::Condition { condition_id: ConditionId::InDangerZone })
    &&& t.nodes@[3] == (BtNode::Condition { condition_id: ConditionId::HealthBelowPercent(50) })
    &&& t.nodes@[4] == (BtNode::Action { action_id: ActionId::Retreat })
    &&& t.nodes@[5] == (BtNode::Condition { condition_id: ConditionId::HasTarget })
    &&& t.nodes@[6] == (BtNode::Condition { condition_id: ConditionId::TargetAlive })
    &&& t.nodes@[7] == (BtNode::Condition { condition_id: ConditionId::TargetInRange })
    &&& t.nodes@[8] == (BtNode::Action { action_id: ActionId::AttackTarget })
    &&& t.nodes@[9] == (BtNode::Condition { condition_id: ConditionId::HasTarget })
    &&& t.nodes@[10] == (BtNode::Condition { condition_id: ConditionId::TargetAlive })
    &&& t.nodes@[11] == (BtNode::Action { action_id: ActionId::ChaseTarget })
    &&& t.nodes@[12] == (BtNode::Condition { condition_id: ConditionId::EnemyInVisionRange })
    &&& t.nodes@[13] == (BtNode::Action { action_id: ActionId::AcquireNearestTarget })
    &&& t.nodes@[14] == (BtNode::Action { action_id: ActionId::AttackTarget })
    &&& t.nodes@[15] == (BtNode::Action { action_id: ActionId::MoveToAssignedPosition })
    &&& t.nodes@[16] == (BtNode::Action { action_id: ActionId::IdleGuard })
    &&& t.nodes@[17] matches BtNode::Sequence { children } && children@ == seq![0usize, 1usize]
    &&& t.nodes@[18] matches BtNode::Sequence { children } && children@ == seq![2usize, 3usize, 4usize]
    &&& t.nodes@[19] matches BtNode::Sequence { children } && children@ == seq![5usize, 6usize, 7usize, 8usize]
    &&& t.nodes@[20] matches BtNode::Sequence { children } && children@ == seq![9usize, 10usize, 11usize]
    &&& t.nodes@[21] matches BtNode::Sequence { children } && children@ == seq![12usize, 13usize, 14usize]
    &&& t.nodes@[22] matches BtNode::Selector { children } && children@ == seq![17usize, 18usize, 19usize, 20usize, 21usize, 15usize, 16usize]
}

/// Build the standard combat behavior tree used by most AI-controlled combat units.
///
/// Tree structure:
/// ```text
/// Selector (root)
/// ├── Sequence: Retreat if critically low health
/// │   ├── Condition: HealthBelowPercent(25)
/// │   └── Action: FleeToCommandPost
/// ├── Sequence: Retreat if in danger zone and low health
/// │   ├── Condition: InDangerZone
/// │   ├── Condition: HealthBelowPercent(50)
/// │   └── Action: Retreat
/// ├── Sequence: Attack current target if alive and in range
/// │   ├── Condition: HasTarget
/// │   ├── Condition: TargetAlive
/// │   ├── Condition: TargetInRange
/// │   └── Action: AttackTarget
/// ├── Sequence: Chase current target if alive but out of range
/// │   ├── Condition: HasTarget
/// │   ├── Condition: TargetAlive
/// │   └── Action: ChaseTarget
/// ├── Sequence: Acquire and attack new target
/// │   ├── Condition: EnemyInVisionRange
/// │   ├── Action: AcquireNearestTarget
/// │   └── Action: AttackTarget
/// ├── Sequence: Move to assigned position
/// │   └── Action: MoveToAssignedPosition
/// └── Action: IdleGuard
/// ```
pub fn build_combat_bt() -> (t: BehaviorTree)
    ensures
        is_combat_tree(t),
        children_precede(t),
{
    let mut nodes: Vec<BtNode> = Vec::new();
    // 0: Condition - Health below 25%
    nodes.push(BtNode::Condition { condition_id: ConditionId::HealthBelowPercent(25) });
    // 1: Action - Flee to Command Post
    nodes.push(BtNode::Action { action_id: ActionId::FleeToCommandPost });
    // 2: Condition - In danger zone
    nodes.push(BtNode::Condition { condition_id: ConditionId::InDangerZone });
    // 3: Condition - Health below 50%
    nodes.push(BtNode::Condition { condition_id: ConditionId::HealthBelowPercent(50) });
    // 4: Action - Retreat
    nodes.push(BtNode::Action { action_id: ActionId::Retreat });
    // 5: Condition - Has target
    nodes.push(BtNode::Condition { condition_id: ConditionId::HasTarget });
    // 6: Condition - Target alive
    nodes.push(BtNode::Condition { condition_id: ConditionId::TargetAlive });
    // 7: Condition - Target in range
    nodes.push(BtNode::Condition { condition_id: ConditionId::TargetInRange });
    // 8: Action - Attack target
    nodes.push(BtNode::Action { action_id: ActionId::AttackTarget });
    // 9: Condition - Has target (duplicate for chase sequence)
    nodes.push(BtNode::Condition { condition_id: ConditionId::HasTarget });
    // 10: Condition - Target alive (duplicate for chase sequence)
    nodes.push(BtNode::Condition { condition_id: ConditionId::TargetAlive });
    // 11: Action - Chase target
    nodes.push(BtNode::Action { action_id: ActionId::ChaseTarget });
    // 12: Condition - Enemy in vision range
    nodes.push(BtNode::Condition { condition_id: ConditionId::EnemyInVisionRange });
    // 13: Action - Acquire nearest target
    nodes.push(BtNode::Action { action_id: ActionId::AcquireNearestTarget });
    // 14: Action - Attack target (after acquire)
    nodes.push(BtNode::Action { action_id: ActionId::AttackTarget });
    // 15: Action - Move to assigned position
    nodes.push(BtNode::Action { action_id: ActionId::MoveToAssignedPosition });
    // 16: Action - Idle guard
    nodes.push(BtNode::Action { action_id: ActionId::IdleGuard });
    // 17: Sequence - Critical retreat (health < 25% -> flee to CP)
    nodes.push(BtNode::Sequence { children: vec![0, 1] });
    // 18: Sequence - Danger zone retreat (in danger + health < 50% -> retreat)
    nodes.push(BtNode::Sequence { children: vec![2, 3, 4] });
    // 19: Sequence - Attack in range (has target + alive + in range -> attack)
    nodes.push(BtNode::Sequence { children: vec![5, 6, 7, 8] });
    // 20: Sequence - Chase target (has target + alive -> chase)
    nodes.push(BtNode::Sequence { children: vec![9, 10, 11] });
    // 21: Sequence - Acquire and attack (enemy visible -> acquire -> attack)
    nodes.push(BtNode::Sequence { children: vec![12, 13, 14] });
    // 22: Root Selector
    nodes.push(BtNode::Selector { children: vec![17, 18, 19, 20, 21, 15, 16] });
    let t = BehaviorTree { root: 22, nodes };
    proof {
        assert forall|i: int, k: int|
            0 <= i < t.nodes@.len() && 0 <= k < node_children(t.nodes@[i]).len()
            implies #[trigger] node_children(t.nodes@[i])[k] < i by {
            if i >= 17 {
                assert(node_children(t.nodes@[i])[k] < 23);
            }
        }
    }
    t
}

/// An order a unit's tree gives while being evaluated. Orders name what
/// to do; the game turns them into commands with the positions it knows.
#[derive(Clone, Copy, Debug, PartialEq, Eq, Structural)]
pub enum BtOrder {
    /// Attack the given entity.
    Attack { target: Entity },
    /// Move toward the current target; `nearest` when the target was acquired
    /// from the nearest visible enemy during this evaluation (so its
    /// position is that enemy's).
    MoveToTarget { nearest: bool },
    /// Move toward the safest nearby tile.
    Retreat,
    /// Move toward the Command Post.
    FleeToCommandPost,
    /// Stop in place.
    Stop,
    /// Move toward the position assigned by the strategic AI.
    MoveToAssigned,
}

/// What a unit's tree can ask about the unit, with every comparison of
/// positions and influence already made by the game.
pub struct BtFacts {
    /// The entity being evaluated.
    pub entity: Entity,
    /// Current health percentage (0-100).
    pub health_pct: u8,
    /// Current target entity (if any).
    pub target: Option<Entity>,
    /// Whether the target is alive.
    pub target_alive: bool,
    /// Whether the target is within attack range.
    pub target_in_range: bool,
    /// Whether the target was taken from the nearest enemy during this evaluation.
    pub target_from_nearest: bool,
    /// Nearest visible enemy entity (if any).
    pub nearest_enemy: Option<Entity>,
    /// Whether the nearest enemy is within vision range.
    pub enemy_in_vision: bool,
    /// Whether the nearest enemy is within attack range.
    pub nearest_in_range: bool,
    /// Friendly influence exceeds threat influence at the unit's tile.
    pub friendly_advantage: bool,
    /// Threat exceeds 1.5 times friendly influence and 5 at the unit's tile.
    pub in_danger: bool,
    /// Assigned position, if any: whether it is more than 2 tiles away.
    pub assigned: Option<bool>,
    /// Orders given during evaluation, in order.
    pub orders: Vec<BtOrder>,
}

impl BtFacts {
    /// Facts of a unit at full health that knows of no target, enemy or
    /// assigned position, and has given no order.
    pub fn new(entity: Entity) -> (f: Self)
        ensures
            f.entity == entity,
            f.health_pct == 100,
            f.target is None,
            !f.target_alive,
            !f.target_in_range,
            !f.target_from_nearest,
            f.nearest_enemy is None,
            !f.enemy_in_vision,
            !f.nearest_in_range,
            !f.friendly_advantage,
            !f.in_danger,
            f.assigned is None,
            f.orders@ == Seq::<BtOrder>::empty(),
    {
        BtFacts {
            entity,
            health_pct: 100,
            target: None,
            target_alive: false,
            target_in_range: false,
            target_from_nearest: false,
            nearest_enemy: None,
            enemy_in_vision: false,
            nearest_in_range: false,
            friendly_advantage: false,
            in_danger: false,
            assigned: None,
            orders: Vec::new(),
        }
    }
}

/// Part of the facts that leaves change: target, target liveness, target
/// range, whether the target came from the nearest enemy, orders given.
pub type LeafState = (Option<Entity>, bool, bool, bool, Seq<BtOrder>);

pub open spec fn leaf_state(f: &BtFacts) -> LeafState {
    (f.target, f.target_alive, f.target_in_range, f.target_from_nearest, f.orders@)
}

/// Facts that no leaf changes: health, nearest enemy, whether it is in
/// vision and in attack range, friendly advantage, danger, assigned position.
pub type FixedFacts = (u8, Option<Entity>, bool, bool, bool, bool, Option<bool>);

pub open spec fn fixed_facts(f: &BtFacts) -> FixedFacts {
    (
        f.health_pct,
        f.nearest_enemy,
        f.enemy_in_vision,
        f.nearest_in_range,
        f.friendly_advantage,
        f.in_danger,
        f.assigned,
    )
}

/// The facts that no leaf changes are the same in `a` and `b`.
pub open spec fn same_fixed_facts(a: &BtFacts, b: &BtFacts) -> bool {
    &&& a.entity == b.entity
    &&& fixed_facts(a) == fixed_facts(b)
}

/// Whether a condition holds.
pub open spec fn condition_holds(f: FixedFacts, m: LeafState, c: ConditionId) -> bool {
    match c {
        ConditionId::HasTarget => m.0 is Some,
        ConditionId::TargetInRange => m.0 is Some && m.2,
        ConditionId::TargetAlive => m.0 is Some && m.1,
        ConditionId::HealthBelowPercent(threshold) => f.0 < threshold,
        ConditionId::EnemyInVisionRange => f.1 is Some && f.2,
        ConditionId::FriendlyStrengthAdvantage => f.4,
        ConditionId::InDangerZone => f.5,
        ConditionId::HealthAboveHalf => f.0 > 50,
    }
}

/// Status of an action and the leaf state after it.
pub open spec fn action_outcome(f: FixedFacts, m: LeafState, a: ActionId) -> (BtStatus, LeafState) {
    match a {
        ActionId::AcquireNearestTarget => match f.1 {
            Some(enemy) => (BtStatus::Success, (Some(enemy), true, f.3, true, m.4)),
            None => (BtStatus::Failure, m),
        },
        ActionId::AttackTarget => match m.0 {
            Some(target) => (BtStatus::Success, (m.0, m.1, m.2, m.3, m.4.push(BtOrder::Attack { target }))),
            None => (BtStatus::Failure, m),
        },
        ActionId::ChaseTarget => if m.0 is Some {
            (BtStatus::Running, (m.0, m.1, m.2, m.3, m.4.push(BtOrder::MoveToTarget { nearest: m.3 })))
        } else {
            (BtStatus::Failure, m)
        },
        ActionId::Retreat => (BtStatus::Running, (m.0, m.1, m.2, m.3, m.4.push(BtOrder::Retreat))),
        ActionId::FleeToCommandPost => (
            BtStatus::Running,
            (m.0, m.1, m.2, m.3, m.4.push(BtOrder::FleeToCommandPost)),
        ),
        ActionId::IdleGuard => (BtStatus::Success, m),
        ActionId::HoldPosition => (BtStatus::Success, (m.0, m.1, m.2, m.3, m.4.push(BtOrder::Stop))),
        ActionId::MoveToAssignedPosition => match f.6 {
            Some(far) => if far {
                (BtStatus::Running, (m.0, m.1, m.2, m.3, m.4.push(BtOrder::MoveToAssigned)))
            } else {
                (BtStatus::Success, m)
            },
            None => (BtStatus::Failure, m),
        },
    }
}

/// `r` ranks the nodes so that every child inside the array ranks below its parent.
pub open spec fn ranked(t: BehaviorTree, r: spec_fn(int) -> nat) -> bool {
    forall|i: int, k: int|
        0 <= i < t.nodes@.len() && 0 <= k < node_children(t.nodes@[i]).len() && #[trigger] node_children(
            t.nodes@[i],
        )[k] < t.nodes@.len() ==> r(node_children(t.nodes@[i])[k] as int) < r(i)
}

/// The nodes form no cycle (children outside the array just fail).
pub open spec fn acyclic(t: BehaviorTree) -> bool {
    exists|r: spec_fn(int) -> nat| ranked(t, r)
}

pub open spec fn rank(t: BehaviorTree) -> spec_fn(int) -> nat {
    choose|r: spec_fn(int) -> nat| ranked(t, r)
}

/// Number of children of node `i` (0 outside the array).
pub open spec fn child_count(t: BehaviorTree, i: int) -> int {
    if 0 <= i < t.nodes@.len() {
        node_children(t.nodes@[i]).len() as int
    } else {
        0
    }
}

/// Result of evaluating node `node`: status, running node and leaf state.
pub open spec fn eval(t: BehaviorTree, f: FixedFacts, node: int, running: Option<usize>, m: LeafState) -> (
    BtStatus,
    Option<usize>,
    LeafState,
)
    decreases rank(t)(node), child_count(t, node) + 1,
{
    if node < 0 || node >= t.nodes@.len() {
        (BtStatus::Failure, running, m)
    } else {
        match t.nodes@[node] {
            BtNode::Sequence { children } => eval_list(t, f, node, 0, true, running, m),
            BtNode::Selector { children } => eval_list(t, f, node, 0, false, running, m),
            BtNode::Inverter { child } => {
                let (s, r, m2) = eval_child(t, f, node, child as int, running, m);
                (
                    match s {
                        BtStatus::Success => BtStatus::Failure,
                        BtStatus::Failure => BtStatus::Success,
                        BtStatus::Running => BtStatus::Running,
                    },
                    r,
                    m2,
                )
            },
            BtNode::Succeeder { child } => {
                let (s, r, m2) = eval_child(t, f, node, child as int, running, m);
                (
                    if s is Running {
                        BtStatus::Running
                    } else {
                        BtStatus::Success
                    },
                    r,
                    m2,
                )
            },
            BtNode::Condition { condition_id } => (
                if condition_holds(f, m, condition_id) {
                    BtStatus::Success
                } else {
                    BtStatus::Failure
                },
                running,
                m,
            ),
            BtNode::Action { action_id } => {
                let (s, m2) = action_outcome(f, m, action_id);
                (s, running, m2)
            },
        }
    }
}

/// Evaluation of `child` on behalf of `parent`: a child outside the array
/// fails (and so would one ranked no lower than its parent, which an
/// acyclic tree does not have).
pub open spec fn eval_child(
    t: BehaviorTree,
    f: FixedFacts,
    parent: int,
    child: int,
    running: Option<usize>,
    m: LeafState,
) -> (BtStatus, Option<usize>, LeafState)
    decreases rank(t)(parent), 0int,
{
    if 0 <= child < t.nodes@.len() && rank(t)(child) < rank(t)(parent) {
        eval(t, f, child, running, m)
    } else {
        (BtStatus::Failure, running, m)
    }
}

/// Evaluation of the children of `node` from the `k`-th on, as a sequence
/// (`all`) or a selector.
pub open spec fn eval_list(
    t: BehaviorTree,
    f: FixedFacts,
    node: int,
    k: int,
    all: bool,
    running: Option<usize>,
    m: LeafState,
) -> (BtStatus, Option<usize>, LeafState)
    decreases rank(t)(node), child_count(t, node) - k,
{
    if k < 0 || k >= child_count(t, node) {
        (
            if all {
                BtStatus::Success
            } else {
                BtStatus::Failure
            },
            running,
            m,
        )
    } else {
        let c = node_children(t.nodes@[node])[k];
        let (s, r, m2) = eval_child(t, f, node, c as int, running, m);
        if s is Running {
            (BtStatus::Running, Some(c), m2)
        } else if (all && s is Failure) || (!all && s is Success) {
            (s, r, m2)
        } else {
            eval_list(t, f, node, k + 1, all, r, m2)
        }
    }
}

/// Evaluation of a child by its parent, in an acyclic tree: the child's own
/// evaluation when it is in the array, failure (with nothing changed) when
/// it is not.
pub open spec fn child_result(t: BehaviorTree, f: FixedFacts, c: int, running: Option<usize>, m: LeafState) -> (
    BtStatus,
    Option<usize>,
    LeafState,
) {
    if 0 <= c < t.nodes@.len() {
        eval(t, f, c, running, m)
    } else {
        (BtStatus::Failure, running, m)
    }
}

/// In an acyclic tree a parent evaluates a child exactly as the child
/// evaluates on its own.
pub proof fn lemma_eval_child_is_child_result(
    t: BehaviorTree,
    f: FixedFacts,
    parent: int,
    k: int,
    running: Option<usize>,
    m: LeafState,
)
    requires
        acyclic(t),
        0 <= parent < t.nodes@.len(),
        0 <= k < node_children(t.nodes@[parent]).len(),
    ensures
        eval_child(t, f, parent, node_children(t.nodes@[parent])[k] as int, running, m) == child_result(
            t,
            f,
            node_children(t.nodes@[parent])[k] as int,
            running,
            m,
        ),
{
    let r = rank(t);
    assert(ranked(t, r));
    let c = node_children(t.nodes@[parent])[k];
    if c < t.nodes@.len() {
        assert(r(c as int) < r(parent));
    }
}

/// Sequence and selector nodes run their children in order, each child
/// starting from the state the previous one left. A child that is Running
/// makes the node Running and becomes the running node. In a sequence
/// (`all`) the first Failure, in a selector the first Success, is the node's
/// result, and no later child is evaluated; otherwise the next child runs.
pub proof fn law_composite_runs_children_in_order(
    t: BehaviorTree,
    f: FixedFacts,
    node: int,
    k: int,
    all: bool,
    running: Option<usize>,
    m: LeafState,
)
    requires
        acyclic(t),
        0 <= node < t.nodes@.len(),
        0 <= k < child_count(t, node),
    ensures
        ({
            let c = node_children(t.nodes@[node])[k];
            let (s, r, m2) = child_result(t, f, c as int, running, m);
            eval_list(t, f, node, k, all, running, m) == if s is Running {
                (BtStatus::Running, Some(c), m2)
            } else if (all && s is Failure) || (!all && s is Success) {
                (s, r, m2)
            } else {
                eval_list(t, f, node, k + 1, all, r, m2)
            }
        }),
{
    lemma_eval_child_is_child_result(t, f, node, k, running, m);
}

/// When every child has passed, a sequence succeeds and a selector fails.
pub proof fn law_composite_after_last_child(
    t: BehaviorTree,
    f: FixedFacts,
    node: int,
    all: bool,
    running: Option<usize>,
    m: LeafState,
)
    requires
        0 <= node < t.nodes@.len(),
    ensures
        eval_list(t, f, node, child_count(t, node), all, running, m) == (
            if all {
                BtStatus::Success
            } else {
                BtStatus::Failure
            },
            running,
            m,
        ),
{
}

/// A node outside the array fails and changes nothing; a sequence and a
/// selector evaluate their children from the first; an inverter swaps
/// Success and Failure of its child and keeps Running; a succeeder succeeds
/// unless its child is Running.
pub proof fn law_node_semantics(t: BehaviorTree, f: FixedFacts, node: int, running: Option<usize>, m: LeafState)
    requires
        acyclic(t),
    ensures
        !(0 <= node < t.nodes@.len()) ==> eval(t, f, node, running, m) == (BtStatus::Failure, running, m),
        0 <= node < t.nodes@.len() ==> match t.nodes@[node] {
            BtNode::Sequence { .. } => eval(t, f, node, running, m) == eval_list(t, f, node, 0, true, running, m),
            BtNode::Selector { .. } => eval(t, f, node, running, m) == eval_list(t, f, node, 0, false, running, m),
            BtNode::Inverter { child } => {
                let (s, r, m2) = child_result(t, f, child as int, running, m);
                eval(t, f, node, running, m) == (
                    match s {
                        BtStatus::Success => BtStatus::Failure,
                        BtStatus::Failure => BtStatus::Success,
                        BtStatus::Running => BtStatus::Running,
                    },
                    r,
                    m2,
                )
            },
            BtNode::Succeeder { child } => {
                let (s, r, m2) = child_result(t, f, child as int, running, m);
                eval(t, f, node, running, m) == (
                    if s is Running {
                        BtStatus::Running
                    } else {
                        BtStatus::Success
                    },
                    r,
                    m2,
                )
            },
            _ => true,
        },
{
    if 0 <= node < t.nodes@.len() {
        match t.nodes@[node] {
            BtNode::Inverter { child } => {
                assert(node_children(t.nodes@[node])[0] == child);
                lemma_eval_child_is_child_result(t, f, node, 0, running, m);
            },
            BtNode::Succeeder { child } => {
                assert(node_children(t.nodes@[node])[0] == child);
                lemma_eval_child_is_child_result(t, f, node, 0, running, m);
            },
            _ => {},
        }
    }
}

/// Evaluate a condition node against the facts.
fn evaluate_condition(condition: ConditionId, ctx: &BtFacts) -> (s: BtStatus)
    ensures
        s == (if condition_holds(fixed_facts(ctx), leaf_state(ctx), condition) {
            BtStatus::Success
        } else {
            BtStatus::Failure
        }),
{
    let result = match condition {
        ConditionId::HasTarget => ctx.target.is_some(),
        ConditionId::TargetInRange => ctx.target.is_some() && ctx.target_in_range,
        ConditionId::TargetAlive => ctx.target.is_some() && ctx.target_alive,
        ConditionId::HealthBelowPercent(threshold) => ctx.health_pct < threshold,
        ConditionId::EnemyInVisionRange => ctx.nearest_enemy.is_some() && ctx.enemy_in_vision,
        ConditionId::FriendlyStrengthAdvantage => ctx.friendly_advantage,
        ConditionId::InDangerZone => ctx.in_danger,
        ConditionId::HealthAboveHalf => ctx.health_pct > 50,
    };
    if result {
        BtStatus::Success
    } else {
        BtStatus::Failure
    }
}

/// Execute an action: update the facts and record its order, if any.
fn evaluate_action(action: ActionId, ctx: &mut BtFacts) -> (s: BtStatus)
    ensures
        same_fixed_facts(old(ctx), final(ctx)),
        (s, leaf_state(final(ctx))) == action_outcome(fixed_facts(old(ctx)), leaf_state(old(ctx)), action),
{
    match action {
        ActionId::AcquireNearestTarget => {
            if let Some(enemy) = ctx.nearest_enemy {
                ctx.target = Some(enemy);
                ctx.target_alive = true;
                ctx.target_in_range = ctx.nearest_in_range;
                ctx.target_from_nearest = true;
                BtStatus::Success
            } else {
                BtStatus::Failure
            }
        },
        ActionId::AttackTarget => {
            if let Some(target) = ctx.target {
                ctx.orders.push(BtOrder::Attack { target });
                BtStatus::Success
            } else {
                BtStatus::Failure
            }
        },
        ActionId::ChaseTarget => {
            if ctx.target.is_some() {
                let nearest = ctx.target_from_nearest;
                ctx.orders.push(BtOrder::MoveToTarget { nearest });
                BtStatus::Running
            } else {
                BtStatus::Failure
            }
        },
        ActionId::Retreat => {
            ctx.orders.push(BtOrder::Retreat);
            BtStatus::Running
        },
        ActionId::FleeToCommandPost => {
            ctx.orders.push(BtOrder::FleeToCommandPost);
            BtStatus::Running
        },
        ActionId::IdleGuard => {
            // Do nothing actively — just succeed to indicate we're in idle state
            BtStatus::Success
        },
        ActionId::HoldPosition => {
            ctx.orders.push(BtOrder::Stop);
            BtStatus::Success
        },
        ActionId::MoveToAssignedPosition => {
            match ctx.assigned {
                Some(far) => {
                    if far {
                        ctx.orders.push(BtOrder::MoveToAssigned);
                        BtStatus::Running
                    } else {
                        BtStatus::Success
                    }
                },
                None => BtStatus::Failure,
            }
        },
    }
}

/// Evaluate a behavior tree node recursively.
pub fn evaluate(tree: &BehaviorTree, node_index: usize, state: &mut BtState, ctx: &mut BtFacts) -> (s:
    BtStatus)
    requires
        acyclic(*tree),
    ensures
        same_fixed_facts(old(ctx), final(ctx)),
        (s, final(state).running_node, leaf_state(final(ctx))) == eval(
            *tree,
            fixed_facts(old(ctx)),
            node_index as int,
            old(state).running_node,
            leaf_state(old(ctx)),
        ),
    decreases rank(*tree)(node_index as int), child_count(*tree, node_index as int) + 1,
{
    if node_index >= tree.nodes.len() {
        return BtStatus::Failure;
    }
    let ghost t = *tree;
    let ghost f0 = *ctx;
    proof {
        let r = rank(t);
        assert(ranked(t, r));
    }
    match &tree.nodes[node_index] {
        BtNode::Sequence { children } => {
            evaluate_list(tree, node_index, children, true, state, ctx)
        },
        BtNode::Selector { children } => {
            evaluate_list(tree, node_index, children, false, state, ctx)
        },
        BtNode::Inverter { child } => {
            assert(node_children(tree.nodes@[node_index as int])[0] == *child);
            let result = evaluate_child(tree, node_index, *child, state, ctx);
            match result {
                BtStatus::Success => BtStatus::Failure,
                BtStatus::Failure => BtStatus::Success,
                BtStatus::Running => BtStatus::Running,
            }
        },
        BtNode::Succeeder { child } => {
            assert(node_children(tree.nodes@[node_index as int])[0] == *child);
            let result = evaluate_child(tree, node_index, *child, state, ctx);
            match result {
                BtStatus::Running => BtStatus::Running,
                _ => BtStatus::Success,
            }
        },
        BtNode::Condition { condition_id } => evaluate_condition(*condition_id, ctx),
        BtNode::Action { action_id } => evaluate_action(*action_id, ctx),
    }
}

/// Evaluates child `child` of node `parent` (a child outside the array fails).
fn evaluate_child(
    tree: &BehaviorTree,
    parent: usize,
    child: usize,
    state: &mut BtState,
    ctx: &mut BtFacts,
) -> (s: BtStatus)
    requires
        acyclic(*tree),
        parent < tree.nodes@.len(),
        exists|k: int|
            0 <= k < node_children(tree.nodes@[parent as int]).len() && #[trigger] node_children(
                tree.nodes@[parent as int],
            )[k] == child,
    ensures
        same_fixed_facts(old(ctx), final(ctx)),
        (s, final(state).running_node, leaf_state(final(ctx))) == eval_child(
            *tree,
            fixed_facts(old(ctx)),
            parent as int,
            child as int,
            old(state).running_node,
            leaf_state(old(ctx)),
        ),
    decreases rank(*tree)(parent as int), 0int,
{
    if child >= tree.nodes.len() {
        return BtStatus::Failure;
    }
    proof {
        let r = rank(*tree);
        assert(ranked(*tree, r));
        let k = choose|k: int|
            0 <= k < node_children(tree.nodes@[parent as int]).len() && #[trigger] node_children(
                tree.nodes@[parent as int],
            )[k] == child;
        assert(node_children(tree.nodes@[parent as int])[k] < tree.nodes@.len());
    }
    evaluate(tree, child, state, ctx)
}

/// Evaluates the children of `node` in order, as a sequence (`all`) or a selector.
fn evaluate_list(
    tree: &BehaviorTree,
    node: usize,
    children: &Vec<usize>,
    all: bool,
    state: &mut BtState,
    ctx: &mut BtFacts,
) -> (s: BtStatus)
    requires
        acyclic(*tree),
        node < tree.nodes@.len(),
        children@ == node_children(tree.nodes@[node as int]),
    ensures
        same_fixed_facts(old(ctx), final(ctx)),
        (s, final(state).running_node, leaf_state(final(ctx))) == eval_list(
            *tree,
            fixed_facts(old(ctx)),
            node as int,
            0,
            all,
            old(state).running_node,
            leaf_state(old(ctx)),
        ),
    decreases rank(*tree)(node as int), child_count(*tree, node as int),
{
    let ghost t = *tree;
    let ghost fx = fixed_facts(ctx);
    let ghost goal = eval_list(t, fx, node as int, 0, all, state.running_node, leaf_state(ctx));
    let n = children.len();
    let mut k: usize = 0;
    while k < n
        invariant
            acyclic(t),
            t == *tree,
            node < t.nodes@.len(),
            children@ == node_children(t.nodes@[node as int]),
            n == children@.len(),
            k <= n,
            fixed_facts(ctx) == fx,
            ctx.entity == old(ctx).entity,
            fx == fixed_facts(old(ctx)),
            goal == eval_list(t, fx, node as int, k as int, all, state.running_node, leaf_state(ctx)),
            goal == eval_list(
                t,
                fixed_facts(old(ctx)),
                node as int,
                0,
                all,
                old(state).running_node,
                leaf_state(old(ctx)),
            ),
        decreases n - k,
    {
        let child = children[k];
        let ghost run0 = state.running_node;
        let ghost m0 = leaf_state(ctx);
        assert(node_children(t.nodes@[node as int])[k as int] == child);
        let result = evaluate_child(tree, node, child, state, ctx);
        assert(child_count(t, node as int) == n);
        assert(goal == eval_list(t, fx, node as int, k as int, all, run0, m0));
        if result == BtStatus::Running {
            state.running_node = Some(child);
            return BtStatus::Running;
        }
        if all && result == BtStatus::Failure {
            return BtStatus::Failure;
        }
        if !all && result == BtStatus::Success {
            return BtStatus::Success;
        }
        k += 1;
    }
    if all {
        BtStatus::Success
    } else {
        BtStatus::Failure
    }
}

/// A tree whose children are stored before their parents has no cycle.
pub proof fn lemma_children_precede_acyclic(t: BehaviorTree)
    requires
        children_precede(t),
    ensures
        acyclic(t),
{
    let r = |i: int| if i >= 0 {
        i as nat
    } else {
        0nat
    };
    assert(ranked(t, r));
}

/// Evaluating a node never withdraws or reorders the orders already given:
/// it can only append to them.
pub proof fn law_orders_only_appended(
    t: BehaviorTree,
    f: FixedFacts,
    node: int,
    running: Option<usize>,
    m: LeafState,
)
    ensures
        m.4.is_prefix_of(eval(t, f, node, running, m).2.4),
    decreases rank(t)(node), child_count(t, node) + 1,
{
    if 0 <= node < t.nodes@.len() {
        match t.nodes@[node] {
            BtNode::Sequence { children } => lemma_list_appends(t, f, node, 0, true, running, m),
            BtNode::Selector { children } => lemma_list_appends(t, f, node, 0, false, running, m),
            BtNode::Inverter { child } => lemma_child_appends(t, f, node, child as int, running, m),
            BtNode::Succeeder { child } => lemma_child_appends(t, f, node, child as int, running, m),
            BtNode::Condition { condition_id } => {},
            BtNode::Action { action_id } => lemma_action_appends(f, m, action_id),
        }
    }
}

proof fn lemma_action_appends(f: FixedFacts, m: LeafState, a: ActionId)
    ensures
        m.4.is_prefix_of(action_outcome(f, m, a).1.4),
{
    let out = action_outcome(f, m, a).1.4;
    if out.len() > m.4.len() {
        assert(out.subrange(0, m.4.len() as int) =~= m.4);
    } else {
        assert(out =~= m.4);
        assert(out.subrange(0, m.4.len() as int) =~= m.4);
    }
}

proof fn lemma_child_appends(
    t: BehaviorTree,
    f: FixedFacts,
    parent: int,
    child: int,
    running: Option<usize>,
    m: LeafState,
)
    ensures
        m.4.is_prefix_of(eval_child(t, f, parent, child, running, m).2.4),
    decreases rank(t)(parent), 0int,
{
    if 0 <= child < t.nodes@.len() && rank(t)(child) < rank(t)(parent) {
        law_orders_only_appended(t, f, child, running, m);
    } else {
        assert(m.4.subrange(0, m.4.len() as int) =~= m.4);
    }
}

proof fn lemma_list_appends(
    t: BehaviorTree,
    f: FixedFacts,
    node: int,
    k: int,
    all: bool,
    running: Option<usize>,
    m: LeafState,
)
    ensures
        m.4.is_prefix_of(eval_list(t, f, node, k, all, running, m).2.4),
    decreases rank(t)(node), child_count(t, node) - k,
{
    if k < 0 || k >= child_count(t, node) {
        assert(m.4.subrange(0, m.4.len() as int) =~= m.4);
    } else {
        let c = node_children(t.nodes@[node])[k];
        let (s, r, m2) = eval_child(t, f, node, c as int, running, m);
        lemma_child_appends(t, f, node, c as int, running, m);
        if !(s is Running) && !((all && s is Failure) || (!all && s is Success)) {
            lemma_list_appends(t, f, node, k + 1, all, r, m2);
            let out = eval_list(t, f, node, k + 1, all, r, m2).2.4;
            assert(out.subrange(0, m.4.len() as int) =~= m2.4.subrange(0, m.4.len() as int)) by {
                assert forall|j: int| 0 <= j < m.4.len() implies out[j] == m2.4[j] by {
                    assert(out.subrange(0, m2.4.len() as int)[j] == m2.4[j]);
                }
            }
        }
    }
}

/// `m` with `order` appended to its orders.
pub open spec fn with_order(m: LeafState, order: BtOrder) -> LeafState {
    (m.0, m.1, m.2, m.3, m.4.push(order))
}

/// What the standard combat tree does, by its priorities: flee to the Command
/// Post below 25% health; retreat when in danger below 50% health; attack a
/// live target in range; chase a live target out of range; acquire the
/// nearest visible enemy and attack it; move to a distant assigned position
/// (succeed when already there); otherwise stand guard.
pub open spec fn combat_outcome(f: FixedFacts, running: Option<usize>, m: LeafState) -> (
    BtStatus,
    Option<usize>,
    LeafState,
) {
    let health = f.0;
    if health < 25 {
        (BtStatus::Running, Some(17usize), with_order(m, BtOrder::FleeToCommandPost))
    } else if f.5 && health < 50 {
        (BtStatus::Running, Some(18usize), with_order(m, BtOrder::Retreat))
    } else if m.0 is Some && m.1 && m.2 {
        (BtStatus::Success, running, with_order(m, BtOrder::Attack { target: m.0.unwrap() }))
    } else if m.0 is Some && m.1 {
        (BtStatus::Running, Some(20usize), with_order(m, BtOrder::MoveToTarget { nearest: m.3 }))
    } else if f.1 is Some && f.2 {
        let enemy = f.1.unwrap();
        (
            BtStatus::Success,
            running,
            (Some(enemy), true, f.3, true, m.4.push(BtOrder::Attack { target: enemy })),
        )
    } else if f.6 == Some(true) {
        (BtStatus::Running, Some(15usize), with_order(m, BtOrder::MoveToAssigned))
    } else {
        (BtStatus::Success, running, m)
    }
}

/// The combat tree stores every child before its parent.
pub proof fn lemma_combat_tree_precedes(t: BehaviorTree)
    requires
        is_combat_tree(t),
    ensures
        children_precede(t),
        acyclic(t),
{
    assert forall|i: int, k: int|
        0 <= i < t.nodes@.len() && 0 <= k < node_children(t.nodes@[i]).len()
        implies #[trigger] node_children(t.nodes@[i])[k] < i by {
        if i >= 17 {
            assert(node_children(t.nodes@[i])[k] < 23);
        }
    }
    lemma_children_precede_acyclic(t);
}

/// Child `k` of node `i` ranks below it.
proof fn lemma_edge(t: BehaviorTree, i: int, k: int)
    requires
        acyclic(t),
        0 <= i < t.nodes@.len(),
        0 <= k < node_children(t.nodes@[i]).len(),
        node_children(t.nodes@[i])[k] < t.nodes@.len(),
    ensures
        rank(t)(node_children(t.nodes@[i])[k] as int) < rank(t)(i),
{
    assert(ranked(t, rank(t)));
}

/// One step of the evaluation of the children of `node`, from the `k`-th.
proof fn lemma_list_step(
    t: BehaviorTree,
    f: FixedFacts,
    node: int,
    k: int,
    all: bool,
    running: Option<usize>,
    m: LeafState,
)
    requires
        acyclic(t),
        0 <= node < t.nodes@.len(),
        0 <= k < node_children(t.nodes@[node]).len(),
        node_children(t.nodes@[node])[k] < t.nodes@.len(),
    ensures
        eval_list(t, f, node, k, all, running, m) == {
            let c = node_children(t.nodes@[node])[k];
            let e = eval(t, f, c as int, running, m);
            if e.0 is Running {
                (BtStatus::Running, Some(c), e.2)
            } else if (all && e.0 is Failure) || (!all && e.0 is Success) {
                e
            } else {
                eval_list(t, f, node, k + 1, all, e.1, e.2)
            }
        },
{
    lemma_edge(t, node, k);
    let c = node_children(t.nodes@[node])[k];
    assert(eval_child(t, f, node, c as int, running, m) == eval(t, f, c as int, running, m));
}

/// The critical retreat branch (node 17): flee below 25% health.
proof fn lemma_branch_flee(t: BehaviorTree, f: FixedFacts, running: Option<usize>, m: LeafState)
    requires
        is_combat_tree(t),
        acyclic(t),
    ensures
        eval(t, f, 17, running, m) == if f.0 < 25 {
            (BtStatus::Running, Some(1usize), with_order(m, BtOrder::FleeToCommandPost))
        } else {
            (BtStatus::Failure, running, m)
        },
{
    assert(eval(t, f, 17, running, m) == eval_list(t, f, 17, 0, true, running, m));
    lemma_list_step(t, f, 17, 0, true, running, m);
    if f.0 < 25 {
        lemma_list_step(t, f, 17, 1, true, running, m);
    }
}

/// The danger retreat branch (node 18): retreat when in danger below 50% health.
proof fn lemma_branch_retreat(t: BehaviorTree, f: FixedFacts, running: Option<usize>, m: LeafState)
    requires
        is_combat_tree(t),
        acyclic(t),
    ensures
        eval(t, f, 18, running, m) == if f.5 && f.0 < 50 {
            (BtStatus::Running, Some(4usize), with_order(m, BtOrder::Retreat))
        } else {
            (BtStatus::Failure, running, m)
        },
{
    assert(eval(t, f, 18, running, m) == eval_list(t, f, 18, 0, true, running, m));
    lemma_list_step(t, f, 18, 0, true, running, m);
    if f.5 {
        lemma_list_step(t, f, 18, 1, true, running, m);
        if f.0 < 50 {
            lemma_list_step(t, f, 18, 2, true, running, m);
        }
    }
}

/// The attack branch (node 19): attack a live target in range.
proof fn lemma_branch_attack(t: BehaviorTree, f: FixedFacts, running: Option<usize>, m: LeafState)
    requires
        is_combat_tree(t),
        acyclic(t),
    ensures
        eval(t, f, 19, running, m) == if m.0 is Some && m.1 && m.2 {
            (BtStatus::Success, running, with_order(m, BtOrder::Attack { target: m.0.unwrap() }))
        } else {
            (BtStatus::Failure, running, m)
        },
{
    assert(eval(t, f, 19, running, m) == eval_list(t, f, 19, 0, true, running, m));
    lemma_list_step(t, f, 19, 0, true, running, m);
    if m.0 is Some {
        lemma_list_step(t, f, 19, 1, true, running, m);
        if m.1 {
            lemma_list_step(t, f, 19, 2, true, running, m);
            if m.2 {
                lemma_list_step(t, f, 19, 3, true, running, m);
                let m2 = with_order(m, BtOrder::Attack { target: m.0.unwrap() });
                assert(eval_list(t, f, 19, 4, true, running, m2) == (BtStatus::Success, running, m2));
            }
        }
    }
}

/// The chase branch (node 20): chase a live target.
proof fn lemma_branch_chase(t: BehaviorTree, f: FixedFacts, running: Option<usize>, m: LeafState)
    requires
        is_combat_tree(t),
        acyclic(t),
    ensures
        eval(t, f, 20, running, m) == if m.0 is Some && m.1 {
            (BtStatus::Running, Some(11usize), with_order(m, BtOrder::MoveToTarget { nearest: m.3 }))
        } else {
            (BtStatus::Failure, running, m)
        },
{
    assert(eval(t, f, 20, running, m) == eval_list(t, f, 20, 0, true, running, m));
    lemma_list_step(t, f, 20, 0, true, running, m);
    if m.0 is Some {
        lemma_list_step(t, f, 20, 1, true, running, m);
        if m.1 {
            lemma_list_step(t, f, 20, 2, true, running, m);
        }
    }
}

/// The acquisition branch (node 21): take the nearest visible enemy as
/// target and attack it.
proof fn lemma_branch_acquire(t: BehaviorTree, f: FixedFacts, running: Option<usize>, m: LeafState)
    requires
        is_combat_tree(t),
        acyclic(t),
    ensures
        eval(t, f, 21, running, m) == if f.1 is Some && f.2 {
            (
                BtStatus::Success,
                running,
                (f.1, true, f.3, true, m.4.push(BtOrder::Attack { target: f.1.unwrap() })),
            )
        } else {
            (BtStatus::Failure, running, m)
        },
{
    assert(eval(t, f, 21, running, m) == eval_list(t, f, 21, 0, true, running, m));
    lemma_list_step(t, f, 21, 0, true, running, m);
    if f.1 is Some && f.2 {
        lemma_list_step(t, f, 21, 1, true, running, m);
        let acquired: LeafState = (f.1, true, f.3, true, m.4);
        lemma_list_step(t, f, 21, 2, true, running, acquired);
        let m2 = (f.1, true, f.3, true, m.4.push(BtOrder::Attack { target: f.1.unwrap() }));
        assert(eval_list(t, f, 21, 3, true, running, m2) == (BtStatus::Success, running, m2));
    }
}

/// The standard combat tree acts by its documented priorities (see
/// `combat_outcome`), whatever the facts and the earlier running node.
pub proof fn law_combat_tree_priorities(t: BehaviorTree, f: FixedFacts, running: Option<usize>, m: LeafState)
    requires
        is_combat_tree(t),
    ensures
        eval(t, f, 22, running, m) == combat_outcome(f, running, m),
{
    lemma_combat_tree_precedes(t);
    lemma_branch_flee(t, f, running, m);
    lemma_branch_retreat(t, f, running, m);
    lemma_branch_attack(t, f, running, m);
    lemma_branch_chase(t, f, running, m);
    lemma_branch_acquire(t, f, running, m);
    assert(eval(t, f, 22, running, m) == eval_list(t, f, 22, 0, false, running, m));
    lemma_list_step(t, f, 22, 0, false, running, m);
    if f.0 >= 25 {
        lemma_list_step(t, f, 22, 1, false, running, m);
        if !(f.5 && f.0 < 50) {
            lemma_list_step(t, f, 22, 2, false, running, m);
            if !(m.0 is Some && m.1 && m.2) {
                lemma_list_step(t, f, 22, 3, false, running, m);
                if !(m.0 is Some && m.1) {
                    lemma_list_step(t, f, 22, 4, false, running, m);
                    if !(f.1 is Some && f.2) {
                        lemma_list_step(t, f, 22, 5, false, running, m);
                        if f.6 is None {
                            lemma_list_step(t, f, 22, 6, false, running, m);
                        }
                    }
                }
            }
        }
    }
}

} // verus!

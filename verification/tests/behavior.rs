use empire_core::ai::behavior_tree::{
    build_combat_bt, evaluate, ActionId, BehaviorTree, BtFacts, BtNode, BtOrder, BtState, BtStatus,
    ConditionId,
};
use empire_core::ecs::entity::Entity;

fn test_entity() -> Entity {
    Entity::new(1, 0)
}

fn base_context() -> BtFacts {
    BtFacts::new(test_entity())
}

// ---- Basic node tests ----

#[test]
fn test_sequence_all_success() {
    let tree = BehaviorTree {
        nodes: vec![
            BtNode::Condition { condition_id: ConditionId::HealthAboveHalf },
            BtNode::Action { action_id: ActionId::IdleGuard },
            BtNode::Sequence { children: vec![0, 1] },
        ],
        root: 2,
    };
    let mut state = BtState::new();
    let mut ctx = base_context();
    ctx.health_pct = 80;
    let result = evaluate(&tree, tree.root, &mut state, &mut ctx);
    assert_eq!(result, BtStatus::Success);
}

#[test]
fn test_sequence_failure_short_circuits() {
    let tree = BehaviorTree {
        nodes: vec![
            BtNode::Condition { condition_id: ConditionId::HasTarget },
            BtNode::Action { action_id: ActionId::AttackTarget },
            BtNode::Sequence { children: vec![0, 1] },
        ],
        root: 2,
    };
    let mut state = BtState::new();
    let mut ctx = base_context();
    let result = evaluate(&tree, tree.root, &mut state, &mut ctx);
    assert_eq!(result, BtStatus::Failure);
    assert!(ctx.orders.is_empty(), "Attack should not have executed");
}

#[test]
fn test_selector_first_success() {
    let tree = BehaviorTree {
        nodes: vec![
            BtNode::Action { action_id: ActionId::IdleGuard },
            BtNode::Action { action_id: ActionId::HoldPosition },
            BtNode::Selector { children: vec![0, 1] },
        ],
        root: 2,
    };
    let mut state = BtState::new();
    let mut ctx = base_context();
    let result = evaluate(&tree, tree.root, &mut state, &mut ctx);
    assert_eq!(result, BtStatus::Success);
    assert!(ctx.orders.is_empty(), "Only idle should have executed, no orders");
}

#[test]
fn test_selector_all_failure() {
    let tree = BehaviorTree {
        nodes: vec![
            BtNode::Condition { condition_id: ConditionId::HasTarget },
            BtNode::Condition { condition_id: ConditionId::EnemyInVisionRange },
            BtNode::Selector { children: vec![0, 1] },
        ],
        root: 2,
    };
    let mut state = BtState::new();
    let mut ctx = base_context();
    let result = evaluate(&tree, tree.root, &mut state, &mut ctx);
    assert_eq!(result, BtStatus::Failure);
}

#[test]
fn test_inverter() {
    let tree = BehaviorTree {
        nodes: vec![
            BtNode::Condition { condition_id: ConditionId::HasTarget },
            BtNode::Inverter { child: 0 },
        ],
        root: 1,
    };
    let mut state = BtState::new();
    let mut ctx = base_context();
    let result = evaluate(&tree, tree.root, &mut state, &mut ctx);
    assert_eq!(result, BtStatus::Success, "Inverter should turn Failure into Success");
}

#[test]
fn test_succeeder() {
    let tree = BehaviorTree {
        nodes: vec![
            BtNode::Condition { condition_id: ConditionId::HasTarget },
            BtNode::Succeeder { child: 0 },
        ],
        root: 1,
    };
    let mut state = BtState::new();
    let mut ctx = base_context();
    let result = evaluate(&tree, tree.root, &mut state, &mut ctx);
    assert_eq!(result, BtStatus::Success, "Succeeder should turn Failure into Success");
}

// ---- Condition tests ----

#[test]
fn test_condition_has_target() {
    let tree = BehaviorTree {
        nodes: vec![BtNode::Condition { condition_id: ConditionId::HasTarget }],
        root: 0,
    };
    let mut state = BtState::new();
    let mut ctx = base_context();
    assert_eq!(evaluate(&tree, 0, &mut state, &mut ctx), BtStatus::Failure);
    ctx.target = Some(Entity::new(5, 0));
    assert_eq!(evaluate(&tree, 0, &mut state, &mut ctx), BtStatus::Success);
}

#[test]
fn test_condition_target_in_range() {
    let tree = BehaviorTree {
        nodes: vec![BtNode::Condition { condition_id: ConditionId::TargetInRange }],
        root: 0,
    };
    let mut state = BtState::new();
    let mut ctx = base_context();
    ctx.target = Some(Entity::new(5, 0));
    // Distance 3 within range 5.
    ctx.target_in_range = 3.0f32 <= 5.0f32;
    assert_eq!(evaluate(&tree, 0, &mut state, &mut ctx), BtStatus::Success);
    // Distance 7 beyond range 5.
    ctx.target_in_range = 7.0f32 <= 5.0f32;
    assert_eq!(evaluate(&tree, 0, &mut state, &mut ctx), BtStatus::Failure);
}

#[test]
fn test_condition_health_below() {
    let tree = BehaviorTree {
        nodes: vec![BtNode::Condition { condition_id: ConditionId::HealthBelowPercent(50) }],
        root: 0,
    };
    let mut state = BtState::new();
    let mut ctx = base_context();
    ctx.health_pct = 80;
    assert_eq!(evaluate(&tree, 0, &mut state, &mut ctx), BtStatus::Failure);
    ctx.health_pct = 30;
    assert_eq!(evaluate(&tree, 0, &mut state, &mut ctx), BtStatus::Success);
}

// ---- Action tests ----

#[test]
fn test_action_acquire_target() {
    let tree = BehaviorTree {
        nodes: vec![BtNode::Action { action_id: ActionId::AcquireNearestTarget }],
        root: 0,
    };
    let mut state = BtState::new();
    let mut ctx = base_context();
    assert_eq!(evaluate(&tree, 0, &mut state, &mut ctx), BtStatus::Failure);
    let enemy = Entity::new(10, 0);
    ctx.nearest_enemy = Some(enemy);
    // Enemy 5 tiles away, within attack range 5.
    ctx.nearest_in_range = 5.0f32 <= 5.0f32;
    let result = evaluate(&tree, 0, &mut state, &mut ctx);
    assert_eq!(result, BtStatus::Success);
    assert_eq!(ctx.target, Some(enemy));
    assert!(ctx.target_from_nearest);
    assert!(ctx.target_alive);
    assert!(ctx.target_in_range);
}

#[test]
fn test_action_attack_target() {
    let tree = BehaviorTree {
        nodes: vec![BtNode::Action { action_id: ActionId::AttackTarget }],
        root: 0,
    };
    let mut state = BtState::new();
    let mut ctx = base_context();
    let target = Entity::new(5, 0);
    ctx.target = Some(target);
    let result = evaluate(&tree, 0, &mut state, &mut ctx);
    assert_eq!(result, BtStatus::Success);
    assert_eq!(ctx.orders.len(), 1);
    match &ctx.orders[0] {
        BtOrder::Attack { target: t } => assert_eq!(t.raw(), target.raw()),
        _ => panic!("Expected Attack order"),
    }
    assert_eq!(ctx.entity.raw(), test_entity().raw());
}

#[test]
fn test_action_chase_target() {
    let tree = BehaviorTree {
        nodes: vec![BtNode::Action { action_id: ActionId::ChaseTarget }],
        root: 0,
    };
    let mut state = BtState::new();
    let mut ctx = base_context();
    ctx.target = Some(Entity::new(5, 0));
    let result = evaluate(&tree, 0, &mut state, &mut ctx);
    assert_eq!(result, BtStatus::Running);
    assert_eq!(ctx.orders.len(), 1);
    match &ctx.orders[0] {
        BtOrder::MoveToTarget { nearest } => assert!(!nearest),
        _ => panic!("Expected Move order"),
    }
}

#[test]
fn test_action_retreat() {
    let tree = BehaviorTree {
        nodes: vec![BtNode::Action { action_id: ActionId::Retreat }],
        root: 0,
    };
    let mut state = BtState::new();
    let mut ctx = base_context();
    let result = evaluate(&tree, 0, &mut state, &mut ctx);
    assert_eq!(result, BtStatus::Running);
    match &ctx.orders[0] {
        BtOrder::Retreat => {}
        _ => panic!("Expected Move order to safe position"),
    }
}

#[test]
fn test_action_flee_to_cp() {
    let tree = BehaviorTree {
        nodes: vec![BtNode::Action { action_id: ActionId::FleeToCommandPost }],
        root: 0,
    };
    let mut state = BtState::new();
    let mut ctx = base_context();
    let result = evaluate(&tree, 0, &mut state, &mut ctx);
    assert_eq!(result, BtStatus::Running);
    match &ctx.orders[0] {
        BtOrder::FleeToCommandPost => {}
        _ => panic!("Expected Move order to CP"),
    }
}

// ---- Combat tree tests ----

#[test]
fn test_combat_bt_retreat_critical() {
    let bt = build_combat_bt();
    let mut state = BtState::new();
    let mut ctx = base_context();
    ctx.health_pct = 15;
    let result = evaluate(&bt, bt.root, &mut state, &mut ctx);
    assert_eq!(result, BtStatus::Running);
    assert!(!ctx.orders.is_empty(), "Should generate flee order");
    assert_eq!(ctx.orders[0], BtOrder::FleeToCommandPost);
    assert_eq!(state.running_node, Some(17));
}

#[test]
fn test_combat_bt_attack_in_range() {
    let bt = build_combat_bt();
    let mut state = BtState::new();
    let mut ctx = base_context();
    let target = Entity::new(5, 0);
    ctx.target = Some(target);
    ctx.target_alive = true;
    // Distance 3 within attack range 5.
    ctx.target_in_range = 3.0f32 <= 5.0f32;
    let result = evaluate(&bt, bt.root, &mut state, &mut ctx);
    assert_eq!(result, BtStatus::Success);
    assert_eq!(ctx.orders.len(), 1);
    match &ctx.orders[0] {
        BtOrder::Attack { target: t } => assert_eq!(t.raw(), target.raw()),
        _ => panic!("Expected Attack order"),
    }
}

#[test]
fn test_combat_bt_chase() {
    let bt = build_combat_bt();
    let mut state = BtState::new();
    let mut ctx = base_context();
    ctx.target = Some(Entity::new(5, 0));
    ctx.target_alive = true;
    // Distance 8 beyond attack range 5.
    ctx.target_in_range = 8.0f32 <= 5.0f32;
    let result = evaluate(&bt, bt.root, &mut state, &mut ctx);
    assert_eq!(result, BtStatus::Running);
    match &ctx.orders[0] {
        BtOrder::MoveToTarget { nearest } => assert!(!nearest),
        _ => panic!("Expected Move (chase) order"),
    }
    assert_eq!(state.running_node, Some(20));
}

#[test]
fn test_combat_bt_acquire_and_attack() {
    let bt = build_combat_bt();
    let mut state = BtState::new();
    let mut ctx = base_context();
    let enemy = Entity::new(8, 0);
    ctx.nearest_enemy = Some(enemy);
    // Enemy 4 tiles away: within vision 8 and attack range 5.
    ctx.enemy_in_vision = 4.0f32 <= 8.0f32;
    ctx.nearest_in_range = 4.0f32 <= 5.0f32;
    let result = evaluate(&bt, bt.root, &mut state, &mut ctx);
    assert_eq!(result, BtStatus::Success);
    assert_eq!(ctx.target, Some(enemy));
    assert!(!ctx.orders.is_empty());
    match &ctx.orders[0] {
        BtOrder::Attack { target: t } => assert_eq!(t.raw(), enemy.raw()),
        _ => panic!("Expected Attack order after acquire"),
    }
}

#[test]
fn test_combat_bt_idle() {
    let bt = build_combat_bt();
    let mut state = BtState::new();
    let mut ctx = base_context();
    let result = evaluate(&bt, bt.root, &mut state, &mut ctx);
    assert_eq!(result, BtStatus::Success);
    assert!(ctx.orders.is_empty(), "Should have no orders in idle state");
}

#[test]
fn test_combat_bt_move_to_assigned() {
    let bt = build_combat_bt();
    let mut state = BtState::new();
    let mut ctx = base_context();
    // Assigned position (30, 30) is far from (10, 10).
    ctx.assigned = Some(true);
    let result = evaluate(&bt, bt.root, &mut state, &mut ctx);
    assert_eq!(result, BtStatus::Running);
    assert_eq!(ctx.orders[0], BtOrder::MoveToAssigned);
}

// ---- Own tests ----

#[test]
fn combat_tree_danger_retreat_and_priorities() {
    let bt = build_combat_bt();
    // In danger below half health: retreat even with a target in range.
    let mut state = BtState::new();
    let mut ctx = base_context();
    ctx.health_pct = 40;
    ctx.in_danger = true;
    ctx.target = Some(Entity::new(3, 0));
    ctx.target_alive = true;
    ctx.target_in_range = true;
    assert_eq!(evaluate(&bt, bt.root, &mut state, &mut ctx), BtStatus::Running);
    assert_eq!(ctx.orders, vec![BtOrder::Retreat]);
    assert_eq!(state.running_node, Some(18));
    // In danger but healthy: attack instead.
    let mut state = BtState::new();
    ctx.orders.clear();
    ctx.health_pct = 60;
    assert_eq!(evaluate(&bt, bt.root, &mut state, &mut ctx), BtStatus::Success);
    assert_eq!(ctx.orders.len(), 1);
    assert_eq!(state.running_node, None);
}

#[test]
fn combat_tree_assigned_position_reached() {
    let bt = build_combat_bt();
    let mut state = BtState::new();
    let mut ctx = base_context();
    ctx.assigned = Some(false);
    assert_eq!(evaluate(&bt, bt.root, &mut state, &mut ctx), BtStatus::Success);
    assert!(ctx.orders.is_empty());
}

#[test]
fn evaluation_keeps_earlier_orders() {
    let bt = build_combat_bt();
    let mut state = BtState::new();
    let mut ctx = base_context();
    ctx.orders.push(BtOrder::Stop);
    ctx.health_pct = 10;
    assert_eq!(evaluate(&bt, bt.root, &mut state, &mut ctx), BtStatus::Running);
    assert_eq!(ctx.orders, vec![BtOrder::Stop, BtOrder::FleeToCommandPost]);
}

#[test]
fn out_of_range_node_fails() {
    let bt = build_combat_bt();
    let mut state = BtState::new();
    let mut ctx = base_context();
    assert_eq!(evaluate(&bt, 99, &mut state, &mut ctx), BtStatus::Failure);
    let hold = BehaviorTree {
        nodes: vec![BtNode::Action { action_id: ActionId::HoldPosition }, BtNode::Inverter { child: 0 }],
        root: 1,
    };
    assert_eq!(evaluate(&hold, 1, &mut state, &mut ctx), BtStatus::Failure);
    assert_eq!(ctx.orders, vec![BtOrder::Stop]);
}

use empire_core::ai::behavior_tree::{build_combat_bt, ActionId, BtNode, BtState, ConditionId};
use empire_core::ai::campaign_ai::{CampaignAiDifficulty, CampaignAiState, CampaignGoal};
use empire_core::ai::mcts::{concentrate_units, legal_actions, SectorUnitCounts, StrategicAction, TOTAL_SECTORS};
use empire_core::ai::player::AiDifficulty;
use empire_core::ai::tactical::BtTemplates;
use empire_core::blueprints::{production_line, ProductionLine};
use empire_core::campaign::map::SimpleRng;
use empire_core::campaign::research::{has_tech, research_allowed, TechId};
use empire_core::ecs::world::World;
use empire_core::components::{pack_anim_flags, selected_flag, set_selected_flag};
use empire_core::campaign::production::queued_counts_by_type;
use empire_core::hello;
use empire_core::systems::animation::advance_frame;
use empire_core::map::{BattleMap, TerrainType, CLUSTER_KINDS};
use empire_core::cluster::place_cluster;
use empire_core::protocol::MatchConfig;
use empire_core::state_snapshot::{snapshot_fog, snapshot_map_tiles};
use empire_core::systems::capture::CapturePointCounts;
use empire_core::systems::fog::{FogGrid, FOG_EXPLORED, FOG_UNEXPLORED, FOG_VISIBLE};
use empire_core::systems::reinforcement::ReinforcementAvailability;
use empire_core::systems::resource::UIStateBuffer;
use empire_core::targeting::is_attackable_kind;
use empire_core::types::{get_frame_count, AnimState, Direction, SpriteId};

const FRACTIONS: [f32; 6] = [0.15, 0.08, 0.05, 0.05, 0.03, 0.02];

fn generated_map(width: u32, height: u32, seed: u64) -> BattleMap {
    let total = (width * height) as usize;
    let targets: Vec<usize> = FRACTIONS.iter().map(|f| ((total as f32) * f) as usize).collect();
    assert_eq!(targets.len(), CLUSTER_KINDS);
    BattleMap::generate_with_targets(width, height, seed, &targets)
}

#[test]
fn test_ai_difficulty_settings() {
    assert_eq!(AiDifficulty::Easy.mcts_iterations(), 50);
    assert_eq!(AiDifficulty::Normal.mcts_iterations(), 200);
    assert_eq!(AiDifficulty::Hard.mcts_iterations(), 500);

    assert_eq!(AiDifficulty::Easy.tactical_update_interval(), 20);
    assert_eq!(AiDifficulty::Normal.tactical_update_interval(), 5);
    assert_eq!(AiDifficulty::Hard.tactical_update_interval(), 2);
}

#[test]
fn test_easy_vs_hard_difficulty() {
    // Easy AI has fewer iterations
    assert!(AiDifficulty::Easy.mcts_iterations() < AiDifficulty::Hard.mcts_iterations());
    // Easy AI updates less frequently
    assert!(AiDifficulty::Easy.strategic_update_interval() > AiDifficulty::Hard.strategic_update_interval());
    // Easy AI has slower tactical updates
    assert!(AiDifficulty::Easy.tactical_update_interval() > AiDifficulty::Hard.tactical_update_interval());
}

#[test]
fn strategic_interval_values() {
    assert_eq!(AiDifficulty::Easy.strategic_update_interval(), 80);
    assert_eq!(AiDifficulty::Normal.strategic_update_interval(), 40);
    assert_eq!(AiDifficulty::Hard.strategic_update_interval(), 20);
}

#[test]
fn test_production_lines() {
    assert_eq!(production_line(SpriteId::Thrall), Some(ProductionLine::Infantry));
    assert_eq!(production_line(SpriteId::Sentinel), Some(ProductionLine::Infantry));
    assert_eq!(production_line(SpriteId::HoverTank), Some(ProductionLine::Armor));
    assert_eq!(production_line(SpriteId::CommandPost), None);
    assert_eq!(production_line(SpriteId::Node), None);
}

#[test]
fn test_match_config_default() {
    let config = MatchConfig::default();
    assert_eq!(config.map_width, 64);
    assert_eq!(config.map_height, 64);
    assert_eq!(config.player_count, 2);
    assert_eq!(config.tick_rate_ms, 50);
}

#[test]
fn test_fog_starts_unexplored() {
    let grid = FogGrid::new(16, 16, 2);
    for p in 0..2u32 {
        for y in 0..16u32 {
            for x in 0..16u32 {
                assert_eq!(grid.get(p, x, y), FOG_UNEXPLORED);
            }
        }
    }
}

#[test]
fn fog_set_and_out_of_range() {
    let mut grid = FogGrid::new(4, 3, 2);
    grid.set(1, 2, 1, FOG_VISIBLE);
    grid.set(0, 3, 2, FOG_EXPLORED);
    grid.set(2, 0, 0, FOG_VISIBLE); // unknown player: ignored
    grid.set(0, 4, 0, FOG_VISIBLE); // outside: ignored
    assert_eq!(grid.get(1, 2, 1), FOG_VISIBLE);
    assert_eq!(grid.get(0, 2, 1), FOG_UNEXPLORED);
    assert_eq!(grid.get(0, 3, 2), FOG_EXPLORED);
    assert_eq!(grid.get(5, 0, 0), FOG_UNEXPLORED);
    assert_eq!(grid.get(0, 0, 9), FOG_UNEXPLORED);
    assert_eq!(grid.grid_len(), 12);
    assert_eq!(grid.player_snapshot(1)[1 * 4 + 2], FOG_VISIBLE);
    assert!(grid.player_snapshot(2).is_empty());
}

fn snapshot_world() -> World {
    let mut world = World::new();
    world.insert_resource(generated_map(16, 16, 42));
    world.insert_resource(FogGrid::new(16, 16, 2));
    world
}

#[test]
fn test_fog_snapshot() {
    let world = snapshot_world();

    let fog = snapshot_fog(&world, 0);
    assert_eq!(fog.len(), 16 * 16); // map dimensions
}

#[test]
fn test_map_tiles_snapshot() {
    let world = snapshot_world();

    let tiles = snapshot_map_tiles(&world);
    assert_eq!(tiles.len(), 16 * 16);
}

#[test]
fn snapshots_of_an_empty_world_are_empty() {
    let world = World::new();
    assert!(snapshot_fog(&world, 0).is_empty());
    assert!(snapshot_map_tiles(&world).is_empty());
    let world = snapshot_world();
    assert!(snapshot_fog(&world, 2).is_empty());
}

#[test]
fn map_tile_bytes_pack_variant_high() {
    let mut map = BattleMap::new(2, 1);
    map.get_mut(1, 0).terrain = 3;
    map.get_mut(1, 0).sprite_variant = 4;
    let mut world = World::new();
    world.insert_resource(map);
    assert_eq!(snapshot_map_tiles(&world), vec![0u8, 3 | (4 << 4)]);
}

#[test]
fn test_new_map_all_open() {
    let map = BattleMap::new(8, 8);
    for tile in &map.tiles {
        assert_eq!(tile.terrain_type(), TerrainType::Open);
    }
}

#[test]
fn test_bounds_checking() {
    let map = BattleMap::new(8, 8);
    assert!(map.in_bounds(0, 0));
    assert!(map.in_bounds(7, 7));
    assert!(!map.in_bounds(-1, 0));
    assert!(!map.in_bounds(8, 0));
}

#[test]
fn test_is_walkable_non_impassable() {
    let mut map = BattleMap::new(8, 8);
    map.get_mut(1, 1).terrain = TerrainType::Rough as u8;
    map.get_mut(2, 2).terrain = TerrainType::Elevated as u8;
    map.get_mut(3, 3).terrain = TerrainType::Hazard as u8;
    map.get_mut(4, 4).terrain = TerrainType::Cover as u8;
    map.get_mut(5, 5).terrain = TerrainType::Road as u8;
    map.get_mut(6, 6).terrain = TerrainType::Impassable as u8;

    assert!(map.is_walkable(0, 0)); // Open
    assert!(map.is_walkable(1, 1)); // Rough
    assert!(map.is_walkable(2, 2)); // Elevated
    assert!(map.is_walkable(3, 3)); // Hazard
    assert!(map.is_walkable(4, 4)); // Cover
    assert!(map.is_walkable(5, 5)); // Road
    assert!(!map.is_walkable(6, 6)); // Impassable
    assert!(!map.is_walkable(8, 0)); // outside
}

#[test]
fn test_terrain_type_from_u8() {
    assert_eq!(TerrainType::from_u8(0), TerrainType::Open);
    assert_eq!(TerrainType::from_u8(1), TerrainType::Impassable);
    assert_eq!(TerrainType::from_u8(2), TerrainType::Rough);
    assert_eq!(TerrainType::from_u8(3), TerrainType::Elevated);
    assert_eq!(TerrainType::from_u8(4), TerrainType::Hazard);
    assert_eq!(TerrainType::from_u8(5), TerrainType::Cover);
    assert_eq!(TerrainType::from_u8(6), TerrainType::Road);
    assert_eq!(TerrainType::from_u8(255), TerrainType::Impassable);
}

#[test]
fn test_generate_has_terrain_variety() {
    let map = generated_map(64, 64, 42);
    let mut terrain_counts = [0usize; 7];
    for tile in &map.tiles {
        let t = tile.terrain as usize;
        if t < 7 {
            terrain_counts[t] += 1;
        }
    }
    assert!(terrain_counts[TerrainType::Open as usize] > 0, "Should have Open tiles");
    let non_open: usize = terrain_counts[1..].iter().sum();
    assert!(non_open > 0, "Should have non-Open terrain, counts: {:?}", terrain_counts);
    let types_present = terrain_counts.iter().filter(|&&c| c > 0).count();
    assert!(types_present >= 4, "Should have at least 4 terrain types, got {} types: {:?}", types_present, terrain_counts);
}

#[test]
fn test_generate_has_variants() {
    let map = generated_map(64, 64, 42);
    let variants: std::collections::HashSet<u8> = map.tiles.iter().map(|t| t.sprite_variant).collect();
    assert!(variants.len() >= 2, "Map should have multiple terrain variants");
}

#[test]
fn test_spawn_corners_are_open() {
    let map = generated_map(64, 64, 42);
    let margin = 4;
    let corners = [(0, 0), (63, 63), (63, 0), (0, 63)];
    for &(cx, cy) in &corners {
        for dy in 0..=margin {
            for dx in 0..=margin {
                let x = if cx == 0 { dx } else { cx - dx };
                let y = if cy == 0 { dy } else { cy - dy };
                if x < 64 && y < 64 {
                    let tile = map.get(x, y);
                    assert_eq!(tile.terrain_type(), TerrainType::Open, "Spawn corner tile ({}, {}) should be Open, got {:?}", x, y, tile.terrain_type());
                }
            }
        }
    }
}

#[test]
fn generated_map_is_deterministic_and_elevation_marked() {
    let a = generated_map(32, 24, 7);
    let b = generated_map(32, 24, 7);
    assert_eq!(a.tiles.len(), 32 * 24);
    for (ta, tb) in a.tiles.iter().zip(b.tiles.iter()) {
        assert_eq!((ta.terrain, ta.sprite_variant), (tb.terrain, tb.sprite_variant));
        assert!(ta.sprite_variant < 5);
        assert_eq!(ta.elevation, if ta.terrain == TerrainType::Elevated as u8 { 1 } else { 0 });
    }
}

#[test]
fn names_and_codes() {
    assert_eq!(Direction::S.name(), "S");
    assert_eq!(Direction::NE.name(), "NE");
    assert_eq!(Direction::SE.code(), 7);
    assert_eq!(AnimState::Attack.name(), "Shoot");
    assert!(AnimState::Move.loops());
    assert!(!AnimState::Death.loops());
    assert_eq!(SpriteId::from_u16(4), Some(SpriteId::Forge));
    assert_eq!(SpriteId::from_u16(6), None);
    assert_eq!(SpriteId::CapturePoint.to_le_bytes(), [5, 0]);
    assert_eq!(SpriteId::HoverTank.to_u16(), SpriteId::HoverTank as u16);
    assert_eq!(get_frame_count(SpriteId::Sentinel, AnimState::Death), 7);
    assert_eq!(get_frame_count(SpriteId::Forge, AnimState::Move), 1);
    assert_eq!(hello(), "Machine Empire Core");
}

#[test]
fn capture_points_are_never_attackable() {
    assert!(!is_attackable_kind(SpriteId::CapturePoint));
    assert!(is_attackable_kind(SpriteId::Forge));
}

#[test]
fn tech_tree_shape() {
    assert_eq!(TechId::ThrallPlating.tier(), 1);
    assert_eq!(TechId::FastProduction.tier(), 2);
    assert_eq!(TechId::EconomicEfficiency.tier(), 3);
    assert_eq!(TechId::ImprovedVision.prerequisite(), None);
    assert_eq!(TechId::SentinelStealth.prerequisite(), Some(TechId::SentinelShields));
    assert_eq!(TechId::SentinelShields.prerequisite(), Some(TechId::SentinelHeavyWeapons));
    assert_eq!(TechId::ThrallRange.required_relics(), 2);
    assert_eq!(TechId::HoverTankSiege.required_relics(), 1);
}

#[test]
fn combat_tree_layout() {
    let bt = build_combat_bt();
    assert_eq!(bt.root, 22);
    assert_eq!(bt.nodes.len(), 23);
    match &bt.nodes[22] {
        BtNode::Selector { children } => assert_eq!(children, &vec![17, 18, 19, 20, 21, 15, 16]),
        _ => panic!("root should be a selector"),
    }
    assert!(matches!(bt.nodes[0], BtNode::Condition { condition_id: ConditionId::HealthBelowPercent(25) }));
    assert!(matches!(bt.nodes[16], BtNode::Action { action_id: ActionId::IdleGuard }));
    assert!(BtState::new().running_node.is_none());
    assert_eq!(BtTemplates::new().combat.root, 22);
}

#[test]
fn campaign_ai_intervals() {
    let s = CampaignAiState::new(3, CampaignAiDifficulty::Hard);
    assert_eq!(s.eval_interval, 60);
    assert_eq!(s.player_id, 3);
    assert_eq!(s.current_goal, CampaignGoal::Expand);
    assert_eq!(CampaignAiState::new(0, CampaignAiDifficulty::Easy).eval_interval, 200);
    assert_eq!(CampaignAiState::new(0, CampaignAiDifficulty::Normal).eval_interval, 100);
}

#[test]
fn sector_total() {
    let c = SectorUnitCounts { thralls: 3, sentinels: 2, hover_tanks: 1 };
    assert_eq!(c.total(), 6);
}

#[test]
fn xorshift_steps() {
    let mut rng = SimpleRng::new(0);
    // seed 0 is replaced by 1; one xorshift64 step of 1:
    let mut x: u64 = 1;
    x ^= x << 13;
    x ^= x >> 7;
    x ^= x << 17;
    assert_eq!(rng.next_u64(), x);
    let mut r2 = SimpleRng::new(12345);
    for _ in 0..1000 {
        assert_ne!(r2.next_u64(), 0);
    }
}

#[test]
fn capture_counts_by_owner() {
    let mut c = CapturePointCounts::new();
    c.update_from_owners(&[0, 1, 1, 255, 9]);
    assert_eq!(c.total, 5);
    assert_eq!(c.per_player[0], 1);
    assert_eq!(c.per_player[1], 2);
    assert_eq!(c.per_player[2], 0);
    c.update_from_owners(&[]);
    assert_eq!(c.total, 0);
    assert_eq!(c.per_player[1], 0);
}

#[test]
fn fresh_buffers() {
    let r = ReinforcementAvailability::new(3);
    assert_eq!(r.available.len(), 3);
    assert!(r.available.iter().all(|a| a.is_empty()));
    assert_eq!(r.cp_alive, vec![false, false, false]);
    let ui = UIStateBuffer::new();
    assert_eq!(ui.0.len(), 256);
    assert!(ui.0.iter().all(|b| *b == 0));
}

#[test]
fn research_requirements() {
    let done = vec![TechId::ThrallPlating];
    assert!(has_tech(&done, TechId::ThrallPlating));
    assert!(!has_tech(&done, TechId::ImprovedVision));
    // Already researched.
    assert!(!research_allowed(&done, false, TechId::ThrallPlating, 5));
    // Prerequisite met, one relic.
    assert!(research_allowed(&done, false, TechId::ThrallFireRate, 1));
    // Research under way.
    assert!(!research_allowed(&done, true, TechId::ThrallFireRate, 1));
    // No relic.
    assert!(!research_allowed(&done, false, TechId::ImprovedVision, 0));
    // Prerequisite missing.
    assert!(!research_allowed(&done, false, TechId::SentinelShields, 3));
    // Tier 3 needs two relics.
    let done = vec![TechId::ThrallPlating, TechId::ThrallFireRate];
    assert!(!research_allowed(&done, false, TechId::ThrallRange, 1));
    assert!(research_allowed(&done, false, TechId::ThrallRange, 2));
}

#[test]
fn render_flag_bits() {
    let f = set_selected_flag(0b1010, true);
    assert_eq!(f, 0b1011);
    assert!(selected_flag(f));
    let f = set_selected_flag(f, false);
    assert_eq!(f, 0b1010);
    assert!(!selected_flag(f));
    assert_eq!(pack_anim_flags(0b1111_0011, AnimState::Attack), 0b0000_1011);
    assert_eq!(pack_anim_flags(0b0000_0001, AnimState::Idle), 0b0000_0001);
}

#[test]
fn fog_fades_visible_to_explored() {
    let mut fog = FogGrid::new(3, 2, 2);
    fog.set(0, 1, 1, FOG_VISIBLE);
    fog.set(1, 2, 0, FOG_EXPLORED);
    fog.set(1, 0, 0, FOG_VISIBLE);
    fog.fade_visible();
    assert_eq!(fog.get(0, 1, 1), FOG_EXPLORED);
    assert_eq!(fog.get(1, 2, 0), FOG_EXPLORED);
    assert_eq!(fog.get(1, 0, 0), FOG_EXPLORED);
    assert_eq!(fog.get(0, 0, 0), FOG_UNEXPLORED);
}

#[test]
fn animation_frames_step() {
    // Thrall idle loops over 4 frames.
    assert_eq!(advance_frame(0, AnimState::Idle, 2), 3);
    assert_eq!(advance_frame(0, AnimState::Idle, 3), 0);
    // Sentinel death stops on its 7th frame.
    assert_eq!(advance_frame(1, AnimState::Death, 5), 6);
    assert_eq!(advance_frame(1, AnimState::Death, 6), 6);
    // Capture points have a single frame.
    assert_eq!(advance_frame(5, AnimState::Idle, 0), 0);
    assert_eq!(advance_frame(5, AnimState::Move, 0), 0);
    // Unknown sprite codes animate as Thralls.
    assert_eq!(advance_frame(9, AnimState::Move, 5), 0);
    // Single-frame buildings stay on frame 0.
    assert_eq!(advance_frame(3, AnimState::Attack, 0), 0);
}

#[test]
fn campaign_queue_counts() {
    assert_eq!(queued_counts_by_type(&[0, 0, 2, 1, 7, 0, 2]), (3, 1, 2));
    assert_eq!(queued_counts_by_type(&[]), (0, 0, 0));
}

fn sector_rows(players: usize) -> Vec<Vec<SectorUnitCounts>> {
    (0..players).map(|_| vec![SectorUnitCounts::default(); TOTAL_SECTORS]).collect()
}

#[test]
fn strategic_legal_actions() {
    let mut rows = sector_rows(2);
    // Unknown economy: only waiting.
    assert_eq!(legal_actions(&rows, 2, 0, None, false, false, Some(3)), vec![StrategicAction::DoNothing]);
    // No units: productions only, by what is affordable and free.
    assert_eq!(
        legal_actions(&rows, 2, 0, Some([true, false, true]), false, true, Some(3)),
        vec![StrategicAction::DoNothing, StrategicAction::ProduceThrall]
    );
    rows[0][3].thralls = 4;
    rows[1][10].hover_tanks = 1;
    rows[1][12].sentinels = 2;
    assert_eq!(
        legal_actions(&rows, 2, 0, Some([true, true, true]), false, false, Some(3)),
        vec![
            StrategicAction::DoNothing,
            StrategicAction::ProduceThrall,
            StrategicAction::ProduceSentinel,
            StrategicAction::ProduceHoverTank,
            StrategicAction::Retreat,
            StrategicAction::AttackSector(10),
            StrategicAction::AttackSector(12),
            StrategicAction::DefendSector(3),
        ]
    );
    // Player 1 sees player 0's sector as the target; no Command Post, no retreat.
    assert_eq!(
        legal_actions(&rows, 2, 1, Some([false, false, false]), true, true, None),
        vec![StrategicAction::DoNothing, StrategicAction::AttackSector(3)]
    );
}

#[test]
fn sector_losses_in_order() {
    let mut c = SectorUnitCounts { thralls: 3, sentinels: 2, hover_tanks: 1 };
    c.apply_losses(4);
    assert_eq!((c.thralls, c.sentinels, c.hover_tanks), (0, 1, 1));
    c.apply_losses(10);
    assert_eq!((c.thralls, c.sentinels, c.hover_tanks), (0, 0, 0));
    let mut d = SectorUnitCounts { thralls: 0, sentinels: 0, hover_tanks: 5 };
    d.apply_losses(2);
    assert_eq!(d.hover_tanks, 3);
    assert_eq!(d.total(), 3);
}

#[test]
fn cluster_covers_open_diamond_in_row_order() {
    // 16x16: spawn margin 4, the centre (8, 8) is far from the corners.
    let mut map = BattleMap::new(16, 16);
    let n = place_cluster(&mut map, 8, 8, 1, TerrainType::Rough as u8, 4, 0, 100);
    assert_eq!(n, 5);
    for (x, y) in [(8u32, 7u32), (7, 8), (8, 8), (9, 8), (8, 9)] {
        assert_eq!(map.get(x, y).terrain, TerrainType::Rough as u8);
    }
    assert_eq!(map.get(7, 7).terrain, 0);
    assert_eq!(map.tiles.iter().filter(|t| t.terrain != 0).count(), 5);

    // Room for three more tiles: the first three cells in row-major order.
    let mut map = BattleMap::new(16, 16);
    let n = place_cluster(&mut map, 8, 8, 1, TerrainType::Cover as u8, 4, 7, 10);
    assert_eq!(n, 10);
    for (x, y) in [(8u32, 7u32), (7, 8), (8, 8)] {
        assert_eq!(map.get(x, y).terrain, TerrainType::Cover as u8);
    }
    assert_eq!(map.get(9, 8).terrain, 0);
    assert_eq!(map.get(8, 9).terrain, 0);
}

#[test]
fn cluster_skips_corners_and_taken_tiles() {
    let mut map = BattleMap::new(16, 16);
    // A centre on the edge of the top-left corner margin (x, y <= 4): only
    // cells outside the margin change.
    let n = place_cluster(&mut map, 4, 4, 1, TerrainType::Road as u8, 4, 0, 100);
    assert_eq!(n, 2);
    assert_eq!(map.get(4, 3).terrain, 0);
    assert_eq!(map.get(3, 4).terrain, 0);
    assert_eq!(map.get(4, 4).terrain, 0);
    assert_eq!(map.get(5, 4).terrain, TerrainType::Road as u8);
    assert_eq!(map.get(4, 5).terrain, TerrainType::Road as u8);
    // A second cluster over the same spot leaves taken tiles alone.
    let n2 = place_cluster(&mut map, 5, 5, 1, TerrainType::Hazard as u8, 4, 0, 100);
    assert_eq!(n2, 3);
    assert_eq!(map.get(5, 4).terrain, TerrainType::Road as u8);
    assert_eq!(map.get(5, 5).terrain, TerrainType::Hazard as u8);
}

#[test]
fn generated_kinds_stay_within_targets() {
    let targets = vec![20usize, 10, 5, 5, 3, 2];
    let map = BattleMap::generate_with_targets(32, 32, 11, &targets);
    let codes = [TerrainType::Rough, TerrainType::Cover, TerrainType::Road, TerrainType::Elevated, TerrainType::Hazard, TerrainType::Impassable];
    for (k, code) in codes.iter().enumerate() {
        let count = map.tiles.iter().filter(|t| t.terrain == *code as u8).count();
        assert!(count <= targets[k]);
    }
}

#[test]
fn concentrating_moves_every_unit_to_the_target() {
    let unit = |t: u16, s: u16, h: u16| SectorUnitCounts { thralls: t, sentinels: s, hover_tanks: h };
    let mut row = vec![unit(1, 2, 3), unit(0, 0, 0), unit(4, 0, 1), unit(0, 5, 0)];
    concentrate_units(&mut row, 1);
    assert_eq!((row[1].thralls, row[1].sentinels, row[1].hover_tanks), (5, 7, 4));
    for i in [0usize, 2, 3] {
        assert_eq!((row[i].thralls, row[i].sentinels, row[i].hover_tanks), (0, 0, 0));
    }
    // A target outside the row empties every sector.
    let mut row = vec![unit(1, 1, 1), unit(2, 2, 2)];
    concentrate_units(&mut row, 9);
    assert!(row.iter().all(|s| s.thralls == 0 && s.sentinels == 0 && s.hover_tanks == 0));
}

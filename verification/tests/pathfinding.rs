use empire_core::pathfinding::astar::{open_steps, reconstruct_path};
use empire_core::map::{BattleMap, TerrainType};
use empire_core::pathfinding::cache::PathCache;
use empire_core::types::SpriteId;

#[test]
fn test_cache_hit_and_miss() {
    let mut cache = PathCache::new(256);

    // Miss on empty cache
    assert!(cache.get((0, 0), (5, 5), SpriteId::Thrall).is_none());

    // Insert a path
    let path = vec![(0, 0), (1, 1), (2, 2), (3, 3), (4, 4), (5, 5)];
    cache.insert((0, 0), (5, 5), SpriteId::Thrall, Some(path.clone()));

    // Hit
    let result = cache.get((0, 0), (5, 5), SpriteId::Thrall);
    assert!(result.is_some());
    assert_eq!(result.unwrap().as_ref().unwrap().len(), 6);
}

#[test]
fn test_cache_invalidation() {
    let mut cache = PathCache::new(256);

    cache.insert((0, 0), (5, 5), SpriteId::Thrall, Some(vec![(0, 0), (5, 5)]));
    assert!(cache.get((0, 0), (5, 5), SpriteId::Thrall).is_some());

    // Invalidate
    cache.invalidate();

    // Should miss after invalidation
    assert!(cache.get((0, 0), (5, 5), SpriteId::Thrall).is_none());
    assert!(cache.is_empty());
}

#[test]
fn test_cache_lru_eviction() {
    let mut cache = PathCache::new(3);

    // Fill to capacity
    cache.insert((0, 0), (1, 1), SpriteId::Thrall, Some(vec![(0, 0), (1, 1)]));
    cache.insert((0, 0), (2, 2), SpriteId::Thrall, Some(vec![(0, 0), (2, 2)]));
    cache.insert((0, 0), (3, 3), SpriteId::Thrall, Some(vec![(0, 0), (3, 3)]));
    assert_eq!(cache.len(), 3);

    // Access first entry to make it recently used
    cache.get((0, 0), (1, 1), SpriteId::Thrall);

    // Insert a 4th — should evict (0,0)->(2,2) as least recently used
    cache.insert((0, 0), (4, 4), SpriteId::Thrall, Some(vec![(0, 0), (4, 4)]));
    assert_eq!(cache.len(), 3);

    // First entry should still be present (was accessed)
    assert!(cache.get((0, 0), (1, 1), SpriteId::Thrall).is_some());
    // Second entry was evicted
    assert!(cache.get((0, 0), (2, 2), SpriteId::Thrall).is_none());
    // Third and fourth should be present
    assert!(cache.get((0, 0), (3, 3), SpriteId::Thrall).is_some());
    assert!(cache.get((0, 0), (4, 4), SpriteId::Thrall).is_some());
}

#[test]
fn test_cache_different_unit_kinds() {
    let mut cache = PathCache::new(256);

    cache.insert((0, 0), (5, 5), SpriteId::Thrall, Some(vec![(0, 0), (5, 5)]));
    cache.insert((0, 0), (5, 5), SpriteId::HoverTank, Some(vec![(0, 0), (3, 3), (5, 5)]));

    // Different unit kinds should be separate entries
    let thrall = cache.get((0, 0), (5, 5), SpriteId::Thrall);
    assert!(thrall.is_some());
    assert_eq!(thrall.unwrap().as_ref().unwrap().len(), 2);

    let tank = cache.get((0, 0), (5, 5), SpriteId::HoverTank);
    assert!(tank.is_some());
    assert_eq!(tank.unwrap().as_ref().unwrap().len(), 3);
}

#[test]
fn test_cache_none_paths() {
    let mut cache = PathCache::new(256);

    // Cache a "no path found" result
    cache.insert((0, 0), (99, 99), SpriteId::Thrall, None);

    let result = cache.get((0, 0), (99, 99), SpriteId::Thrall);
    assert!(result.is_some());
    assert!(result.unwrap().is_none()); // The cached result is None (no path)
}

#[test]
fn cache_insert_same_key_replaces() {
    let mut cache = PathCache::new(4);
    cache.insert((1, 1), (2, 2), SpriteId::Sentinel, Some(vec![(1, 1)]));
    cache.insert((1, 1), (2, 2), SpriteId::Sentinel, Some(vec![(1, 1), (2, 2)]));
    assert_eq!(cache.len(), 1);
    assert_eq!(cache.get((1, 1), (2, 2), SpriteId::Sentinel).unwrap().as_ref().unwrap().len(), 2);
}

#[test]
fn cache_never_exceeds_capacity() {
    let mut cache = PathCache::new(2);
    for g in 0..10u32 {
        cache.insert((0, 0), (g, g), SpriteId::Thrall, None);
        assert!(cache.len() <= 2);
    }
    // The two most recent survive.
    assert!(cache.get((0, 0), (9, 9), SpriteId::Thrall).is_some());
    assert!(cache.get((0, 0), (8, 8), SpriteId::Thrall).is_some());
    assert!(cache.get((0, 0), (7, 7), SpriteId::Thrall).is_none());
}

#[test]
fn cache_clear_and_insert_after_invalidate() {
    let mut cache = PathCache::new(8);
    cache.insert((0, 0), (1, 1), SpriteId::Thrall, None);
    cache.clear();
    assert!(cache.is_empty());
    cache.insert((0, 0), (1, 1), SpriteId::Thrall, None);
    cache.invalidate();
    // Inserting after an invalidation drops the stale result and keeps the new one.
    cache.insert((0, 0), (2, 2), SpriteId::Thrall, None);
    assert_eq!(cache.len(), 1);
    assert!(cache.get((0, 0), (1, 1), SpriteId::Thrall).is_none());
    assert_eq!(cache.get((0, 0), (2, 2), SpriteId::Thrall), Some(&None));
}

#[test]
fn cache_keeps_path_inserted_after_invalidate() {
    let mut cache = PathCache::new(256);
    cache.invalidate();
    cache.insert((0, 0), (5, 5), SpriteId::Thrall, Some(vec![(0, 0), (5, 5)]));
    assert_eq!(cache.get((0, 0), (5, 5), SpriteId::Thrall), Some(&Some(vec![(0, 0), (5, 5)])));
}

#[test]
fn cache_zero_capacity_still_stores() {
    let mut cache = PathCache::new(0);
    cache.insert((0, 0), (1, 1), SpriteId::Thrall, None);
    assert_eq!(cache.len(), 1);
    cache.insert((0, 0), (2, 2), SpriteId::Thrall, None);
    assert_eq!(cache.len(), 1);
    assert!(cache.get((0, 0), (2, 2), SpriteId::Thrall).is_some());
}

#[test]
fn reconstruct_follows_parents() {
    let mut came_from = vec![u32::MAX; 16];
    // Grid 4 wide: (2,1) = 6 came from (1,1) = 5, which came from (0,0) = 0.
    came_from[6] = 5;
    came_from[5] = 0;
    let path = reconstruct_path(&came_from, 4, (0, 0), (2, 1));
    assert_eq!(path, vec![(0, 0), (1, 1), (2, 1)]);
    let single = reconstruct_path(&came_from, 4, (3, 3), (3, 3));
    assert_eq!(single, vec![(3, 3)]);
}

#[test]
fn open_steps_skip_blocked_tiles_and_cut_corners() {
    let mut map = BattleMap::new(5, 5);
    // Block the tile east of (2, 2).
    map.tiles[2 * 5 + 3].terrain = TerrainType::Impassable as u8;
    let steps = open_steps(&map, 2, 2);
    let dirs: Vec<usize> = steps.iter().map(|s| s.2).collect();
    // E is blocked; NE and SE would cut its corner.
    assert_eq!(dirs, vec![0, 4, 5, 6, 7]);
    assert_eq!(steps[0], (2, 1, 0));
    assert_eq!(steps[2], (1, 3, 5));
    // In a corner of the map only the inward steps remain.
    let corner: Vec<usize> = open_steps(&map, 0, 0).iter().map(|s| s.2).collect();
    assert_eq!(corner, vec![2, 3, 4]);
}

use empire_core::ecs::component::SparseSet;
use empire_core::ecs::entity::{Entity, EntityAllocator};
use empire_core::ecs::system::SystemRunner;
use empire_core::ecs::world::World;

#[test]
fn test_entity_packing() {
    let e = Entity::new(42, 3);
    assert_eq!(e.index(), 42);
    assert_eq!(e.generation(), 3);
}

#[test]
fn test_entity_max_index() {
    let e = Entity::new(0x00FF_FFFF, 255);
    assert_eq!(e.index(), 0x00FF_FFFF);
    assert_eq!(e.generation(), 255);
}

#[test]
fn test_allocator_sequential() {
    let mut alloc = EntityAllocator::new();
    let e0 = alloc.allocate();
    let e1 = alloc.allocate();
    let e2 = alloc.allocate();
    assert_eq!(e0.index(), 0);
    assert_eq!(e1.index(), 1);
    assert_eq!(e2.index(), 2);
    assert_eq!(e0.generation(), 0);
}

#[test]
fn test_allocator_recycle() {
    let mut alloc = EntityAllocator::new();
    let e0 = alloc.allocate();
    assert!(alloc.is_alive(e0));
    assert!(alloc.deallocate(e0));
    assert!(!alloc.is_alive(e0));

    let e0_reuse = alloc.allocate();
    assert_eq!(e0_reuse.index(), 0);
    assert_eq!(e0_reuse.generation(), 1);
    assert!(alloc.is_alive(e0_reuse));
    assert!(!alloc.is_alive(e0));
}

#[test]
fn test_double_deallocate() {
    let mut alloc = EntityAllocator::new();
    let e = alloc.allocate();
    assert!(alloc.deallocate(e));
    assert!(!alloc.deallocate(e)); // stale generation
}

#[test]
fn entity_raw_roundtrip() {
    let e = Entity::new(7, 9);
    assert_eq!(e.raw(), (9u32 << 24) | 7);
    assert_eq!(Entity::from_raw(e.raw()), e);
    let f = Entity::from_raw(0xAB00_0010);
    assert_eq!(f.index(), 0x10);
    assert_eq!(f.generation(), 0xAB);
}

#[test]
fn generation_wraps_after_255_reuses() {
    let mut alloc = EntityAllocator::new();
    let mut e = alloc.allocate();
    for _ in 0..255 {
        assert!(alloc.deallocate(e));
        e = alloc.allocate();
    }
    assert_eq!(e.index(), 0);
    assert_eq!(e.generation(), 255);
    assert!(alloc.deallocate(e));
    let wrapped = alloc.allocate();
    assert_eq!(wrapped.index(), 0);
    assert_eq!(wrapped.generation(), 0);
}

#[test]
fn release_is_local_to_its_slot() {
    let mut alloc = EntityAllocator::new();
    let a = alloc.allocate();
    let b = alloc.allocate();
    assert!(alloc.deallocate(a));
    assert!(alloc.is_alive(b));
    assert!(!alloc.is_alive(a));
}

#[test]
fn stale_or_unknown_ids_are_not_released() {
    let mut alloc = EntityAllocator::new();
    assert!(!alloc.deallocate(Entity::new(3, 0)));
    let e = alloc.allocate();
    assert!(!alloc.deallocate(Entity::new(e.index(), 1)));
    assert!(alloc.is_alive(e));
}

#[test]
fn test_insert_and_get() {
    let mut set = SparseSet::new();
    let e = Entity::new(5, 0);
    set.insert(e, 42i32);
    assert_eq!(set.get(e), Some(&42));
    assert_eq!(set.len(), 1);
}

#[test]
fn test_update_existing() {
    let mut set = SparseSet::new();
    let e = Entity::new(0, 0);
    set.insert(e, 10i32);
    set.insert(e, 20i32);
    assert_eq!(set.get(e), Some(&20));
    assert_eq!(set.len(), 1);
}

#[test]
fn test_remove() {
    let mut set = SparseSet::new();
    let e0 = Entity::new(0, 0);
    let e1 = Entity::new(1, 0);
    let e2 = Entity::new(2, 0);
    set.insert(e0, 100i32);
    set.insert(e1, 200i32);
    set.insert(e2, 300i32);

    let removed = set.remove(e1);
    assert_eq!(removed, Some(200));
    assert_eq!(set.len(), 2);
    assert!(!set.has(e1));
    assert_eq!(set.get(e0), Some(&100));
    assert_eq!(set.get(e2), Some(&300));
}

#[test]
fn test_get_nonexistent() {
    let set = SparseSet::<i32>::new();
    let e = Entity::new(0, 0);
    assert_eq!(set.get(e), None);
}

#[test]
fn test_iter() {
    let mut set = SparseSet::new();
    let e0 = Entity::new(0, 0);
    let e1 = Entity::new(1, 0);
    set.insert(e0, 10i32);
    set.insert(e1, 20i32);

    let mut items: Vec<_> = set.iter();
    items.sort_by_key(|(e, _)| e.index());
    assert_eq!(items.len(), 2);
    assert_eq!(*items[0].1, 10);
    assert_eq!(*items[1].1, 20);
}

#[test]
fn test_get_mut() {
    let mut set = SparseSet::new();
    let e = Entity::new(0, 0);
    set.insert(e, 5i32);
    if let Some(val) = set.get_mut(e) {
        *val = 10;
    }
    assert_eq!(set.get(e), Some(&10));
}

#[test]
fn sparse_slot_keeps_first_owner_on_overwrite() {
    let mut set = SparseSet::new();
    let old = Entity::new(4, 0);
    let newer = Entity::new(4, 1);
    set.insert(old, 1u8);
    set.insert(newer, 2u8);
    assert_eq!(set.len(), 1);
    assert_eq!(set.get(old), Some(&2));
    assert_eq!(set.entity_at(0), old);
}

#[test]
fn sparse_remove_last_and_missing() {
    let mut set = SparseSet::new();
    let e0 = Entity::new(0, 0);
    let e9 = Entity::new(9, 0);
    set.insert(e0, 'a');
    set.insert(e9, 'b');
    assert_eq!(set.remove(e9), Some('b'));
    assert_eq!(set.remove(e9), None);
    assert_eq!(set.remove(Entity::new(100, 0)), None);
    assert_eq!(set.get(e0), Some(&'a'));
    assert!(!set.is_empty());
    assert_eq!(set.remove(e0), Some('a'));
    assert!(set.is_empty());
}

#[test]
fn sparse_remove_then_reinsert() {
    let mut set = SparseSet::new();
    let e = Entity::new(3, 0);
    set.insert(e, 7u32);
    assert_eq!(set.remove(e), Some(7));
    set.insert(e, 8u32);
    assert_eq!(set.get(e), Some(&8));
    assert_eq!(set.len(), 1);
}

#[test]
fn sparse_value_at_mut_updates_map() {
    let mut set = SparseSet::new();
    let e0 = Entity::new(0, 0);
    let e1 = Entity::new(1, 0);
    set.insert(e0, 1i64);
    set.insert(e1, 2i64);
    for d in 0..set.len() {
        *set.value_at_mut(d) *= 10;
    }
    assert_eq!(set.get(e0), Some(&10));
    assert_eq!(set.get(e1), Some(&20));
}

#[test]
fn test_spawn_and_despawn() {
    let mut world = World::new();
    let e = world.spawn();
    assert!(world.is_alive(e));
    world.despawn(e);
    assert!(!world.is_alive(e));
}

#[test]
fn test_components() {
    let mut world = World::new();
    let e = world.spawn();
    world.add_component(e, 42i32);
    world.add_component(e, "hello");

    assert_eq!(world.get_component::<i32>(e), Some(&42));
    assert_eq!(world.get_component::<&str>(e), Some(&"hello"));
    assert!(world.has_component::<i32>(e));
}

#[test]
fn test_remove_component() {
    let mut world = World::new();
    let e = world.spawn();
    world.add_component(e, 42i32);
    let removed = world.remove_component::<i32>(e);
    assert_eq!(removed, Some(42));
    assert!(!world.has_component::<i32>(e));
}

#[test]
fn test_despawn_cleans_components() {
    let mut world = World::new();
    let e = world.spawn();
    world.add_component(e, 42i32);
    world.despawn(e);

    // After despawn, component queries on the dead entity should return None
    assert!(!world.has_component::<i32>(e));
}

#[derive(Debug, PartialEq)]
struct GameTime(f32);

#[test]
fn test_resources() {
    let mut world = World::new();

    world.insert_resource(GameTime(1.5));
    assert_eq!(world.get_resource::<GameTime>(), Some(&GameTime(1.5)));

    if let Some(time) = world.get_resource_mut::<GameTime>() {
        time.0 = 3.0;
    }
    assert_eq!(world.get_resource::<GameTime>(), Some(&GameTime(3.0)));
}

#[test]
fn test_get_storage_iteration() {
    let mut world = World::new();
    let e0 = world.spawn();
    let e1 = world.spawn();
    world.add_component(e0, 10i32);
    world.add_component(e1, 20i32);

    let storage = world.get_storage::<i32>().unwrap();
    let sum: i32 = storage.iter().iter().map(|(_, v)| **v).sum();
    assert_eq!(sum, 30);
}

#[test]
fn dead_entities_get_no_components() {
    let mut world = World::new();
    let e = world.spawn();
    world.despawn(e);
    world.add_component(e, 1u16);
    assert!(!world.has_component::<u16>(e));
    assert!(world.get_storage::<u16>().is_none());
}

#[test]
fn despawn_removes_every_component_type() {
    let mut world = World::new();
    let e = world.spawn();
    let other = world.spawn();
    world.add_component(e, 1u8);
    world.add_component(e, 2u64);
    world.add_component(other, 3u8);
    world.despawn(e);
    assert!(!world.has_component::<u8>(e));
    assert!(!world.has_component::<u64>(e));
    assert_eq!(world.get_component::<u8>(other), Some(&3));
    assert_eq!(world.get_storage::<u8>().unwrap().len(), 1);
}

#[test]
fn world_recycles_despawned_slots() {
    let mut world = World::new();
    let a = world.spawn();
    let b = world.spawn();
    world.despawn(a);
    let c = world.spawn();
    assert_eq!(c.index(), a.index());
    assert_eq!(c.generation(), a.generation() + 1);
    assert!(world.is_alive(b));
    assert!(world.is_alive(c));
    assert!(!world.is_alive(a));
}

#[test]
fn component_mut_and_storage_mut() {
    let mut world = World::new();
    let e = world.spawn();
    world.add_component(e, 5i32);
    *world.get_component_mut::<i32>(e).unwrap() += 1;
    assert_eq!(world.get_component::<i32>(e), Some(&6));
    let storage = world.get_storage_mut::<i32>().unwrap();
    storage.insert(e, 9);
    assert_eq!(world.get_component::<i32>(e), Some(&9));
    assert!(world.get_component_mut::<u8>(e).is_none());
    assert!(world.remove_component::<u8>(e).is_none());
}

#[test]
fn resources_by_type() {
    let mut world = World::new();
    assert!(!world.has_resource::<u32>());
    world.insert_resource(7u32);
    world.insert_resource(8u64);
    world.insert_resource(9u32);
    assert!(world.has_resource::<u32>());
    assert_eq!(world.get_resource::<u32>(), Some(&9));
    assert_eq!(world.get_resource::<u64>(), Some(&8));
    assert!(world.get_resource::<i8>().is_none());
}

struct ExecutionLog(Vec<&'static str>);

fn system_a(world: &mut World) {
    world.get_resource_mut::<ExecutionLog>().unwrap().0.push("A");
}

fn system_b(world: &mut World) {
    world.get_resource_mut::<ExecutionLog>().unwrap().0.push("B");
}

fn system_c(world: &mut World) {
    world.get_resource_mut::<ExecutionLog>().unwrap().0.push("C");
}

#[test]
fn test_system_execution_order() {
    let mut world = World::new();
    world.insert_resource(ExecutionLog(Vec::new()));

    let mut runner: SystemRunner<fn(&mut World)> = SystemRunner::new();
    runner.add_system("A", system_a);
    runner.add_system("B", system_b);
    runner.add_system("C", system_c);

    runner.run_all(&mut world);

    let log = world.get_resource::<ExecutionLog>().unwrap();
    assert_eq!(log.0, vec!["A", "B", "C"]);
}

#[test]
fn profiled_run_reports_each_system_in_order() {
    let mut world = World::new();
    world.insert_resource(ExecutionLog(Vec::new()));
    let mut runner: SystemRunner<fn(&mut World)> = SystemRunner::new();
    runner.add_system("A", system_a);
    runner.add_system("B", system_b);
    assert_eq!(runner.system_count(), 2);
    let timings = runner.run_all_profiled(&mut world);
    let names: Vec<&str> = timings.iter().map(|(n, _)| *n).collect();
    assert_eq!(names, vec!["A", "B"]);
    assert_eq!(world.get_resource::<ExecutionLog>().unwrap().0, vec!["A", "B"]);
}

#[test]
fn stale_handle_reads_nothing_after_slot_reuse() {
    let mut w = World::new();
    let e = w.spawn();
    w.add_component(e, 1i32);
    w.despawn(e);
    let f = w.spawn();
    w.add_component(f, 7i32);
    assert_eq!(e.index(), f.index());
    assert_eq!(w.get_component::<i32>(e), None);
    assert!(!w.has_component::<i32>(e));
    assert_eq!(w.remove_component::<i32>(e), None);
    assert_eq!(w.get_component::<i32>(f), Some(&7));
}

#[test]
fn despawn_twice_changes_nothing() {
    let mut w = World::new();
    let e = w.spawn();
    w.add_component(e, 42i32);
    w.despawn(e);
    assert!(!w.is_alive(e));
    assert!(!w.has_component::<i32>(e));
    w.despawn(e);
    let f = w.spawn();
    assert!(w.is_alive(f));
    assert!(!w.has_component::<i32>(f));
}

#[test]
fn never_issued_handle_is_not_alive() {
    let mut alloc = EntityAllocator::new();
    let e = alloc.allocate();
    assert!(alloc.deallocate(e));
    let forged = Entity::new(0, 1);
    assert!(!alloc.is_alive(e));
    assert!(!alloc.is_alive(forged));
    assert!(!alloc.deallocate(forged));
    let a = alloc.allocate();
    let b = alloc.allocate();
    assert_eq!(a, forged);
    assert_ne!(a.index(), b.index());
}

use vstd::prelude::*;
use crate::ecs::entity::{Entity, EntityAllocator, AllocatorModel, INDEX_LIMIT, alive_in, alloc_index, alloc_generation, after_alloc, after_dealloc, can_alloc};
use crate::ecs::component::SparseSet;
use crate::ecs::table::{ComponentTable, ResourceTable, component_slots, fog_resource, map_resource};
use crate::systems::fog::FogGrid;
use crate::map::BattleMap;

verus! {

/// Slot `i` has been handed out and is not waiting for reuse.
pub open spec fn slot_occupied(m: AllocatorModel, i: u32) -> bool {
    i < m.0.len() && !m.1.contains(i)
}

/// The central ECS container. Owns all entities, components, and resources.
pub struct World {
    allocator: EntityAllocator,
    components: ComponentTable,
    resources: ResourceTable,
    alive: Vec<bool>,
}

impl World {
    /// The allocator is well formed and the liveness flags fit the index space.
    pub closed spec fn wf(&self) -> bool {
        &&& self.allocator.wf()
        &&& self.alive@.len() <= INDEX_LIMIT
        &&& self.allocator@.0.len() <= self.alive@.len()
    }

    /// State of the entity allocator.
    pub closed spec fn entities(&self) -> AllocatorModel {
        self.allocator@
    }

    /// Per-slot liveness flags kept beside the allocator.
    pub closed spec fn alive_flags(&self) -> Seq<bool> {
        self.alive@
    }

    /// Entity indices holding a component of at least one type.
    pub closed spec fn slots(&self) -> Set<u32> {
        component_slots(self.components)
    }

    /// Every slot that holds a component belongs to an entity in use: the
    /// slot exists and is not waiting for reuse.
    pub open spec fn components_on_occupied(&self) -> bool {
        forall|i: u32| #[trigger] self.slots().contains(i) ==> slot_occupied(self.entities(), i)
    }

    /// Whether `e` is a live entity of this world.
    pub open spec fn live(&self, e: Entity) -> bool {
        alive_in(self.entities(), e)
    }

    pub fn new() -> (w: Self)
        ensures
            w.wf(),
            w.entities() == (Seq::<u8>::empty(), Seq::<u32>::empty()),
            w.alive_flags() == Seq::<bool>::empty(),
            w.slots() == Set::<u32>::empty(),
            w.components_on_occupied(),
            w.fog_grid() is None,
            w.battle_map() is None,
    {
        World {
            allocator: EntityAllocator::new(),
            components: ComponentTable::new(),
            resources: ResourceTable::new(),
            alive: Vec::new(),
        }
    }

    /// Whether another entity can be spawned within the 24-bit index space.
    pub fn can_spawn(&self) -> (b: bool)
        ensures
            b == can_alloc(self.entities()),
    {
        self.allocator.can_allocate()
    }

    pub fn spawn(&mut self) -> (e: Entity)
        requires
            old(self).wf(),
            can_alloc(old(self).entities()),
        ensures
            final(self).wf(),
            e.idx() == alloc_index(old(self).entities()),
            e.gen() == alloc_generation(old(self).entities()),
            final(self).entities() == after_alloc(old(self).entities()),
            final(self).live(e),
            forall|f: Entity| f.idx() == e.idx() ==> !#[trigger] old(self).live(f),
            forall|f: Entity| #[trigger] old(self).live(f) ==> final(self).live(f),
            final(self).alive_flags().len() == (if old(self).alive_flags().len() > e.idx() {
                old(self).alive_flags().len() as int
            } else {
                e.idx() + 1
            }),
            final(self).alive_flags()[e.idx() as int],
            forall|k: int|
                0 <= k < old(self).alive_flags().len() && k != e.idx()
                    ==> #[trigger] final(self).alive_flags()[k] == old(self).alive_flags()[k],
            forall|k: int|
                old(self).alive_flags().len() <= k < final(self).alive_flags().len() && k
                    != e.idx() ==> !#[trigger] final(self).alive_flags()[k],
            final(self).slots() == old(self).slots(),
            old(self).components_on_occupied() ==> {
                &&& !final(self).slots().contains(e.idx())
                &&& final(self).components_on_occupied()
            },
    {
        let ghost gens0 = self.allocator@.0;
        let entity = self.allocator.allocate();
        let idx = entity.index() as usize;
        let ghost flags0 = self.alive@;
        let ghost m1 = self.allocator@;
        while self.alive.len() <= idx
            invariant
                self.allocator@ == m1,
                self.allocator.wf(),
                self.slots() == old(self).slots(),
                idx < INDEX_LIMIT,
                flags0.len() <= idx ==> self.alive@.len() <= idx + 1,
                flags0.len() > idx ==> self.alive@ == flags0,
                flags0.len() <= self.alive@.len(),
                forall|k: int| 0 <= k < flags0.len() ==> #[trigger] self.alive@[k] == flags0[k],
                forall|k: int| flags0.len() <= k < self.alive@.len() ==> !#[trigger] self.alive@[k],
            decreases idx + 1 - self.alive@.len(),
        {
            self.alive.push(false);
        }
        self.alive.set(idx, true);
        assert(self.allocator@.0.len() <= self.alive@.len()) by {
            assert(gens0.len() <= flags0.len());
            assert(self.allocator@.0.len() <= gens0.len() + 1);
            assert(self.allocator@.0.len() > gens0.len() ==> idx == gens0.len());
        }
        proof {
            let m0 = old(self).entities();
            if old(self).components_on_occupied() {
                if m0.1.len() > 0 {
                    assert(m0.1.contains(m0.1.last()));
                }
                assert forall|i: u32| #[trigger] self.slots().contains(i) implies slot_occupied(
                    self.entities(),
                    i,
                ) by {
                    assert(slot_occupied(m0, i));
                    if m0.1.len() > 0 && m0.1.drop_last().contains(i) {
                        let k = choose|k: int| 0 <= k < m0.1.drop_last().len() && m0.1.drop_last()[k] == i;
                        assert(m0.1[k] == i);
                    }
                }
            }
        }
        entity
    }

    pub fn despawn(&mut self, entity: Entity)
        requires
            old(self).wf(),
        ensures
            final(self).wf(),
            final(self).entities() == after_dealloc(old(self).entities(), entity),
            !final(self).live(entity),
            old(self).live(entity) ==> {
                &&& final(self).slots() == old(self).slots().remove(entity.idx())
                &&& final(self).alive_flags() == old(self).alive_flags().update(
                    entity.idx() as int,
                    false,
                )
            },
            !old(self).live(entity) ==> *final(self) == *old(self),
            old(self).components_on_occupied() ==> final(self).components_on_occupied(),
    {
        if !self.allocator.is_alive(entity) {
            return;
        }
        let idx = entity.index() as usize;
        self.alive.set(idx, false);
        // Remove all components for this entity
        self.components.remove_all(entity);
        self.allocator.deallocate(entity);
        proof {
            let m0 = old(self).entities();
            if old(self).components_on_occupied() {
                assert forall|i: u32| #[trigger] self.slots().contains(i) implies slot_occupied(
                    self.entities(),
                    i,
                ) by {
                    assert(old(self).slots().contains(i));
                    assert(slot_occupied(m0, i));
                    if self.entities().1.contains(i) {
                        let k = choose|k: int| 0 <= k < self.entities().1.len() && self.entities().1[k] == i;
                        if k < m0.1.len() {
                            assert(m0.1[k] == i);
                        }
                    }
                }
            }
        }
    }

    pub fn is_alive(&self, entity: Entity) -> (b: bool)
        requires
            self.wf(),
        ensures
            b == self.live(entity),
    {
        self.allocator.is_alive(entity)
    }

    /// Attaches a component to a live entity, replacing one of the same type.
    /// A dead entity is left as it is.
    pub fn add_component<T: 'static + Send>(&mut self, entity: Entity, component: T)
        requires
            old(self).wf(),
        ensures
            final(self).wf(),
            final(self).entities() == old(self).entities(),
            final(self).alive_flags() == old(self).alive_flags(),
            final(self).slots() == if old(self).live(entity) {
                old(self).slots().insert(entity.idx())
            } else {
                old(self).slots()
            },
            !old(self).live(entity) ==> *final(self) == *old(self),
            old(self).components_on_occupied() ==> final(self).components_on_occupied(),
    {
        if !self.allocator.is_alive(entity) {
            return;
        }
        let ghost slots0 = self.slots();
        let sparse_set = self.components.storage_or_insert::<T>(SparseSet::new());
        sparse_set.insert(entity, component);
        assert(self.slots() =~= slots0.insert(entity.idx()));
    }

    /// Detaches and returns an entity's component of type `T`; a dead or
    /// stale handle removes nothing.
    pub fn remove_component<T: 'static + Send>(&mut self, entity: Entity) -> (r: Option<T>)
        requires
            old(self).wf(),
        ensures
            final(self).wf(),
            final(self).entities() == old(self).entities(),
            final(self).alive_flags() == old(self).alive_flags(),
            final(self).slots().subset_of(old(self).slots()),
            forall|i: u32| i != entity.idx() && old(self).slots().contains(i)
                ==> #[trigger] final(self).slots().contains(i),
            r is Some ==> old(self).slots().contains(entity.idx()),
            !old(self).live(entity) ==> r is None && *final(self) == *old(self),
            old(self).components_on_occupied() ==> final(self).components_on_occupied(),
    {
        if !self.allocator.is_alive(entity) {
            return None;
        }
        let r = match self.components.storage_mut::<T>() {
            Some(sparse_set) => sparse_set.remove(entity),
            None => None,
        };
        assert(self.slots().subset_of(old(self).slots()));
        assert(self.entities() == old(self).entities());
        r
    }

    /// The entity's component of type `T`; a dead or stale handle reads
    /// nothing, even when its slot has been reused.
    pub fn get_component<T: 'static + Send>(&self, entity: Entity) -> (r: Option<&T>)
        requires
            self.wf(),
        ensures
            r is Some ==> self.slots().contains(entity.idx()),
            !self.live(entity) ==> r is None,
    {
        if !self.allocator.is_alive(entity) {
            return None;
        }
        match self.components.storage::<T>() {
            Some(sparse_set) => sparse_set.get(entity),
            None => None,
        }
    }

    /// Mutable access to the entity's component of type `T`; `None` for a
    /// dead or stale handle.
    pub fn get_component_mut<T: 'static + Send>(&mut self, entity: Entity) -> (r: Option<&mut T>)
        requires
            old(self).wf(),
        ensures
            final(self).wf(),
            final(self).entities() == old(self).entities(),
            final(self).alive_flags() == old(self).alive_flags(),
            final(self).slots() == old(self).slots(),
            r is Some ==> old(self).slots().contains(entity.idx()),
            !old(self).live(entity) ==> r is None && *final(self) == *old(self),
    {
        if !self.allocator.is_alive(entity) {
            return None;
        }
        match self.components.storage_mut::<T>() {
            Some(sparse_set) => sparse_set.get_mut(entity),
            None => None,
        }
    }

    /// Whether the entity holds a component of type `T`; never for a dead or
    /// stale handle.
    pub fn has_component<T: 'static + Send>(&self, entity: Entity) -> (b: bool)
        requires
            self.wf(),
        ensures
            b ==> self.slots().contains(entity.idx()),
            !self.live(entity) ==> !b,
    {
        if !self.allocator.is_alive(entity) {
            return false;
        }
        match self.components.storage::<T>() {
            Some(sparse_set) => sparse_set.has(entity),
            None => false,
        }
    }

    /// Returns a reference to the sparse set for a component type.
    pub fn get_storage<T: 'static + Send>(&self) -> (r: Option<&SparseSet<T>>)
        ensures
            r matches Some(s) ==> s.wf() && s.map().dom().subset_of(self.slots()),
    {
        self.components.storage::<T>()
    }

    /// Returns a mutable reference to the sparse set for a component type.
    pub fn get_storage_mut<T: 'static + Send>(&mut self) -> (r: Option<&mut SparseSet<T>>)
        requires
            old(self).wf(),
        ensures
            final(self).wf(),
            final(self).entities() == old(self).entities(),
            final(self).alive_flags() == old(self).alive_flags(),
            match r {
                None => final(self).slots() == old(self).slots(),
                Some(s) => {
                    &&& s.wf()
                    &&& s.map().dom().subset_of(old(self).slots())
                    &&& final(s).map().dom().subset_of(final(self).slots())
                    &&& final(self).slots().subset_of(old(self).slots().union(final(s).map().dom()))
                    &&& forall|i: u32|
                        !s.map().dom().contains(i) && old(self).slots().contains(i)
                            ==> #[trigger] final(self).slots().contains(i)
                    &&& old(self).components_on_occupied() && (forall|i: u32|
                        #[trigger] final(s).map().dom().contains(i) ==> slot_occupied(
                            old(self).entities(),
                            i,
                        )) ==> final(self).components_on_occupied()
                },
            },
    {
        self.components.storage_mut::<T>()
    }

    // --- Resources (singleton data not tied to entities) ---
    pub fn insert_resource<T: 'static + Send>(&mut self, resource: T)
        requires
            old(self).wf(),
        ensures
            final(self).wf(),
            final(self).entities() == old(self).entities(),
            final(self).alive_flags() == old(self).alive_flags(),
            final(self).slots() == old(self).slots(),
    {
        self.resources.insert(resource);
    }

    pub fn get_resource<T: 'static + Send>(&self) -> Option<&T> {
        self.resources.get::<T>()
    }

    pub fn get_resource_mut<T: 'static + Send>(&mut self) -> (r: Option<&mut T>)
        requires
            old(self).wf(),
        ensures
            final(self).wf(),
            final(self).entities() == old(self).entities(),
            final(self).alive_flags() == old(self).alive_flags(),
            final(self).slots() == old(self).slots(),
    {
        self.resources.get_mut::<T>()
    }

    /// The fog grid among the world's resources, if any.
    pub closed spec fn fog_grid(&self) -> Option<FogGrid> {
        fog_resource(self.resources)
    }

    /// The battle map among the world's resources, if any.
    pub closed spec fn battle_map(&self) -> Option<BattleMap> {
        map_resource(self.resources)
    }

    /// The world's fog grid resource.
    pub fn fog_grid_resource(&self) -> (r: Option<&FogGrid>)
        ensures
            match r {
                Some(f) => self.fog_grid() == Some(*f),
                None => self.fog_grid() is None,
            },
    {
        self.resources.get_fog()
    }

    /// The world's battle map resource.
    pub fn battle_map_resource(&self) -> (r: Option<&BattleMap>)
        ensures
            match r {
                Some(m) => self.battle_map() == Some(*m),
                None => self.battle_map() is None,
            },
    {
        self.resources.get_map()
    }

    pub fn has_resource<T: 'static + Send>(&self) -> bool {
        self.resources.contains::<T>()
    }
}

} // verus!

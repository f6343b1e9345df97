use vstd::prelude::*;
use std::any::{Any, TypeId};
use std::collections::HashMap;
use crate::ecs::entity::Entity;
use crate::ecs::component::{ComponentStorage, SparseSet};
use crate::systems::fog::FogGrid;
use crate::map::BattleMap;

verus! {

/// One sparse set per component type, keyed by the component's `TypeId`.
/// Each entry keeps, beside the type-erased set, the downcast that shows it
/// as a `ComponentStorage`. Its values have erased types, so the table is
/// opaque here: what the map operations below do is stated, not proved.
#[verifier::external_body]
pub struct ComponentTable {
    map: HashMap<TypeId, (AnyBox, fn(&mut AnyBox) -> Option<&mut (dyn ComponentStorage + 'static)>)>,
}

/// A value of some type, behind `Box<dyn Any + Send>`.
#[verifier::external_body]
pub struct AnyBox(Box<dyn Any + Send>);

/// `downcast_mut` of a stored set back to `SparseSet<T>`, shown as a
/// `ComponentStorage`. The table stores it beside each set, and
/// `storages_mut` calls it; every set it is stored beside is a `SparseSet<T>`,
/// so the downcast succeeds.
#[verifier::external_body]
fn shown_storage<T: 'static + Send>(b: &mut AnyBox) -> Option<&mut (dyn ComponentStorage + 'static)> {
    match b.0.downcast_mut::<SparseSet<T>>() {
        Some(set) => Some(set),
        None => None,
    }
}

/// Union of a sequence of index sets.
pub open spec fn union_all(sets: Seq<Set<u32>>) -> Set<u32>
    decreases sets.len(),
{
    if sets.len() == 0 {
        Set::empty()
    } else {
        union_all(sets.drop_last()).union(sets.last())
    }
}

/// Removing one index from every set removes it from their union.
proof fn lemma_union_all_remove(a: Seq<Set<u32>>, b: Seq<Set<u32>>, x: u32)
    requires
        a.len() == b.len(),
        forall|k: int| 0 <= k < a.len() ==> #[trigger] b[k] == a[k].remove(x),
    ensures
        union_all(b) == union_all(a).remove(x),
    decreases a.len(),
{
    if a.len() > 0 {
        lemma_union_all_remove(a.drop_last(), b.drop_last(), x);
        assert(b.last() == a.last().remove(x));
        assert(union_all(b) =~= union_all(a).remove(x));
    }
}

/// Entity indices that hold a component of at least one type.
pub uninterp spec fn component_slots(t: ComponentTable) -> Set<u32>;

/// Singleton values keyed by their `TypeId`; opaque for the same reason.
#[verifier::external_body]
pub struct ResourceTable {
    map: HashMap<TypeId, AnyBox>,
}

/// The fog grid stored among the resources, if any.
pub uninterp spec fn fog_resource(t: ResourceTable) -> Option<FogGrid>;

/// The battle map stored among the resources, if any.
pub uninterp spec fn map_resource(t: ResourceTable) -> Option<BattleMap>;

impl ComponentTable {
    /// `HashMap::new`: an empty table, in which no slot holds a component.
    #[verifier::external_body]
    pub fn new() -> (t: ComponentTable)
        ensures
            component_slots(t) == Set::<u32>::empty(),
    {
        ComponentTable { map: HashMap::new() }
    }

    /// `HashMap::get` then `downcast_ref`: the sparse set of type `T`, if one
    /// was created. Claims that it is well formed and that its slots are
    /// among the table's slots.
    #[verifier::external_body]
    pub fn storage<T: 'static + Send>(&self) -> (r: Option<&SparseSet<T>>)
        ensures
            r matches Some(s) ==> s.wf() && s.map().dom().subset_of(component_slots(*self)),
    {
        self.map.get(&TypeId::of::<T>()).map(|(s, _)| s.0.downcast_ref::<SparseSet<T>>().unwrap())
    }

    /// `HashMap::get_mut` then `downcast_mut`: the sparse set of type `T`, if
    /// one was created. Claims, besides what `storage` claims, that the
    /// table's slots afterwards are those of the other types plus those the
    /// set holds when the borrow ends.
    #[verifier::external_body]
    pub fn storage_mut<T: 'static + Send>(&mut self) -> (r: Option<&mut SparseSet<T>>)
        ensures
            match r {
                None => *final(self) == *old(self),
                Some(s) => {
                    &&& s.wf()
                    &&& s.map().dom().subset_of(component_slots(*old(self)))
                    &&& final(s).map().dom().subset_of(component_slots(*final(self)))
                    &&& component_slots(*final(self)).subset_of(
                        component_slots(*old(self)).union(final(s).map().dom()),
                    )
                    &&& forall|i: u32|
                        !s.map().dom().contains(i) && component_slots(*old(self)).contains(i)
                            ==> component_slots(*final(self)).contains(i)
                },
            },
    {
        self.map.get_mut(&TypeId::of::<T>()).map(|(s, _)| s.0.downcast_mut::<SparseSet<T>>().unwrap())
    }

    /// `HashMap::entry(..).or_insert` then `downcast_mut`: the sparse set of
    /// type `T`, the given empty one when none was stored. Claims what
    /// `storage_mut` claims of a set that exists.
    #[verifier::external_body]
    pub fn storage_or_insert<T: 'static + Send>(&mut self, fresh: SparseSet<T>) -> (s: &mut SparseSet<T>)
        requires
            fresh.wf(),
            fresh.map() == Map::<u32, (Entity, T)>::empty(),
        ensures
            s.wf(),
            s.map().dom().subset_of(component_slots(*old(self))),
            final(s).map().dom().subset_of(component_slots(*final(self))),
            component_slots(*final(self)).subset_of(
                component_slots(*old(self)).union(final(s).map().dom()),
            ),
            forall|i: u32|
                !s.map().dom().contains(i) && component_slots(*old(self)).contains(i)
                    ==> component_slots(*final(self)).contains(i),
    {
        let shown: fn(&mut AnyBox) -> Option<&mut (dyn ComponentStorage + 'static)> = shown_storage::<T>;
        let entry = self.map.entry(TypeId::of::<T>());
        let (s, _) = entry.or_insert((AnyBox(Box::new(fresh)), shown));
        s.0.downcast_mut::<SparseSet<T>>().unwrap()
    }

    /// `HashMap::values_mut`, each set shown as a `ComponentStorage`: every
    /// stored set, well formed. The table's slots are the union of the sets'
    /// indices, before and after the sets are changed through the borrows.
    #[verifier::external_body]
    fn storages_mut(&mut self) -> (vs: Vec<&mut (dyn ComponentStorage + 'static)>)
        ensures
            forall|k: int| 0 <= k < vs@.len() ==> #[trigger] vs@[k].storage_wf(),
            component_slots(*old(self)) == union_all(
                Seq::new(vs@.len(), |k: int| vs@[k].indices()),
            ),
            component_slots(*final(self)) == union_all(
                Seq::new(vs@.len(), |k: int| final(vs@[k]).indices()),
            ),
    {
        self.map.values_mut().filter_map(|(b, shown)| shown(b)).collect()
    }

    /// Drops the entity's component of every type: afterwards no type holds
    /// a component for the entity's slot, and every other slot keeps what it
    /// held.
    pub fn remove_all(&mut self, entity: Entity)
        ensures
            component_slots(*final(self)) == component_slots(*old(self)).remove(entity.idx()),
    {
        let mut vs = self.storages_mut();
        let ghost orig = vs@;
        let ghost n = orig.len();
        while vs.len() > 0
            invariant
                n == orig.len(),
                vs@.len() <= n,
                vs@ == orig.take(vs@.len() as int),
                forall|k: int| 0 <= k < n ==> #[trigger] orig[k].storage_wf(),
                forall|k: int|
                    vs@.len() <= k < n ==> #[trigger] final(orig[k]).indices() == orig[k].indices().remove(
                        entity.idx(),
                    ),
            decreases vs@.len(),
        {
            let ghost len0 = vs@.len();
            match vs.pop() {
                Some(s) => {
                    assert(s == orig[len0 - 1]);
                    s.remove(entity);
                },
                None => {},
            }
            assert(vs@ =~= orig.take(vs@.len() as int));
        }
        proof {
            let before = Seq::new(n, |k: int| orig[k].indices());
            let after = Seq::new(n, |k: int| final(orig[k]).indices());
            lemma_union_all_remove(before, after, entity.idx());
        }
    }
}

impl ResourceTable {
    /// `HashMap::new`: an empty table, holding neither a fog grid nor a map.
    #[verifier::external_body]
    pub fn new() -> (t: ResourceTable)
        ensures
            fog_resource(t) is None,
            map_resource(t) is None,
    {
        ResourceTable { map: HashMap::new() }
    }

    /// `HashMap::insert` under `T`'s `TypeId`; replaces an earlier `T`.
    #[verifier::external_body]
    pub fn insert<T: 'static + Send>(&mut self, resource: T) {
        self.map.insert(TypeId::of::<T>(), AnyBox(Box::new(resource)));
    }

    /// `HashMap::get` then `downcast_ref`.
    #[verifier::external_body]
    pub fn get<T: 'static + Send>(&self) -> (r: Option<&T>) {
        self.map.get(&TypeId::of::<T>()).and_then(|r| r.0.downcast_ref())
    }

    /// `HashMap::get_mut` then `downcast_mut`.
    #[verifier::external_body]
    pub fn get_mut<T: 'static + Send>(&mut self) -> (r: Option<&mut T>) {
        self.map.get_mut(&TypeId::of::<T>()).and_then(|r| r.0.downcast_mut())
    }

    /// `HashMap::get` then `downcast_ref`, for the fog grid: the stored grid,
    /// if one was inserted.
    #[verifier::external_body]
    pub fn get_fog(&self) -> (r: Option<&FogGrid>)
        ensures
            match r {
                Some(f) => fog_resource(*self) == Some(*f),
                None => fog_resource(*self) is None,
            },
    {
        self.map.get(&TypeId::of::<FogGrid>()).and_then(|r| r.0.downcast_ref())
    }

    /// `HashMap::get` then `downcast_ref`, for the battle map: the stored map,
    /// if one was inserted.
    #[verifier::external_body]
    pub fn get_map(&self) -> (r: Option<&BattleMap>)
        ensures
            match r {
                Some(m) => map_resource(*self) == Some(*m),
                None => map_resource(*self) is None,
            },
    {
        self.map.get(&TypeId::of::<BattleMap>()).and_then(|r| r.0.downcast_ref())
    }

    /// `HashMap::contains_key`.
    #[verifier::external_body]
    pub fn contains<T: 'static + Send>(&self) -> (b: bool) {
        self.map.contains_key(&TypeId::of::<T>())
    }
}

} // verus!

use vstd::prelude::*;
use crate::ecs::entity::{Entity, INDEX_LIMIT};

verus! {

/// Type-erased view of a component storage: what the world needs to clean up
/// after an entity without knowing the component type.
pub trait ComponentStorage {
    /// The storage's internal invariant.
    spec fn storage_wf(&self) -> bool;

    /// Entity indices whose slot holds a component here.
    spec fn indices(&self) -> Set<u32>;

    /// Drops the entity's component, if any; every other slot keeps its own.
    fn remove(&mut self, entity: Entity)
        requires
            old(self).storage_wf(),
        ensures
            final(self).storage_wf(),
            final(self).indices() == old(self).indices().remove(entity.idx()),
    ;

    fn has(&self, entity: Entity) -> (b: bool)
        requires
            self.storage_wf(),
        ensures
            b == self.indices().contains(entity.idx()),
    ;
}

/// Sparse-set component storage for cache-friendly iteration.
///
/// - `sparse`: indexed by entity index, stores index into `dense` (or None)
/// - `dense`: packed component data for iteration
/// - `entities`: parallel to `dense`, tracks which entity owns each component
pub struct SparseSet<T> {
    sparse: Vec<Option<usize>>,
    dense: Vec<T>,
    entities: Vec<Entity>,
}

impl<T> SparseSet<T> {
    /// `sparse` and `entities` are inverse to each other.
    pub closed spec fn wf(&self) -> bool {
        &&& self.dense@.len() == self.entities@.len()
        &&& self.entities@.len() <= usize::MAX
        &&& self.sparse@.len() <= INDEX_LIMIT
        &&& forall|i: int|
            0 <= i < self.sparse@.len() && (#[trigger] self.sparse@[i]) is Some ==> {
                let d = self.sparse@[i].unwrap();
                &&& d < self.dense@.len()
                &&& self.entities@[d as int].idx() == i
            }
        &&& forall|d: int|
            0 <= d < self.entities@.len() ==> {
                let i = (#[trigger] self.entities@[d]).idx();
                &&& i < self.sparse@.len()
                &&& self.sparse@[i as int] == Some(d as usize)
            }
    }

    /// Stored components in iteration order, each with the entity that owns it.
    pub closed spec fn entries(&self) -> Seq<(Entity, T)> {
        Seq::new(self.dense@.len(), |d: int| (self.entities@[d], self.dense@[d]))
    }

    /// Entity index -> (owning entity, component).
    pub closed spec fn map(&self) -> Map<u32, (Entity, T)> {
        Map::new(
            |i: u32| i < self.sparse@.len() && self.sparse@[i as int] is Some,
            |i: u32|
                {
                    let d = self.sparse@[i as int].unwrap() as int;
                    (self.entities@[d], self.dense@[d])
                },
        )
    }

    /// The map after storing `value` for `entity`: a slot that is already
    /// taken keeps its owner and gets the new value.
    pub open spec fn map_after_insert(m: Map<u32, (Entity, T)>, entity: Entity, value: T) -> Map<
        u32,
        (Entity, T),
    > {
        if m.contains_key(entity.idx()) {
            m.insert(entity.idx(), (m[entity.idx()].0, value))
        } else {
            m.insert(entity.idx(), (entity, value))
        }
    }

    /// The component stored for `entity`'s slot, if any.
    pub open spec fn lookup(&self, entity: Entity) -> Option<T> {
        if self.map().contains_key(entity.idx()) {
            Some(self.map()[entity.idx()].1)
        } else {
            None
        }
    }

    /// The map and the iteration order hold the same components: entries are
    /// keyed by pairwise different slots, each present in the map, and their
    /// number is the map's size.
    pub proof fn lemma_entries_match_map(&self)
        requires
            self.wf(),
        ensures
            self.map().dom().finite(),
            self.map().len() == self.entries().len(),
            forall|d: int|
                0 <= d < self.entries().len() ==> {
                    let (e, v) = #[trigger] self.entries()[d];
                    &&& self.map().contains_key(e.idx())
                    &&& self.map()[e.idx()] == (e, v)
                },
            forall|d1: int, d2: int|
                0 <= d1 < d2 < self.entries().len() ==> (#[trigger] self.entries()[d1]).0.idx()
                    != (#[trigger] self.entries()[d2]).0.idx(),
            forall|i: u32|
                #[trigger] self.map().contains_key(i) ==> exists|d: int|
                    0 <= d < self.entries().len() && (#[trigger] self.entries()[d]).0.idx() == i,
    {
        let n = self.entries().len();
        let keys = Seq::new(n, |d: int| self.entities@[d].idx());
        assert forall|d1: int, d2: int| 0 <= d1 < d2 < n implies keys[d1] != keys[d2] by {
            let e1 = self.entities@[d1];
            let e2 = self.entities@[d2];
            assert(self.sparse@[e1.idx() as int] == Some(d1 as usize));
            assert(self.sparse@[e2.idx() as int] == Some(d2 as usize));
        }
        assert(keys.no_duplicates());
        assert(self.map().dom() =~= keys.to_set()) by {
            assert forall|i: u32| self.map().dom().contains(i) implies keys.to_set().contains(i) by {
                let d = self.sparse@[i as int].unwrap() as int;
                assert(keys[d] == i);
            }
            assert forall|i: u32| keys.to_set().contains(i) implies self.map().dom().contains(i) by {
                let d = choose|d: int| 0 <= d < keys.len() && keys[d] == i;
                let _ = self.entities@[d];
            }
        }
        keys.unique_seq_to_set();
        assert forall|d: int| 0 <= d < n implies {
            let (e, v) = #[trigger] self.entries()[d];
            &&& self.map().contains_key(e.idx())
            &&& self.map()[e.idx()] == (e, v)
        } by {
            let e = self.entities@[d];
            assert(self.sparse@[e.idx() as int] == Some(d as usize));
            assert(self.entries()[d] == (e, self.dense@[d]));
        }
        assert forall|d1: int, d2: int| 0 <= d1 < d2 < n implies (#[trigger] self.entries()[d1]).0.idx()
            != (#[trigger] self.entries()[d2]).0.idx() by {
            assert(keys[d1] != keys[d2]);
        }
        assert forall|i: u32| #[trigger] self.map().contains_key(i) implies exists|d: int|
            0 <= d < self.entries().len() && (#[trigger] self.entries()[d]).0.idx() == i by {
            let d = self.sparse@[i as int].unwrap() as int;
            assert(keys[d] == i);
            assert(self.entries()[d].0 == self.entities@[d]);
        }
    }

    /// There are never more stored components than slots in the sparse index.
    proof fn lemma_len_bound(&self)
        requires
            self.wf(),
        ensures
            self.entities@.len() <= self.sparse@.len(),
    {
        let n = self.entities@.len();
        let keys = Seq::new(n, |d: int| self.entities@[d].idx() as int);
        assert forall|d1: int, d2: int| 0 <= d1 < d2 < n implies keys[d1] != keys[d2] by {
            let e1 = self.entities@[d1];
            let e2 = self.entities@[d2];
            assert(self.sparse@[e1.idx() as int] == Some(d1 as usize));
            assert(self.sparse@[e2.idx() as int] == Some(d2 as usize));
        }
        assert(keys.no_duplicates());
        keys.unique_seq_to_set();
        let range = vstd::set_lib::set_int_range(0, self.sparse@.len() as int);
        vstd::set_lib::lemma_int_range(0, self.sparse@.len() as int);
        assert(keys.to_set().subset_of(range)) by {
            assert forall|k: int| keys.to_set().contains(k) implies range.contains(k) by {
                let d = choose|d: int| 0 <= d < keys.len() && keys[d] == k;
                let _ = self.entities@[d];
            }
        }
        vstd::set_lib::lemma_len_subset(keys.to_set(), range);
    }

    pub fn new() -> (s: Self)
        ensures
            s.wf(),
            s.map() == Map::<u32, (Entity, T)>::empty(),
            s.entries() == Seq::<(Entity, T)>::empty(),
    {
        let s = SparseSet { sparse: Vec::new(), dense: Vec::new(), entities: Vec::new() };
        assert(s.map() =~= Map::<u32, (Entity, T)>::empty());
        assert(s.entries() =~= Seq::<(Entity, T)>::empty());
        s
    }

    pub fn insert(&mut self, entity: Entity, value: T)
        requires
            old(self).wf(),
        ensures
            final(self).wf(),
            final(self).map() == Self::map_after_insert(old(self).map(), entity, value),
    {
        let idx = entity.index() as usize;
        let ghost m0 = self.map();
        // Grow sparse array if needed
        while self.sparse.len() <= idx
            invariant
                self.wf(),
                self.map() == m0,
                idx < INDEX_LIMIT,
            decreases idx + 1 - self.sparse@.len(),
        {
            let ghost before = self.sparse@;
            self.sparse.push(None);
            assert(self.map() =~= m0) by {
                assert forall|i: u32| #[trigger] self.map().contains_key(i) == m0.contains_key(i) by {
                    if i < before.len() {
                        assert(self.sparse@[i as int] == before[i as int]);
                    }
                }
            }
            assert forall|d: int| 0 <= d < self.entities@.len() implies {
                let i = (#[trigger] self.entities@[d]).idx();
                &&& i < self.sparse@.len()
                &&& self.sparse@[i as int] == Some(d as usize)
            } by {
                let i = self.entities@[d].idx();
                assert(before[i as int] == Some(d as usize));
            }
        }
        match self.sparse[idx] {
            Some(dense_idx) => {
                // Entity already has this component, update in place
                self.dense.set(dense_idx, value);
                assert(self.map() =~= m0.insert(entity.idx(), (m0[entity.idx()].0, value)));
            },
            None => {
                // New component
                let dense_idx = self.dense.len();
                proof {
                    self.lemma_len_bound();
                }
                let ghost sparse0 = self.sparse@;
                let ghost ents0 = self.entities@;
                self.sparse.set(idx, Some(dense_idx));
                self.dense.push(value);
                self.entities.push(entity);
                assert forall|i: int|
                    0 <= i < self.sparse@.len() && (#[trigger] self.sparse@[i]) is Some implies {
                        let d = self.sparse@[i].unwrap();
                        &&& d < self.dense@.len()
                        &&& self.entities@[d as int].idx() == i
                    } by {
                    if i != idx {
                        assert(sparse0[i] == self.sparse@[i]);
                        let d = sparse0[i].unwrap();
                        assert(self.entities@[d as int] == ents0[d as int]);
                    }
                }
                assert forall|d: int| 0 <= d < self.entities@.len() implies {
                    let i = (#[trigger] self.entities@[d]).idx();
                    &&& i < self.sparse@.len()
                    &&& self.sparse@[i as int] == Some(d as usize)
                } by {
                    if d < ents0.len() {
                        assert(self.entities@[d] == ents0[d]);
                        let i = ents0[d].idx();
                        assert(sparse0[i as int] == Some(d as usize));
                    }
                }
                assert(self.map() =~= m0.insert(entity.idx(), (entity, value))) by {
                    assert forall|i: u32| #[trigger] self.map().contains_key(i) implies (i == entity.idx()
                        || m0.contains_key(i)) && self.map()[i] == (if i == entity.idx() {
                        (entity, value)
                    } else {
                        m0[i]
                    }) by {
                        if i != entity.idx() {
                            let d = sparse0[i as int].unwrap();
                            assert(self.sparse@[i as int] == sparse0[i as int]);
                            assert(self.entities@[d as int] == ents0[d as int]);
                        }
                    }
                    assert forall|i: u32| #[trigger] m0.contains_key(i) implies self.map().contains_key(i) by {
                        assert(i != entity.idx());
                        assert(self.sparse@[i as int] == sparse0[i as int]);
                    }
                }
            },
        }
    }

    pub fn remove(&mut self, entity: Entity) -> (r: Option<T>)
        requires
            old(self).wf(),
        ensures
            final(self).wf(),
            r == old(self).lookup(entity),
            final(self).map() == old(self).map().remove(entity.idx()),
    {
        let idx = entity.index() as usize;
        let ghost m0 = self.map();
        if idx >= self.sparse.len() {
            assert(self.map() =~= m0.remove(entity.idx()));
            return None;
        }
        match self.sparse[idx] {
            None => {
                assert(self.map() =~= m0.remove(entity.idx()));
                None
            },
            Some(dense_idx) => {
                let ghost sparse0 = self.sparse@;
                let ghost ents0 = self.entities@;
                let ghost dense0 = self.dense@;
                let ghost last = (ents0.len() - 1) as int;
                self.sparse.set(idx, None);
                // Swap-remove from dense arrays
                let removed = self.dense.swap_remove(dense_idx);
                self.entities.swap_remove(dense_idx);
                // Update the sparse entry for the element that was swapped in
                if dense_idx < self.dense.len() {
                    let swapped_entity = self.entities[dense_idx];
                    assert(swapped_entity == ents0[last]);
                    assert(sparse0[swapped_entity.idx() as int] == Some(last as usize));
                    self.sparse.set(swapped_entity.index() as usize, Some(dense_idx));
                }
                assert forall|i: int|
                    0 <= i < self.sparse@.len() && (#[trigger] self.sparse@[i]) is Some implies {
                        let d = self.sparse@[i].unwrap();
                        &&& d < self.dense@.len()
                        &&& self.entities@[d as int].idx() == i
                    } by {
                    if dense_idx < self.dense@.len() && i == ents0[last].idx() {
                    } else {
                        assert(self.sparse@[i] == sparse0[i]);
                        let d = sparse0[i].unwrap();
                        assert(ents0[d as int].idx() == i);
                        assert(d != dense_idx);
                        if d as int == last {
                            assert(false);
                        }
                    }
                }
                assert forall|d: int| 0 <= d < self.entities@.len() implies {
                    let i = (#[trigger] self.entities@[d]).idx();
                    &&& i < self.sparse@.len()
                    &&& self.sparse@[i as int] == Some(d as usize)
                } by {
                    if d == dense_idx {
                        assert(self.entities@[d] == ents0[last]);
                    } else {
                        assert(self.entities@[d] == ents0[d]);
                        let i = ents0[d].idx();
                        assert(sparse0[i as int] == Some(d as usize));
                        assert(i != idx);
                        if dense_idx < self.dense@.len() {
                            assert(ents0[last].idx() != i);
                        }
                    }
                }
                assert(self.map() =~= m0.remove(entity.idx())) by {
                    assert forall|i: u32| #[trigger] self.map().contains_key(i) implies m0.remove(
                        entity.idx(),
                    ).contains_key(i) && self.map()[i] == m0[i] by {
                        let d = self.sparse@[i as int].unwrap() as int;
                        assert(self.entities@[d].idx() == i);
                        if d == dense_idx {
                            assert(self.entities@[d] == ents0[last]);
                            assert(self.dense@[d] == dense0[last]);
                            assert(sparse0[i as int] == Some(last as usize));
                        } else {
                            assert(self.entities@[d] == ents0[d]);
                            assert(self.dense@[d] == dense0[d]);
                            assert(sparse0[i as int] == Some(d as usize));
                        }
                    }
                    assert forall|i: u32| #[trigger] m0.remove(entity.idx()).contains_key(i)
                        implies self.map().contains_key(i) by {
                        let d = sparse0[i as int].unwrap() as int;
                        assert(ents0[d].idx() == i);
                        if d == last {
                            assert(self.entities@[dense_idx as int] == ents0[last]);
                        } else {
                            assert(self.entities@[d] == ents0[d]);
                        }
                    }
                }
                Some(removed)
            },
        }
    }

    pub fn get(&self, entity: Entity) -> (r: Option<&T>)
        requires
            self.wf(),
        ensures
            match r {
                Some(v) => self.lookup(entity) == Some(*v),
                None => self.lookup(entity) is None,
            },
    {
        let idx = entity.index() as usize;
        if idx >= self.sparse.len() {
            return None;
        }
        match self.sparse[idx] {
            Some(dense_idx) => Some(&self.dense[dense_idx]),
            None => None,
        }
    }

    pub fn get_mut(&mut self, entity: Entity) -> (r: Option<&mut T>)
        requires
            old(self).wf(),
        ensures
            final(self).wf(),
            match r {
                Some(v) => {
                    &&& old(self).lookup(entity) == Some(*v)
                    &&& final(self).map() == old(self).map().insert(
                        entity.idx(),
                        (old(self).map()[entity.idx()].0, *final(v)),
                    )
                    &&& final(self).entries().len() == old(self).entries().len()
                },
                None => {
                    &&& old(self).lookup(entity) is None
                    &&& final(self).map() == old(self).map()
                    &&& final(self).entries() == old(self).entries()
                },
            },
    {
        let idx = entity.index() as usize;
        if idx >= self.sparse.len() {
            return None;
        }
        match self.sparse[idx] {
            Some(dense_idx) => {
                let ghost m0 = self.map();
                let r = &mut self.dense[dense_idx];
                Some(r)
            },
            None => None,
        }
    }

    pub fn has(&self, entity: Entity) -> (b: bool)
        requires
            self.wf(),
        ensures
            b == self.map().contains_key(entity.idx()),
    {
        let idx = entity.index() as usize;
        idx < self.sparse.len() && self.sparse[idx].is_some()
    }

    /// Every stored component with its owning entity, in storage order.
    pub fn iter(&self) -> (items: Vec<(Entity, &T)>)
        requires
            self.wf(),
        ensures
            items@.len() == self.entries().len(),
            items@.len() == self.map().len(),
            forall|d: int|
                0 <= d < items@.len() ==> (#[trigger] items@[d]).0 == self.entries()[d].0
                    && *items@[d].1 == self.entries()[d].1,
            forall|d: int|
                0 <= d < items@.len() ==> self.map().contains_key((#[trigger] items@[d]).0.idx())
                    && self.map()[items@[d].0.idx()] == (items@[d].0, *items@[d].1),
            forall|d1: int, d2: int|
                0 <= d1 < d2 < items@.len() ==> (#[trigger] items@[d1]).0.idx() != (#[trigger] items@[d2]).0.idx(),
            forall|i: u32|
                #[trigger] self.map().contains_key(i) ==> exists|d: int|
                    0 <= d < items@.len() && (#[trigger] items@[d]).0.idx() == i,
    {
        proof {
            self.lemma_entries_match_map();
        }
        let mut items: Vec<(Entity, &T)> = Vec::new();
        let n = self.dense.len();
        let mut d: usize = 0;
        while d < n
            invariant
                self.wf(),
                n == self.dense@.len(),
                d <= n,
                items@.len() == d,
                forall|k: int|
                    0 <= k < d ==> (#[trigger] items@[k]).0 == self.entries()[k].0 && *items@[k].1
                        == self.entries()[k].1,
            decreases n - d,
        {
            items.push((self.entities[d], &self.dense[d]));
            d += 1;
        }
        assert forall|i: u32| #[trigger] self.map().contains_key(i) implies exists|k: int|
            0 <= k < items@.len() && (#[trigger] items@[k]).0.idx() == i by {
            let k = choose|k: int| 0 <= k < self.entries().len() && (#[trigger] self.entries()[k]).0.idx() == i;
            assert(items@[k].0 == self.entries()[k].0);
        }
        items
    }

    /// Owner of the `d`-th stored component in storage order.
    pub fn entity_at(&self, d: usize) -> (e: Entity)
        requires
            self.wf(),
            d < self.entries().len(),
        ensures
            e == self.entries()[d as int].0,
    {
        self.entities[d]
    }

    /// Mutable access to the `d`-th stored component in storage order; the
    /// counterpart of iterating mutably over the storage.
    pub fn value_at_mut(&mut self, d: usize) -> (v: &mut T)
        requires
            old(self).wf(),
            d < old(self).entries().len(),
        ensures
            final(self).wf(),
            *v == old(self).entries()[d as int].1,
            final(self).entries() == old(self).entries().update(
                d as int,
                (old(self).entries()[d as int].0, *final(v)),
            ),
            final(self).map() == old(self).map().insert(
                old(self).entries()[d as int].0.idx(),
                (old(self).entries()[d as int].0, *final(v)),
            ),
    {
        proof {
            let e = self.entities@[d as int];
            assert(self.sparse@[e.idx() as int] == Some(d));
        }
        &mut self.dense[d]
    }

    pub fn len(&self) -> (n: usize)
        requires
            self.wf(),
        ensures
            n == self.map().len(),
            n == self.entries().len(),
    {
        proof {
            self.lemma_entries_match_map();
        }
        self.dense.len()
    }

    pub fn is_empty(&self) -> (b: bool)
        requires
            self.wf(),
        ensures
            b == (self.map().len() == 0),
    {
        proof {
            self.lemma_entries_match_map();
        }
        self.dense.len() == 0
    }
}

impl<T> ComponentStorage for SparseSet<T> {
    closed spec fn storage_wf(&self) -> bool {
        self.wf()
    }

    closed spec fn indices(&self) -> Set<u32> {
        self.map().dom()
    }

    fn remove(&mut self, entity: Entity) {
        SparseSet::remove(self, entity);
    }

    fn has(&self, entity: Entity) -> (b: bool) {
        SparseSet::has(self, entity)
    }
}

/// A read after a write gives back what was written, for the written slot,
/// and leaves every other slot as it was.
pub proof fn law_lookup_after_insert<T>(m: Map<u32, (Entity, T)>, entity: Entity, value: T, other: u32)
    requires
        other != entity.idx(),
    ensures
        SparseSet::<T>::map_after_insert(m, entity, value).contains_key(entity.idx()),
        SparseSet::<T>::map_after_insert(m, entity, value)[entity.idx()].1 == value,
        SparseSet::<T>::map_after_insert(m, entity, value).contains_key(other) == m.contains_key(other),
        m.contains_key(other) ==> SparseSet::<T>::map_after_insert(m, entity, value)[other] == m[other],
{
}

/// Writing twice to a slot is the same as writing the second value once.
pub proof fn law_insert_overwrites<T>(m: Map<u32, (Entity, T)>, entity: Entity, v1: T, v2: T)
    ensures
        SparseSet::<T>::map_after_insert(SparseSet::<T>::map_after_insert(m, entity, v1), entity, v2)
            == SparseSet::<T>::map_after_insert(m, entity, v2),
{
    assert(SparseSet::<T>::map_after_insert(SparseSet::<T>::map_after_insert(m, entity, v1), entity, v2)
        =~= SparseSet::<T>::map_after_insert(m, entity, v2));
}

/// Removing what was just stored gives the storage back, when the slot was free.
pub proof fn law_remove_undoes_insert<T>(m: Map<u32, (Entity, T)>, entity: Entity, value: T)
    requires
        !m.contains_key(entity.idx()),
    ensures
        SparseSet::<T>::map_after_insert(m, entity, value).remove(entity.idx()) == m,
{
    assert(SparseSet::<T>::map_after_insert(m, entity, value).remove(entity.idx()) =~= m);
}

} // verus!

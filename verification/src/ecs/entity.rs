use vstd::prelude::*;

verus! {

/// Number of distinct entity slots: the index takes the lower 24 bits.
pub const INDEX_LIMIT: u32 = 0x0100_0000;

/// Index carried by a packed entity id (its lower 24 bits).
pub open spec fn index_of(raw: u32) -> u32 {
    (raw % 0x0100_0000) as u32
}

/// Generation carried by a packed entity id (its upper 8 bits).
pub open spec fn generation_of(raw: u32) -> u8 {
    (raw / 0x0100_0000) as u8
}

/// Packed id of the entity with the given index and generation.
pub open spec fn pack(index: u32, generation: u8) -> u32 {
    (generation * 0x0100_0000 + index % 0x0100_0000) as u32
}

/// Entity identifier with a generational index.
/// Lower 24 bits = index, upper 8 bits = generation.
#[derive(Clone, Copy, Debug, PartialEq, Eq, Hash, Structural)]
pub struct Entity(u32);

impl View for Entity {
    type V = u32;

    closed spec fn view(&self) -> u32 {
        self.0
    }
}

impl Entity {
    /// Index of this entity's slot.
    pub open spec fn idx(self) -> u32 {
        index_of(self@)
    }

    /// Generation of this entity's slot when the id was handed out.
    pub open spec fn gen(self) -> u8 {
        generation_of(self@)
    }

    pub fn new(index: u32, generation: u8) -> (e: Self)
        requires
            index < INDEX_LIMIT,
        ensures
            e@ == pack(index, generation),
            e.idx() == index,
            e.gen() == generation,
    {
        let raw = (generation as u32) << 24 | (index & 0x00FF_FFFF);
        proof {
            let g = generation as u32;
            assert(raw == g * 0x0100_0000 + index) by (bit_vector)
                requires
                    raw == (g << 24) | (index & 0x00FF_FFFF),
                    index < 0x0100_0000,
                    g < 256,
            ;
        }
        Entity(raw)
    }

    pub fn index(self) -> (i: u32)
        ensures
            i == self.idx(),
            i < INDEX_LIMIT,
    {
        let raw = self.0;
        let i = raw & 0x00FF_FFFF;
        assert(i == raw % 0x0100_0000) by (bit_vector)
            requires
                i == raw & 0x00FF_FFFF,
        ;
        i
    }

    pub fn generation(self) -> (g: u8)
        ensures
            g == self.gen(),
    {
        let raw = self.0;
        let g = raw >> 24;
        assert(g == raw / 0x0100_0000 && g < 256) by (bit_vector)
            requires
                g == raw >> 24,
        ;
        g as u8
    }

    pub fn raw(self) -> (r: u32)
        ensures
            r == self@,
    {
        self.0
    }

    pub fn from_raw(raw: u32) -> (e: Self)
        ensures
            e@ == raw,
    {
        Entity(raw)
    }
}

/// Two ids are the same entity exactly when their packed values agree.
pub proof fn law_id_determines_entity(a: Entity, b: Entity)
    ensures
        (a@ == b@) <==> (a == b),
{
}

/// An id is determined by its index and generation, and packing them back
/// yields the same id.
pub proof fn law_unpack_then_pack(raw: u32)
    ensures
        pack(index_of(raw), generation_of(raw)) == raw,
        index_of(pack(index_of(raw), generation_of(raw))) == index_of(raw),
{
}

/// Packing an index and a generation and reading them back gives both back.
pub proof fn law_pack_then_unpack(index: u32, generation: u8)
    requires
        index < INDEX_LIMIT,
    ensures
        index_of(pack(index, generation)) == index,
        generation_of(pack(index, generation)) == generation,
{
}

} // verus!

verus! {

/// Abstract state of an allocator: the generation of every slot ever handed
/// out, and the stack of slot indices waiting to be reused (top = last).
pub type AllocatorModel = (Seq<u8>, Seq<u32>);

/// Every index waiting for reuse names a slot that exists, and waits once.
pub open spec fn model_wf(m: AllocatorModel) -> bool {
    &&& m.0.len() <= INDEX_LIMIT
    &&& forall|i: int| 0 <= i < m.1.len() ==> #[trigger] m.1[i] < m.0.len()
    &&& m.1.no_duplicates()
}

/// `e` is alive when it was handed out and not released since: its slot
/// exists, is in use (not waiting for reuse) and still carries `e`'s
/// generation.
pub open spec fn alive_in(m: AllocatorModel, e: Entity) -> bool {
    &&& e.idx() < m.0.len()
    &&& m.0[e.idx() as int] == e.gen()
    &&& !m.1.contains(e.idx())
}

/// The generation that follows `g` (it wraps from 255 back to 0).
pub open spec fn next_generation(g: u8) -> u8 {
    ((g + 1) % 256) as u8
}

/// Index of the next entity handed out: the most recently freed slot, or a new one.
pub open spec fn alloc_index(m: AllocatorModel) -> u32 {
    if m.1.len() > 0 {
        m.1.last()
    } else {
        m.0.len() as u32
    }
}

/// Generation of the next entity handed out.
pub open spec fn alloc_generation(m: AllocatorModel) -> u8 {
    if m.1.len() > 0 {
        m.0[m.1.last() as int]
    } else {
        0
    }
}

/// Allocator state after handing out one entity.
pub open spec fn after_alloc(m: AllocatorModel) -> AllocatorModel {
    if m.1.len() > 0 {
        (m.0, m.1.drop_last())
    } else {
        (m.0.push(0), m.1)
    }
}

/// Whether an allocation is possible without exceeding the 24-bit index space.
pub open spec fn can_alloc(m: AllocatorModel) -> bool {
    m.1.len() > 0 || m.0.len() < INDEX_LIMIT
}

/// Allocator state after releasing `e`; a dead or stale id changes nothing.
pub open spec fn after_dealloc(m: AllocatorModel, e: Entity) -> AllocatorModel {
    if alive_in(m, e) {
        (m.0.update(e.idx() as int, next_generation(e.gen())), m.1.push(e.idx()))
    } else {
        m
    }
}

/// Allocates and recycles entity IDs with generational tracking.
pub struct EntityAllocator {
    generations: Vec<u8>,
    free_list: Vec<u32>,
    /// Per slot: handed out and not released since.
    in_use: Vec<bool>,
}

impl View for EntityAllocator {
    type V = AllocatorModel;

    closed spec fn view(&self) -> AllocatorModel {
        (self.generations@, self.free_list@)
    }
}

impl EntityAllocator {
    /// The per-slot use flags agree with the free list.
    pub closed spec fn tracks_use(&self) -> bool {
        &&& self.in_use@.len() == self.generations@.len()
        &&& forall|i: int|
            0 <= i < self.in_use@.len() ==> #[trigger] self.in_use@[i] == !self.free_list@.contains(i as u32)
    }

    /// Every index waiting for reuse names an existing slot, once, and the
    /// use flags agree with the free list.
    pub open spec fn wf(&self) -> bool {
        model_wf(self@) && self.tracks_use()
    }

    pub fn new() -> (a: Self)
        ensures
            a@.0 == Seq::<u8>::empty(),
            a@.1 == Seq::<u32>::empty(),
            a.wf(),
    {
        EntityAllocator { generations: Vec::new(), free_list: Vec::new(), in_use: Vec::new() }
    }

    /// Whether another entity can be handed out within the 24-bit index space.
    pub fn can_allocate(&self) -> (b: bool)
        ensures
            b == can_alloc(self@),
    {
        self.free_list.len() > 0 || self.generations.len() < INDEX_LIMIT as usize
    }

    pub fn allocate(&mut self) -> (e: Entity)
        requires
            old(self).wf(),
            can_alloc(old(self)@),
        ensures
            final(self).wf(),
            e.idx() == alloc_index(old(self)@),
            e.gen() == alloc_generation(old(self)@),
            final(self)@ == after_alloc(old(self)@),
            alive_in(final(self)@, e),
    {
        let ghost m0 = self@;
        if let Some(index) = self.free_list.pop() {
            proof {
                assert(m0.1.contains(index));
                assert(index < m0.0.len());
            }
            self.in_use.set(index as usize, true);
            proof {
                assert forall|k: int| 0 <= k < self.free_list@.len() implies #[trigger] self.free_list@[k]
                    < self.generations@.len() by {
                    assert(self.free_list@[k] == m0.1[k]);
                }
                assert forall|i: int| 0 <= i < self.in_use@.len() implies #[trigger] self.in_use@[i]
                    == !self.free_list@.contains(i as u32) by {
                    if i == index {
                        if self.free_list@.contains(index) {
                            let k = choose|k: int| 0 <= k < self.free_list@.len() && self.free_list@[k] == index;
                            assert(m0.1[k] == m0.1[m0.1.len() - 1]);
                        }
                    } else {
                        if self.free_list@.contains(i as u32) {
                            let k = choose|k: int| 0 <= k < self.free_list@.len() && self.free_list@[k] == i as u32;
                            assert(m0.1[k] == i as u32);
                        }
                        if m0.1.contains(i as u32) {
                            let k = choose|k: int| 0 <= k < m0.1.len() && m0.1[k] == i as u32;
                            assert(k != m0.1.len() - 1);
                            assert(self.free_list@[k] == i as u32);
                        }
                    }
                }
            }
            let gen = self.generations[index as usize];
            Entity::new(index, gen)
        } else {
            let index = self.generations.len() as u32;
            self.generations.push(0);
            self.in_use.push(true);
            proof {
                assert forall|k: int| 0 <= k < self.free_list@.len() implies #[trigger] self.free_list@[k]
                    < self.generations@.len() by {
                }
                assert forall|i: int| 0 <= i < self.in_use@.len() implies #[trigger] self.in_use@[i]
                    == !self.free_list@.contains(i as u32) by {
                    if i < m0.0.len() {
                        assert(self.in_use@[i] == old(self).in_use@[i]);
                    }
                }
            }
            Entity::new(index, 0)
        }
    }

    pub fn deallocate(&mut self, entity: Entity) -> (released: bool)
        requires
            old(self).wf(),
        ensures
            final(self).wf(),
            released == alive_in(old(self)@, entity),
            final(self)@ == after_dealloc(old(self)@, entity),
    {
        if !self.is_alive(entity) {
            return false;
        }
        let idx = entity.index() as usize;
        let ghost free0 = self.free_list@;
        let next = self.generations[idx].wrapping_add(1);
        self.generations.set(idx, next);
        self.in_use.set(idx, false);
        let i = entity.index();
        self.free_list.push(i);
        proof {
            assert forall|k: int| 0 <= k < self.free_list@.len() implies #[trigger] self.free_list@[k]
                < self.generations@.len() by {
                assert(free0 == old(self)@.1);
                if k < free0.len() {
                    assert(self.free_list@[k] == free0[k]);
                    assert(old(self)@.1[k] < old(self)@.0.len());
                } else {
                    assert(self.free_list@[k] == i);
                }
            }
            assert forall|a: int, b: int|
                0 <= a < self.free_list@.len() && 0 <= b < self.free_list@.len() && a != b implies self.free_list@[a]
                != self.free_list@[b] by {
                if a < free0.len() && b < free0.len() {
                } else if a < free0.len() {
                    assert(free0.contains(free0[a]));
                } else {
                    assert(free0.contains(free0[b]));
                }
            }
            assert forall|j: int| 0 <= j < self.in_use@.len() implies #[trigger] self.in_use@[j]
                == !self.free_list@.contains(j as u32) by {
                if j != idx {
                    assert(self.in_use@[j] == old(self).in_use@[j]);
                    if self.free_list@.contains(j as u32) {
                        let k = choose|k: int| 0 <= k < self.free_list@.len() && self.free_list@[k] == j as u32;
                        assert(k < free0.len());
                        assert(free0[k] == j as u32);
                    }
                    if free0.contains(j as u32) {
                        let k = choose|k: int| 0 <= k < free0.len() && free0[k] == j as u32;
                        assert(self.free_list@[k] == j as u32);
                    }
                } else {
                    assert(self.free_list@[free0.len() as int] == i);
                }
            }
        }
        true
    }

    pub fn is_alive(&self, entity: Entity) -> (alive: bool)
        requires
            self.wf(),
        ensures
            alive == alive_in(self@, entity),
    {
        let idx = entity.index() as usize;
        if idx < self.generations.len() {
            proof {
                assert(self.in_use@[idx as int] == !self@.1.contains(idx as u32));
            }
            self.in_use[idx] && self.generations[idx] == entity.generation()
        } else {
            false
        }
    }
}

/// An entity just handed out is alive, and no entity of its slot was alive
/// before.
pub proof fn law_allocated_is_alive(m: AllocatorModel)
    requires
        model_wf(m),
        can_alloc(m),
    ensures
        model_wf(after_alloc(m)),
        after_alloc(m).0.len() > alloc_index(m),
        after_alloc(m).0[alloc_index(m) as int] == alloc_generation(m),
        !after_alloc(m).1.contains(alloc_index(m)),
        forall|e: Entity| e.idx() == alloc_index(m) ==> !#[trigger] alive_in(m, e),
{
    if m.1.len() > 0 {
        if after_alloc(m).1.contains(alloc_index(m)) {
            let k = choose|k: int| 0 <= k < after_alloc(m).1.len() && after_alloc(m).1[k] == alloc_index(m);
            assert(m.1[k] == m.1[m.1.len() - 1]);
        }
    }
}

/// Releasing a live entity kills it, and releasing it a second time is refused.
pub proof fn law_release_kills(m: AllocatorModel, e: Entity)
    requires
        alive_in(m, e),
    ensures
        !alive_in(after_dealloc(m, e), e),
        after_dealloc(after_dealloc(m, e), e) == after_dealloc(m, e),
{
}

/// No entity of a slot waiting for reuse is alive, whatever its generation,
/// and releasing one changes nothing: only handed-out entities are alive.
pub proof fn law_waiting_slot_is_dead(m: AllocatorModel, e: Entity)
    requires
        m.1.contains(e.idx()),
    ensures
        !alive_in(m, e),
        after_dealloc(m, e) == m,
{
}

/// Releasing an entity leaves every entity of another slot as it was.
pub proof fn law_release_is_local(m: AllocatorModel, e: Entity, other: Entity)
    requires
        other.idx() != e.idx(),
    ensures
        alive_in(after_dealloc(m, e), other) == alive_in(m, other),
{
    if alive_in(m, e) {
        let f = m.1.push(e.idx());
        if f.contains(other.idx()) {
            let k = choose|k: int| 0 <= k < f.len() && f[k] == other.idx();
            assert(k < m.1.len());
            assert(m.1[k] == other.idx());
        }
        if m.1.contains(other.idx()) {
            let k = choose|k: int| 0 <= k < m.1.len() && m.1[k] == other.idx();
            assert(f[k] == other.idx());
        }
    }
}

/// The next allocation after releasing a live entity reuses its slot with
/// the following generation.
pub proof fn law_release_then_reuse(m: AllocatorModel, e: Entity)
    requires
        model_wf(m),
        alive_in(m, e),
    ensures
        model_wf(after_dealloc(m, e)),
        can_alloc(after_dealloc(m, e)),
        alloc_index(after_dealloc(m, e)) == e.idx(),
        alloc_generation(after_dealloc(m, e)) == next_generation(e.gen()),
{
}

/// Allocations from a fresh allocator hand out indices 0, 1, 2, ... in order,
/// all of generation 0.
pub proof fn law_fresh_allocations_sequential(m: AllocatorModel)
    requires
        m.1.len() == 0,
        m.0.len() < INDEX_LIMIT,
    ensures
        alloc_index(m) == m.0.len(),
        alloc_generation(m) == 0,
        after_alloc(m).1.len() == 0,
        after_alloc(m).0.len() == m.0.len() + 1,
{
}

} // verus!

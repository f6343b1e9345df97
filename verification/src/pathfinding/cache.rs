use vstd::prelude::*;
use crate::types::{SpriteId, sprite_code};

verus! {

/// Key of a cached search: start tile, goal tile, unit kind.
pub type PathKey = ((u32, u32), (u32, u32), u8);

/// Cached search result (`None` = no path) and the access stamp of its last use.
pub type PathSlot = (Option<Seq<(u32, u32)>>, u64);

/// Abstract value of a cached path result.
pub open spec fn path_view(p: Option<Vec<(u32, u32)>>) -> Option<Seq<(u32, u32)>> {
    match p {
        Some(v) => Some(v@),
        None => None,
    }
}

/// Key for path cache lookups.
#[derive(Clone, Copy)]
struct CacheKey {
    start: (u32, u32),
    goal: (u32, u32),
    unit_kind: u8,
}

/// Entry in the path cache with usage tracking for LRU eviction.
struct CacheEntry {
    key: CacheKey,
    path: Option<Vec<(u32, u32)>>,
    last_used: u64,
}

spec fn key_view(k: CacheKey) -> PathKey {
    (k.start, k.goal, k.unit_kind)
}

spec fn slot_view(e: CacheEntry) -> PathSlot {
    (path_view(e.path), e.last_used)
}

/// The key whose entry was used least recently (the smallest stamp), among
/// entries whose stamp is below `u64::MAX`.
pub open spec fn is_lru_key(m: Map<PathKey, PathSlot>, k: PathKey) -> bool {
    &&& m.contains_key(k)
    &&& m[k].1 < u64::MAX
    &&& forall|j: PathKey| #[trigger] m.contains_key(j) ==> m[k].1 <= m[j].1
}

/// Whether some entry can be evicted (its stamp is below `u64::MAX`).
pub open spec fn has_evictable(m: Map<PathKey, PathSlot>) -> bool {
    exists|k: PathKey| #[trigger] m.contains_key(k) && m[k].1 < u64::MAX
}

/// The entry to evict: the one used least recently.
pub open spec fn lru_key(m: Map<PathKey, PathSlot>) -> PathKey {
    choose|k: PathKey| is_lru_key(m, k)
}

/// Cache contents after storing `path` under `key` with stamp `stamp`: a
/// full cache (at least `capacity` entries) first drops its least recently
/// used entry, when it has one with a stamp below `u64::MAX`.
pub open spec fn cache_after_insert(
    m: Map<PathKey, PathSlot>,
    capacity: usize,
    key: PathKey,
    path: Option<Seq<(u32, u32)>>,
    stamp: u64,
) -> Map<PathKey, PathSlot> {
    let kept = if m.len() >= capacity && has_evictable(m) {
        m.remove(lru_key(m))
    } else {
        m
    };
    kept.insert(key, (path, stamp))
}

/// Key under which a search is cached.
pub open spec fn path_key(start: (u32, u32), goal: (u32, u32), unit_kind: SpriteId) -> PathKey {
    (start, goal, sprite_code(unit_kind) as u8)
}

/// Stamps of different entries differ.
pub open spec fn stamps_distinct(m: Map<PathKey, PathSlot>) -> bool {
    forall|a: PathKey, b: PathKey|
        #[trigger] m.contains_key(a) && #[trigger] m.contains_key(b) && a != b ==> m[a].1 != m[b].1
}

/// LRU path cache for frequently requested paths.
/// Caches up to `capacity` path results and evicts least recently used entries.
pub struct PathCache {
    entries: Vec<CacheEntry>,
    capacity: usize,
    access_counter: u64,
    /// Invalidation generation — incremented when map changes to flush stale results.
    generation: u64,
    /// Last known map generation this cache was valid for.
    valid_for_generation: u64,
    contents: Ghost<Map<PathKey, PathSlot>>,
}

impl PathCache {
    /// Cached results by key.
    pub closed spec fn cached(&self) -> Map<PathKey, PathSlot> {
        self.contents@
    }

    pub closed spec fn capacity(&self) -> usize {
        self.capacity
    }

    /// The access counter: the stamp given to the most recent use.
    pub closed spec fn counter(&self) -> u64 {
        self.access_counter
    }

    /// Invalidation count.
    pub closed spec fn generation(&self) -> u64 {
        self.generation
    }

    /// Whether the map changed since the cache was last flushed.
    pub closed spec fn stale(&self) -> bool {
        self.generation != self.valid_for_generation
    }

    /// Entries and the ghost map agree, keys and stamps are unique and no
    /// stamp is ahead of the counter.
    pub closed spec fn wf(&self) -> bool {
        &&& self.contents@.dom().finite()
        &&& self.contents@.len() == self.entries@.len()
        &&& forall|i: int|
            0 <= i < self.entries@.len() ==> {
                let e = #[trigger] self.entries@[i];
                &&& self.contents@.contains_key(key_view(e.key))
                &&& self.contents@[key_view(e.key)] == slot_view(e)
            }
        &&& forall|i: int, j: int|
            0 <= i < j < self.entries@.len() ==> key_view((#[trigger] self.entries@[i]).key)
                != key_view((#[trigger] self.entries@[j]).key)
        &&& forall|k: PathKey|
            #[trigger] self.contents@.contains_key(k) ==> exists|i: int|
                0 <= i < self.entries@.len() && key_view(#[trigger] self.entries@[i].key) == k
        &&& forall|k: PathKey| #[trigger] self.contents@.contains_key(k) ==> self.contents@[k].1 <= self.access_counter
        &&& stamps_distinct(self.contents@)
        &&& self.valid_for_generation <= self.generation
    }

    /// Create a new path cache with the given capacity.
    pub fn new(capacity: usize) -> (c: Self)
        ensures
            c.wf(),
            c.cached() == Map::<PathKey, PathSlot>::empty(),
            c.capacity() == capacity,
            c.counter() == 0,
            c.generation() == 0,
            !c.stale(),
    {
        PathCache {
            entries: Vec::with_capacity(capacity),
            capacity,
            access_counter: 0,
            generation: 0,
            valid_for_generation: 0,
            contents: Ghost(Map::empty()),
        }
    }

    /// Invalidate the entire cache (call when map changes, e.g. building placed).
    pub fn invalidate(&mut self)
        requires
            old(self).wf(),
            old(self).generation() < u64::MAX,
        ensures
            final(self).wf(),
            final(self).cached() == old(self).cached(),
            final(self).capacity() == old(self).capacity(),
            final(self).counter() == old(self).counter(),
            final(self).generation() == old(self).generation() + 1,
            final(self).stale(),
    {
        self.generation += 1;
    }

    /// Number of cached results.
    pub fn len(&self) -> (n: usize)
        requires
            self.wf(),
        ensures
            n == self.cached().len(),
    {
        self.entries.len()
    }

    /// Whether the cache is empty.
    pub fn is_empty(&self) -> (b: bool)
        requires
            self.wf(),
        ensures
            b == (self.cached().len() == 0),
    {
        self.entries.len() == 0
    }

    /// Clear all entries.
    pub fn clear(&mut self)
        requires
            old(self).wf(),
        ensures
            final(self).wf(),
            final(self).cached() == Map::<PathKey, PathSlot>::empty(),
            final(self).capacity() == old(self).capacity(),
            final(self).counter() == old(self).counter(),
            final(self).generation() == old(self).generation(),
            final(self).stale() == old(self).stale(),
    {
        self.entries.clear();
        self.contents = Ghost(Map::empty());
    }

    /// Position of the entry for `key`, if cached.
    fn find(&self, key: CacheKey) -> (r: Option<usize>)
        requires
            self.wf(),
        ensures
            match r {
                Some(i) => i < self.entries@.len() && key_view(self.entries@[i as int].key) == key_view(key),
                None => !self.contents@.contains_key(key_view(key)),
            },
    {
        let n = self.entries.len();
        let mut i: usize = 0;
        while i < n
            invariant
                self.wf(),
                n == self.entries@.len(),
                i <= n,
                forall|j: int| 0 <= j < i ==> key_view((#[trigger] self.entries@[j]).key) != key_view(key),
            decreases n - i,
        {
            let k = self.entries[i].key;
            if k.start.0 == key.start.0 && k.start.1 == key.start.1 && k.goal.0 == key.goal.0
                && k.goal.1 == key.goal.1 && k.unit_kind == key.unit_kind {
                return Some(i);
            }
            i += 1;
        }
        proof {
            if self.contents@.contains_key(key_view(key)) {
                let j = choose|j: int| 0 <= j < self.entries@.len() && key_view(#[trigger] self.entries@[j].key) == key_view(key);
                assert(key_view(self.entries@[j].key) != key_view(key));
            }
        }
        None
    }

    /// Look up a cached path result. When the map changed since the cached
    /// results were stored, they are stale: they are flushed and the lookup
    /// misses. A hit refreshes the entry's stamp.
    pub fn get(&mut self, start: (u32, u32), goal: (u32, u32), unit_kind: SpriteId) -> (r: Option<
        &Option<Vec<(u32, u32)>>,
    >)
        requires
            old(self).wf(),
            old(self).counter() < u64::MAX,
        ensures
            final(self).wf(),
            !final(self).stale(),
            final(self).capacity() == old(self).capacity(),
            final(self).generation() == old(self).generation(),
            old(self).stale() ==> {
                &&& r is None
                &&& final(self).cached() == Map::<PathKey, PathSlot>::empty()
                &&& final(self).counter() == old(self).counter()
            },
            !old(self).stale() ==> {
                let key = path_key(start, goal, unit_kind);
                &&& final(self).counter() == old(self).counter() + 1
                &&& old(self).cached().contains_key(key) ==> {
                    &&& r matches Some(p) && path_view(*p) == old(self).cached()[key].0
                    &&& final(self).cached() == old(self).cached().insert(
                        key,
                        (old(self).cached()[key].0, final(self).counter()),
                    )
                }
                &&& !old(self).cached().contains_key(key) ==> {
                    &&& r is None
                    &&& final(self).cached() == old(self).cached()
                }
            },
    {
        if self.generation != self.valid_for_generation {
            // Cache has been invalidated
            self.entries.clear();
            self.contents = Ghost(Map::empty());
            self.valid_for_generation = self.generation;
            return None;
        }
        let key = CacheKey { start, goal, unit_kind: unit_kind.to_u16() as u8 };
        self.access_counter += 1;
        let counter = self.access_counter;
        match self.find(key) {
            Some(i) => {
                let ghost m0 = self.contents@;
                let ghost old_entries = self.entries@;
                let ghost k = key_view(key);
                let entry = &mut self.entries[i];
                entry.last_used = counter;
                self.contents = Ghost(m0.insert(k, (m0[k].0, counter)));
                proof {
                    assert forall|j: int| 0 <= j < self.entries@.len() implies {
                        let e = #[trigger] self.entries@[j];
                        &&& self.contents@.contains_key(key_view(e.key))
                        &&& self.contents@[key_view(e.key)] == slot_view(e)
                    } by {
                        if j != i {
                            assert(self.entries@[j] == old_entries[j]);
                            assert(key_view(old_entries[j].key) != k);
                        }
                    }
                    assert forall|a: int, b: int| 0 <= a < b < self.entries@.len() implies key_view(
                        (#[trigger] self.entries@[a]).key,
                    ) != key_view((#[trigger] self.entries@[b]).key) by {
                        assert(key_view(self.entries@[a].key) == key_view(old_entries[a].key));
                        assert(key_view(self.entries@[b].key) == key_view(old_entries[b].key));
                    }
                    assert forall|kk: PathKey| #[trigger] self.contents@.contains_key(kk) implies exists|j: int|
                        0 <= j < self.entries@.len() && key_view(#[trigger] self.entries@[j].key) == kk by {
                        let j0 = choose|j: int| 0 <= j < old_entries.len() && key_view(#[trigger] old_entries[j].key) == kk;
                        assert(key_view(self.entries@[j0].key) == key_view(old_entries[j0].key));
                    }
                }
                Some(&self.entries[i].path)
            },
            None => None,
        }
    }

    /// Insert a path result into the cache. Results stored before the last
    /// invalidation are flushed first; the new one is kept.
    pub fn insert(
        &mut self,
        start: (u32, u32),
        goal: (u32, u32),
        unit_kind: SpriteId,
        path: Option<Vec<(u32, u32)>>,
    )
        requires
            old(self).wf(),
            old(self).counter() < u64::MAX,
        ensures
            final(self).wf(),
            final(self).counter() == old(self).counter() + 1,
            final(self).cached() == cache_after_insert(
                if old(self).stale() {
                    Map::<PathKey, PathSlot>::empty()
                } else {
                    old(self).cached()
                },
                old(self).capacity(),
                path_key(start, goal, unit_kind),
                path_view(path),
                final(self).counter(),
            ),
            final(self).capacity() == old(self).capacity(),
            final(self).generation() == old(self).generation(),
            !final(self).stale(),
    {
        // Results cached before the map changed are stale: drop them, so that
        // only the new result and later ones are kept.
        if self.generation != self.valid_for_generation {
            self.entries.clear();
            self.contents = Ghost(Map::empty());
            self.valid_for_generation = self.generation;
        }
        // Evict if at capacity
        if self.entries.len() >= self.capacity {
            self.evict_lru();
        }
        let key = CacheKey { start, goal, unit_kind: unit_kind.to_u16() as u8 };
        self.access_counter += 1;
        let counter = self.access_counter;
        let ghost m0 = self.contents@;
        let ghost old_entries = self.entries@;
        let ghost k = key_view(key);
        let ghost slot = (path_view(path), counter);
        match self.find(key) {
            Some(i) => {
                self.entries.set(i, CacheEntry { key, path, last_used: counter });
                self.contents = Ghost(m0.insert(k, slot));
                proof {
                    assert forall|j: int| 0 <= j < self.entries@.len() implies {
                        let e = #[trigger] self.entries@[j];
                        &&& self.contents@.contains_key(key_view(e.key))
                        &&& self.contents@[key_view(e.key)] == slot_view(e)
                    } by {
                        if j != i {
                            assert(self.entries@[j] == old_entries[j]);
                            assert(key_view(old_entries[j].key) != k);
                        }
                    }
                    assert forall|a: int, b: int| 0 <= a < b < self.entries@.len() implies key_view(
                        (#[trigger] self.entries@[a]).key,
                    ) != key_view((#[trigger] self.entries@[b]).key) by {
                        assert(key_view(self.entries@[a].key) == key_view(old_entries[a].key));
                        assert(key_view(self.entries@[b].key) == key_view(old_entries[b].key));
                    }
                    assert forall|kk: PathKey| #[trigger] self.contents@.contains_key(kk) implies exists|j: int|
                        0 <= j < self.entries@.len() && key_view(#[trigger] self.entries@[j].key) == kk by {
                        let j0 = choose|j: int| 0 <= j < old_entries.len() && key_view(#[trigger] old_entries[j].key) == kk;
                        assert(key_view(self.entries@[j0].key) == key_view(old_entries[j0].key));
                    }
                    assert(self.contents@.len() == self.entries@.len());
                }
            },
            None => {
                self.entries.push(CacheEntry { key, path, last_used: counter });
                self.contents = Ghost(m0.insert(k, slot));
                proof {
                    assert forall|j: int| 0 <= j < self.entries@.len() implies {
                        let e = #[trigger] self.entries@[j];
                        &&& self.contents@.contains_key(key_view(e.key))
                        &&& self.contents@[key_view(e.key)] == slot_view(e)
                    } by {
                        if j < old_entries.len() {
                            assert(self.entries@[j] == old_entries[j]);
                            assert(key_view(old_entries[j].key) != k);
                        }
                    }
                    assert forall|a: int, b: int| 0 <= a < b < self.entries@.len() implies key_view(
                        (#[trigger] self.entries@[a]).key,
                    ) != key_view((#[trigger] self.entries@[b]).key) by {
                        assert(self.entries@[a] == old_entries[a]);
                        if b < old_entries.len() {
                            assert(self.entries@[b] == old_entries[b]);
                        }
                    }
                    assert forall|kk: PathKey| #[trigger] self.contents@.contains_key(kk) implies exists|j: int|
                        0 <= j < self.entries@.len() && key_view(#[trigger] self.entries@[j].key) == kk by {
                        if kk == k {
                            assert(key_view(self.entries@[old_entries.len() as int].key) == k);
                        } else {
                            let j0 = choose|j: int| 0 <= j < old_entries.len() && key_view(#[trigger] old_entries[j].key) == kk;
                            assert(self.entries@[j0] == old_entries[j0]);
                        }
                    }
                }
            },
        }
    }

    /// Drops the `i`-th entry.
    fn remove_at(&mut self, i: usize)
        requires
            old(self).wf(),
            i < old(self).entries@.len(),
        ensures
            final(self).wf(),
            final(self).contents@ == old(self).contents@.remove(key_view(old(self).entries@[i as int].key)),
            final(self).capacity == old(self).capacity,
            final(self).access_counter == old(self).access_counter,
            final(self).generation == old(self).generation,
            final(self).valid_for_generation == old(self).valid_for_generation,
    {
        let ghost old_entries = self.entries@;
        let ghost m0 = self.contents@;
        let ghost k = key_view(old_entries[i as int].key);
        let ghost last = old_entries.len() - 1;
        let _ = self.entries.swap_remove(i);
        self.contents = Ghost(m0.remove(k));
        assert forall|j: int| 0 <= j < self.entries@.len() implies {
            let e = #[trigger] self.entries@[j];
            &&& self.contents@.contains_key(key_view(e.key))
            &&& self.contents@[key_view(e.key)] == slot_view(e)
        } by {
            if j == i {
                assert(self.entries@[j] == old_entries[last]);
                assert(key_view(old_entries[last].key) != k);
            } else {
                assert(self.entries@[j] == old_entries[j]);
                assert(key_view(old_entries[j].key) != k);
            }
        }
        assert forall|a: int, b: int| 0 <= a < b < self.entries@.len() implies key_view(
            (#[trigger] self.entries@[a]).key,
        ) != key_view((#[trigger] self.entries@[b]).key) by {
            let oa = if a == i { last } else { a };
            let ob = if b == i { last } else { b };
            assert(self.entries@[a] == old_entries[oa]);
            assert(self.entries@[b] == old_entries[ob]);
        }
        assert forall|key: PathKey| #[trigger] self.contents@.contains_key(key) implies exists|j: int|
            0 <= j < self.entries@.len() && key_view(#[trigger] self.entries@[j].key) == key by {
            let j0 = choose|j: int| 0 <= j < old_entries.len() && key_view(#[trigger] old_entries[j].key) == key;
            assert(j0 != i);
            if j0 == last {
                assert(self.entries@[i as int] == old_entries[last]);
            } else {
                assert(self.entries@[j0] == old_entries[j0]);
            }
        }
        assert(self.contents@.len() == self.entries@.len());
    }

    /// Evict the least recently used entry.
    fn evict_lru(&mut self)
        requires
            old(self).wf(),
        ensures
            final(self).wf(),
            has_evictable(old(self).cached()) ==> final(self).cached() == old(self).cached().remove(
                lru_key(old(self).cached()),
            ),
            !has_evictable(old(self).cached()) ==> final(self).cached() == old(self).cached(),
            final(self).capacity == old(self).capacity,
            final(self).access_counter == old(self).access_counter,
            final(self).generation == old(self).generation,
            final(self).valid_for_generation == old(self).valid_for_generation,
    {
        let n = self.entries.len();
        if n == 0 {
            return;
        }
        let mut oldest: Option<usize> = None;
        let mut oldest_time = u64::MAX;
        let mut i: usize = 0;
        while i < n
            invariant
                self.wf(),
                n == self.entries@.len(),
                i <= n,
                match oldest {
                    Some(o) => o < i && self.entries@[o as int].last_used == oldest_time && oldest_time < u64::MAX,
                    None => oldest_time == u64::MAX,
                },
                forall|j: int| 0 <= j < i ==> oldest_time <= (#[trigger] self.entries@[j]).last_used,
            decreases n - i,
        {
            if self.entries[i].last_used < oldest_time {
                oldest_time = self.entries[i].last_used;
                oldest = Some(i);
            }
            i += 1;
        }
        let ghost m0 = self.contents@;
        match oldest {
            Some(o) => {
                let ghost k = key_view(self.entries@[o as int].key);
                proof {
                    assert forall|j: PathKey| #[trigger] m0.contains_key(j) implies m0[k].1 <= m0[j].1 by {
                        let jj = choose|jj: int| 0 <= jj < self.entries@.len() && key_view(#[trigger] self.entries@[jj].key) == j;
                        let _ = self.entries@[jj];
                    }
                    let _ = self.entries@[o as int];
                    assert(is_lru_key(m0, k));
                    lemma_lru_unique(m0, k);
                }
                self.remove_at(o);
            },
            None => {
                proof {
                    if has_evictable(m0) {
                        let k = choose|k: PathKey| #[trigger] m0.contains_key(k) && m0[k].1 < u64::MAX;
                        let jj = choose|jj: int| 0 <= jj < self.entries@.len() && key_view(#[trigger] self.entries@[jj].key) == k;
                        let _ = self.entries@[jj];
                    }
                }
            },
        }
    }
}

/// With distinct stamps there is exactly one least recently used entry.
pub proof fn lemma_lru_unique(m: Map<PathKey, PathSlot>, k: PathKey)
    requires
        stamps_distinct(m),
        is_lru_key(m, k),
    ensures
        lru_key(m) == k,
{
    let l = lru_key(m);
    assert(is_lru_key(m, l));
    if l != k {
        assert(m[l].1 <= m[k].1);
        assert(m[k].1 <= m[l].1);
    }
}

/// A result just stored is what the next lookup of its key finds.
pub proof fn law_lookup_after_insert(
    m: Map<PathKey, PathSlot>,
    capacity: usize,
    key: PathKey,
    path: Option<Seq<(u32, u32)>>,
    stamp: u64,
)
    ensures
        cache_after_insert(m, capacity, key, path, stamp).contains_key(key),
        cache_after_insert(m, capacity, key, path, stamp)[key].0 == path,
{
}

/// The cache never grows beyond its capacity, as long as stamps stay below
/// `u64::MAX` (they count accesses).
pub proof fn law_capacity_respected(
    m: Map<PathKey, PathSlot>,
    capacity: usize,
    key: PathKey,
    path: Option<Seq<(u32, u32)>>,
    stamp: u64,
)
    requires
        m.dom().finite(),
        0 < capacity,
        m.len() <= capacity,
        forall|k: PathKey| #[trigger] m.contains_key(k) ==> m[k].1 < u64::MAX,
    ensures
        cache_after_insert(m, capacity, key, path, stamp).len() <= capacity,
{
    if m.len() >= capacity {
        assert(m.len() > 0);
        let k0 = m.dom().choose();
        assert(m.contains_key(k0));
        assert(has_evictable(m));
        lemma_lru_exists(m);
        let kept = m.remove(lru_key(m));
        assert(kept.len() == m.len() - 1);
    }
}

/// Eviction drops an entry used no more recently than any other.
pub proof fn law_eviction_drops_least_recent(
    m: Map<PathKey, PathSlot>,
    capacity: usize,
    key: PathKey,
    path: Option<Seq<(u32, u32)>>,
    stamp: u64,
)
    requires
        m.dom().finite(),
        m.len() >= capacity,
        has_evictable(m),
        key != lru_key(m),
    ensures
        !cache_after_insert(m, capacity, key, path, stamp).contains_key(lru_key(m)),
        forall|k: PathKey| #[trigger] m.contains_key(k) ==> m[lru_key(m)].1 <= m[k].1,
{
    lemma_lru_exists(m);
}

/// A cache with an evictable entry has a least recently used entry.
pub proof fn lemma_lru_exists(m: Map<PathKey, PathSlot>)
    requires
        m.dom().finite(),
        has_evictable(m),
    ensures
        is_lru_key(m, lru_key(m)),
    decreases m.len(),
{
    let k = choose|k: PathKey| #[trigger] m.contains_key(k) && m[k].1 < u64::MAX;
    let rest = m.remove(k);
    if has_evictable(rest) {
        lemma_lru_exists(rest);
        let r = lru_key(rest);
        if m[k].1 < rest[r].1 {
            assert forall|j: PathKey| #[trigger] m.contains_key(j) implies m[k].1 <= m[j].1 by {
                if j != k {
                    assert(rest.contains_key(j));
                }
            }
            assert(is_lru_key(m, k));
        } else {
            assert forall|j: PathKey| #[trigger] m.contains_key(j) implies m[r].1 <= m[j].1 by {
                if j != k {
                    assert(rest.contains_key(j));
                }
            }
            assert(is_lru_key(m, r));
        }
    } else {
        assert forall|j: PathKey| #[trigger] m.contains_key(j) implies m[k].1 <= m[j].1 by {
            if j != k {
                assert(rest.contains_key(j));
                assert(!(rest[j].1 < u64::MAX));
            }
        }
        assert(is_lru_key(m, k));
    }
}

} // verus!

use vstd::prelude::*;
use std::time::{Duration, Instant};
use crate::ecs::world::World;

verus! {

#[verifier::external_type_specification]
#[verifier::external_body]
pub struct ExInstant(Instant);

/// `Instant::now`. The clock is outside the library: nothing is claimed.
#[verifier::external_body]
fn instant_now() -> Instant {
    Instant::now()
}

/// `Instant::elapsed`. Nothing is claimed of the measured time.
#[verifier::external_body]
fn instant_elapsed(start: &Instant) -> Duration {
    start.elapsed()
}

/// `Duration::as_micros`. Depends only on the duration, which is opaque here.
#[verifier::external_body]
fn duration_micros(d: &Duration) -> u128 {
    d.as_micros()
}

/// One more system run extends a recorded run: if the first `i` systems
/// took the world through `ws`, and system `i`, handed the last state of `ws`,
/// left the world as `after`, then the first `i + 1` systems took it through
/// `ws.push(after)`.
proof fn lemma_run_extends<F: Fn(&mut World)>(
    fs: Seq<F>,
    ws: Seq<World>,
    i: int,
    before: World,
    after: World,
)
    requires
        0 <= i < fs.len(),
        ws.len() == i + 1,
        ws.last() == before,
        exists|ms: Seq<&mut World>|
            #![trigger ms.len()]
            ms.len() == i && forall|k: int|
                0 <= k < ms.len() ==> *#[trigger] ms[k] == ws[k] && *final(ms[k]) == ws[k + 1]
                    && call_ensures(fs[k], (ms[k],), ()),
        exists|m: &mut World| *m == before && *final(m) == after && #[trigger] call_ensures(fs[i], (m,), ()),
    ensures
        exists|ms: Seq<&mut World>|
            #![trigger ms.len()]
            ms.len() == i + 1 && forall|k: int|
                0 <= k < ms.len() ==> *#[trigger] ms[k] == ws.push(after)[k] && *final(ms[k])
                    == ws.push(after)[k + 1] && call_ensures(fs[k], (ms[k],), ()),
{
    let ws1 = ws.push(after);
    let ms0 = choose|ms: Seq<&mut World>|
        #![trigger ms.len()]
        ms.len() == i && forall|k: int|
            0 <= k < ms.len() ==> *#[trigger] ms[k] == ws[k] && *final(ms[k]) == ws[k + 1]
                && call_ensures(fs[k], (ms[k],), ());
    let m = choose|m: &mut World| *m == before && *final(m) == after && #[trigger] call_ensures(fs[i], (m,), ());
    let ms1 = ms0.push(m);
    assert forall|k: int| 0 <= k < ms1.len() implies *#[trigger] ms1[k] == ws1[k] && *final(ms1[k]) == ws1[k + 1]
            && call_ensures(fs[k], (ms1[k],), ()) by {
        if k < i {
            assert(ms1[k] == ms0[k] && ws1[k] == ws[k] && ws1[k + 1] == ws[k + 1]);
        }
    }
    assert(ms1.len() == i + 1);
}

/// Runs systems in a fixed order each tick. A system is any function that
/// works on the world (in the game: a plain `fn(&mut World)`).
pub struct SystemRunner<F> {
    systems: Vec<(&'static str, F)>,
}

impl<F: Fn(&mut World)> SystemRunner<F> {
    /// Names of the registered systems, in execution order.
    pub closed spec fn names(&self) -> Seq<&'static str> {
        self.systems@.map_values(|p: (&'static str, F)| p.0)
    }

    /// The registered systems, in execution order.
    pub closed spec fn system_fns(&self) -> Seq<F> {
        self.systems@.map_values(|p: (&'static str, F)| p.1)
    }

    /// Every registered system may be run on any world.
    pub closed spec fn runnable(&self) -> bool {
        forall|i: int, w: &mut World|
            0 <= i < self.systems@.len() ==> #[trigger] call_requires(self.systems@[i].1, (w,))
    }

    pub fn new() -> (r: Self)
        ensures
            r.names() == Seq::<&'static str>::empty(),
            r.system_fns() == Seq::<F>::empty(),
            r.runnable(),
    {
        let r = SystemRunner { systems: Vec::new() };
        assert(r.names() =~= Seq::<&'static str>::empty());
        assert(r.system_fns() =~= Seq::<F>::empty());
        r
    }

    pub fn add_system(&mut self, name: &'static str, system: F)
        requires
            old(self).runnable(),
            forall|w: &mut World| call_requires(system, (w,)),
        ensures
            final(self).names() == old(self).names().push(name),
            final(self).system_fns() == old(self).system_fns().push(system),
            final(self).runnable(),
    {
        self.systems.push((name, system));
        assert(self.names() =~= old(self).names().push(name));
        assert(self.system_fns() =~= old(self).system_fns().push(system));
    }

    /// Runs every system once, in registration order: the world passes
    /// through one state per system, each reached from the one before by a
    /// call of that system (`ms[k]` is the world as system `k` was handed it).
    pub fn run_all(&self, world: &mut World)
        requires
            self.runnable(),
        ensures
            exists|ws: Seq<World>, ms: Seq<&mut World>|
                #![trigger ws.len(), ms.len()]
                {
                    &&& ws.len() == self.system_fns().len() + 1
                    &&& ms.len() == self.system_fns().len()
                    &&& ws[0] == *old(world)
                    &&& ws.last() == *final(world)
                    &&& forall|k: int|
                        #![trigger ms[k]]
                        #![trigger self.system_fns()[k]]
                        0 <= k < ms.len() ==> *ms[k] == ws[k] && *final(ms[k]) == ws[k + 1]
                            && call_ensures(self.system_fns()[k], (ms[k],), ())
                },
    {
        let n = self.systems.len();
        let mut i: usize = 0;
        let ghost mut ws: Seq<World> = seq![*world];
        assert(Seq::<&mut World>::empty().len() == 0);
        while i < n
            invariant
                self.runnable(),
                n == self.systems@.len(),
                i <= n,
                ws.len() == i + 1,
                ws[0] == *old(world),
                ws.last() == *world,
                exists|ms: Seq<&mut World>|
                    #![trigger ms.len()]
                    ms.len() == i && forall|k: int|
                        0 <= k < ms.len() ==> *#[trigger] ms[k] == ws[k] && *final(ms[k]) == ws[k + 1]
                            && call_ensures(self.system_fns()[k], (ms[k],), ()),
            decreases n - i,
        {
            let system = &self.systems[i].1;
            let ghost before = *world;
            let w: &mut World = &mut *world;
            system(w);
            proof {
                assert(self.system_fns()[i as int] == *system);
                assert(exists|m: &mut World|
                    *m == before && *final(m) == *world && #[trigger] call_ensures(*system, (m,), ()));
                lemma_run_extends(self.system_fns(), ws, i as int, before, *world);
                ws = ws.push(*world);
            }
            i += 1;
        }
        assert(ws.len() == self.system_fns().len() + 1);
    }

    /// Run all systems and record how long each one takes (microseconds).
    pub fn run_all_profiled(&self, world: &mut World) -> (timings: Vec<(&'static str, u64)>)
        requires
            self.runnable(),
        ensures
            timings@.len() == self.names().len(),
            forall|i: int| 0 <= i < timings@.len() ==> (#[trigger] timings@[i]).0 == self.names()[i],
            exists|ws: Seq<World>, ms: Seq<&mut World>|
                #![trigger ws.len(), ms.len()]
                {
                    &&& ws.len() == self.system_fns().len() + 1
                    &&& ms.len() == self.system_fns().len()
                    &&& ws[0] == *old(world)
                    &&& ws.last() == *final(world)
                    &&& forall|k: int|
                        #![trigger ms[k]]
                        #![trigger self.system_fns()[k]]
                        0 <= k < ms.len() ==> *ms[k] == ws[k] && *final(ms[k]) == ws[k + 1]
                            && call_ensures(self.system_fns()[k], (ms[k],), ())
                },
    {
        let n = self.systems.len();
        let mut timings: Vec<(&'static str, u64)> = Vec::with_capacity(n);
        let mut i: usize = 0;
        let ghost mut ws: Seq<World> = seq![*world];
        assert(Seq::<&mut World>::empty().len() == 0);
        while i < n
            invariant
                self.runnable(),
                n == self.systems@.len(),
                i <= n,
                timings@.len() == i,
                forall|k: int| 0 <= k < i ==> (#[trigger] timings@[k]).0 == self.names()[k],
                ws.len() == i + 1,
                ws[0] == *old(world),
                ws.last() == *world,
                exists|ms: Seq<&mut World>|
                    #![trigger ms.len()]
                    ms.len() == i && forall|k: int|
                        0 <= k < ms.len() ==> *#[trigger] ms[k] == ws[k] && *final(ms[k]) == ws[k + 1]
                            && call_ensures(self.system_fns()[k], (ms[k],), ()),
            decreases n - i,
        {
            let name = self.systems[i].0;
            let system = &self.systems[i].1;
            let start = instant_now();
            let ghost before = *world;
            let w: &mut World = &mut *world;
            system(w);
            proof {
                assert(self.system_fns()[i as int] == *system);
                assert(exists|m: &mut World|
                    *m == before && *final(m) == *world && #[trigger] call_ensures(*system, (m,), ()));
                lemma_run_extends(self.system_fns(), ws, i as int, before, *world);
                ws = ws.push(*world);
            }
            let elapsed = duration_micros(&instant_elapsed(&start)) as u64;
            timings.push((name, elapsed));
            i += 1;
        }
        assert(ws.len() == self.system_fns().len() + 1);
        timings
    }

    pub fn system_count(&self) -> (n: usize)
        ensures
            n == self.names().len(),
    {
        self.systems.len()
    }
}

} // verus!

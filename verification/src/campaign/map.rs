use vstd::prelude::*;

verus! {

/// Types of sites on the campaign map.
#[derive(Clone, Copy, Debug, PartialEq, Eq, Hash, Structural)]
pub enum SiteType {
    /// Player home base. Production hub. If destroyed, player is eliminated.
    Node,
    /// Resource extraction site. Generates 8 energy/s when owned.
    MiningStation,
    /// Ancient technology cache. Generates 3 energy/s and gates research tiers.
    RelicSite,
}

/// One xorshift64 step (shifts 13, 7, 17).
pub open spec fn xorshift_step(x: u64) -> u64 {
    let a = x ^ (x << 13u64);
    let b = a ^ (a >> 7u64);
    b ^ (b << 17u64)
}

/// Simple deterministic pseudo-random number generator (xorshift64) used
/// to lay out campaign sites.
pub struct SimpleRng {
    state: u64,
}

impl SimpleRng {
    /// The generator's current state.
    pub closed spec fn state(&self) -> u64 {
        self.state
    }

    /// A seed of 0 is replaced by 1 (xorshift would stay at 0 forever).
    pub fn new(seed: u64) -> (r: Self)
        ensures
            r.state() == if seed == 0 {
                1
            } else {
                seed
            },
            r.state() != 0,
    {
        SimpleRng { state: if seed == 0 { 1 } else { seed } }
    }

    pub fn next_u64(&mut self) -> (x: u64)
        ensures
            x == xorshift_step(old(self).state()),
            final(self).state() == x,
            old(self).state() != 0 ==> x != 0,
    {
        let mut x = self.state;
        let ghost x0 = x;
        x ^= x << 13;
        x ^= x >> 7;
        x ^= x << 17;
        proof {
            lemma_xorshift_nonzero(x0);
        }
        self.state = x;
        x
    }
}

/// An xorshift step never maps a nonzero state to zero, so a generator
/// seeded as `new` seeds it never gets stuck.
pub proof fn lemma_xorshift_nonzero(x: u64)
    ensures
        x != 0 ==> xorshift_step(x) != 0,
{
    let a = x ^ (x << 13u64);
    let b = a ^ (a >> 7u64);
    assert(x != 0 ==> a != 0) by (bit_vector)
        requires
            a == x ^ (x << 13u64),
    ;
    assert(a != 0 ==> b != 0) by (bit_vector)
        requires
            b == a ^ (a >> 7u64),
    ;
    assert(b != 0 ==> (b ^ (b << 17u64)) != 0) by (bit_vector);
}

} // verus!

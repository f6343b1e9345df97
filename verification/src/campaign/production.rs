//! The campaign's unit production queue: counting what is queued.

use vstd::prelude::*;

verus! {

/// Number of entries of `units` equal to `code`.
pub open spec fn count_code(units: Seq<u16>, code: u16) -> nat
    decreases units.len(),
{
    if units.len() == 0 {
        0
    } else {
        count_code(units.drop_last(), code) + if units.last() == code {
            1nat
        } else {
            0nat
        }
    }
}

/// Queued units by type: (Thralls, Sentinels, Hover Tanks), by their sprite
/// codes 0, 1 and 2; other codes are not counted.
pub fn queued_counts_by_type(units: &[u16]) -> (r: (u32, u32, u32))
    requires
        units@.len() <= u32::MAX,
    ensures
        r.0 == count_code(units@, 0),
        r.1 == count_code(units@, 1),
        r.2 == count_code(units@, 2),
{
    let mut thralls: u32 = 0;
    let mut sentinels: u32 = 0;
    let mut tanks: u32 = 0;
    let mut i: usize = 0;
    while i < units.len()
        invariant
            i <= units@.len(),
            units@.len() <= u32::MAX,
            thralls == count_code(units@.subrange(0, i as int), 0),
            sentinels == count_code(units@.subrange(0, i as int), 1),
            tanks == count_code(units@.subrange(0, i as int), 2),
            thralls + sentinels + tanks <= i,
        decreases units@.len() - i,
    {
        let u = units[i];
        proof {
            let t = units@.subrange(0, i as int + 1);
            assert(t.drop_last() =~= units@.subrange(0, i as int));
            assert(t.last() == u);
        }
        if u == 0 {
            thralls += 1;
        } else if u == 1 {
            sentinels += 1;
        } else if u == 2 {
            tanks += 1;
        }
        i += 1;
    }
    assert(units@.subrange(0, units@.len() as int) =~= units@);
    (thralls, sentinels, tanks)
}

} // verus!

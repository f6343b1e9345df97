//! Little-endian byte layout shared by the flat buffers handed to the client.

use vstd::prelude::*;

verus! {

/// Byte `k` (0 = lowest) of `v` in little-endian order.
pub open spec fn le_byte(v: u32, k: int) -> u8 {
    ((v >> (8 * k) as u32) & 0xff) as u8
}

/// Writes the low `width` bytes of `v` at `at`, lowest first; nothing else
/// changes.
pub fn put_le(buf: &mut Vec<u8>, at: usize, v: u32, width: usize)
    requires
        at + width <= old(buf)@.len(),
        width <= 4,
    ensures
        final(buf)@.len() == old(buf)@.len(),
        forall|j: int| 0 <= j < final(buf)@.len() && !(at <= j < at + width) ==> #[trigger] final(buf)@[j] == old(buf)@[j],
        forall|k: int| 0 <= k && k < width ==> #[trigger] final(buf)@[at + k] == le_byte(v, k),
{
    let len = buf.len();
    let mut k: usize = 0;
    while k < width
        invariant
            len == buf@.len(),
            k <= width,
            width <= 4,
            at + width <= buf@.len(),
            buf@.len() == old(buf)@.len(),
            forall|j: int| 0 <= j < buf@.len() && !(at <= j < at + k) ==> #[trigger] buf@[j] == old(buf)@[j],
            forall|q: int| 0 <= q && q < k ==> #[trigger] buf@[at + q] == le_byte(v, q),
        decreases width - k,
    {
        let b = ((v >> (8 * k) as u32) & 0xff) as u8;
        buf.set(at + k, b);
        k += 1;
    }
}

/// Every byte of 0 is 0.
pub proof fn lemma_zero_bytes(k: int)
    requires
        0 <= k < 4,
    ensures
        le_byte(0, k) == 0,
{
    let sh = (8 * k) as u32;
    assert((0u32 >> sh) & 0xff == 0) by (bit_vector);
}

} // verus!

//! Buffers the game hands to the client each tick, and the layout of their
//! entries.

use vstd::prelude::*;
use crate::bytes::{le_byte, put_le, lemma_zero_bytes};
use crate::types::{EventType, event_code, SpriteId, sprite_code};

verus! {

pub const MAX_ENTITIES: usize = 2048;

pub const RENDER_ENTRY_SIZE: usize = 32;

pub const MAX_EVENTS: usize = 256;

pub const EVENT_ENTRY_SIZE: usize = 32;

/// Resource: the render buffer (flat byte array).
pub struct RenderBuffer(pub Vec<u8>);

/// Resource: number of entities written to render buffer.
pub struct RenderCount(pub u32);

/// Resource: the event buffer (flat byte array).
pub struct EventBuffer(pub Vec<u8>);

/// Resource: number of events written this tick.
pub struct EventCount(pub u32);

/// Timing data from a profiled tick, in microseconds.
#[derive(Clone, Debug, Default)]
pub struct TickProfile {
    pub total_us: u64,
    pub system_timings: Vec<(String, u64)>,
}

pub struct GameConfig {
    pub map_width: u32,
    pub map_height: u32,
    pub player_count: u32,
    pub seed: u32,
}

/// Byte `k` of a 32-byte event entry: [0-1] event type, [2-3] reserved,
/// [4-7] entity id, [8-11] x, [12-15] y (the bits of the two `f32`s),
/// [16-31] payload.
pub open spec fn event_byte(
    code: u16,
    entity_id: u32,
    x_bits: u32,
    y_bits: u32,
    payload: Seq<u8>,
    k: int,
) -> u8 {
    if k < 2 {
        le_byte(code as u32, k)
    } else if k < 4 {
        0
    } else if k < 8 {
        le_byte(entity_id, k - 4)
    } else if k < 12 {
        le_byte(x_bits, k - 8)
    } else if k < 16 {
        le_byte(y_bits, k - 12)
    } else {
        payload[k - 16]
    }
}

/// Whether an event entry fits after `count` others in a buffer of `len`
/// bytes.
pub open spec fn event_fits(count: u32, len: nat) -> bool {
    count < MAX_EVENTS && count * EVENT_ENTRY_SIZE + EVENT_ENTRY_SIZE <= len
}

/// Appends one event entry after the `count` already written and returns the
/// new count. A full buffer drops the event and keeps the count.
pub fn write_event_entry(
    buf: &mut Vec<u8>,
    count: u32,
    event_type: EventType,
    entity_id: u32,
    x_bits: u32,
    y_bits: u32,
    payload: &[u8; 16],
) -> (n: u32)
    ensures
        final(buf)@.len() == old(buf)@.len(),
        event_fits(count, old(buf)@.len()) ==> {
            &&& n == count + 1
            &&& forall|k: int|
                0 <= k < 32 ==> #[trigger] final(buf)@[count * 32 + k] == event_byte(
                    event_code(event_type),
                    entity_id,
                    x_bits,
                    y_bits,
                    payload@,
                    k,
                )
            &&& forall|j: int|
                0 <= j < final(buf)@.len() && !(count * 32 <= j < count * 32 + 32)
                    ==> #[trigger] final(buf)@[j] == old(buf)@[j]
        },
        !event_fits(count, old(buf)@.len()) ==> n == count && final(buf)@ == old(buf)@,
{
    if count as usize >= MAX_EVENTS {
        return count;
    }
    let offset = count as usize * EVENT_ENTRY_SIZE;
    if offset + EVENT_ENTRY_SIZE > buf.len() {
        return count;
    }
    let code = event_type.code();
    let ghost b0 = buf@;
    put_le(buf, offset, code as u32, 2);
    let ghost b1 = buf@;
    put_le(buf, offset + 2, 0, 2);
    let ghost b2 = buf@;
    put_le(buf, offset + 4, entity_id, 4);
    let ghost b3 = buf@;
    put_le(buf, offset + 8, x_bits, 4);
    let ghost b4 = buf@;
    put_le(buf, offset + 12, y_bits, 4);
    let ghost b5 = buf@;
    let mut i: usize = 0;
    while i < 16
        invariant
            i <= 16,
            offset + 32 <= buf@.len(),
            offset + 32 <= usize::MAX,
            buf@.len() == b5.len(),
            forall|j: int| 0 <= j < buf@.len() && !(offset + 16 <= j < offset + 16 + i) ==> #[trigger] buf@[j] == b5[j],
            forall|q: int| 0 <= q < i ==> #[trigger] buf@[offset + 16 + q] == payload@[q],
        decreases 16 - i,
    {
        buf.set(offset + 16 + i, payload[i]);
        i += 1;
    }
    proof {
        assert forall|k: int| 0 <= k < 32 implies #[trigger] buf@[offset + k] == event_byte(
            event_code(event_type),
            entity_id,
            x_bits,
            y_bits,
            payload@,
            k,
        ) by {
            if k < 2 {
                assert(b1[offset + k] == le_byte(code as u32, k));
                assert(buf@[offset + k] == b1[offset + k]);
            } else if k < 4 {
                assert(b2[offset + 2 + (k - 2)] == le_byte(0, k - 2));
                lemma_zero_bytes(k - 2);
                assert(buf@[offset + k] == b2[offset + k]);
            } else if k < 8 {
                assert(b3[offset + 4 + (k - 4)] == le_byte(entity_id, k - 4));
                assert(buf@[offset + k] == b3[offset + k]);
            } else if k < 12 {
                assert(b4[offset + 8 + (k - 8)] == le_byte(x_bits, k - 8));
                assert(buf@[offset + k] == b4[offset + k]);
            } else if k < 16 {
                assert(b5[offset + 12 + (k - 12)] == le_byte(y_bits, k - 12));
                assert(buf@[offset + k] == b5[offset + k]);
            } else {
                assert(buf@[offset + 16 + (k - 16)] == payload@[k - 16]);
            }
        }
        assert forall|j: int|
            0 <= j < buf@.len() && !(offset <= j < offset + 32) implies #[trigger] buf@[j] == b0[j] by {
            assert(buf@[j] == b5[j]);
        }
    }
    count + 1
}

/// The 16-byte payload of a unit event (spawn, death): [0-1] sprite code,
/// [2] owner, zeros after.
pub fn unit_event_payload(kind: SpriteId, owner: u8) -> (p: [u8; 16])
    ensures
        p@[0] == le_byte(sprite_code(kind) as u32, 0),
        p@[1] == le_byte(sprite_code(kind) as u32, 1),
        p@[2] == owner,
        forall|k: int| 3 <= k < 16 ==> p@[k] == 0,
{
    let code = kind.to_u16();
    let mut payload = [0u8; 16];
    payload[0] = (code & 0xff) as u8;
    payload[1] = ((code >> 8) & 0xff) as u8;
    payload[2] = owner;
    proof {
        let c = code as u32;
        assert((c >> (8 * 0int) as u32) & 0xff == (code & 0xff) as u32) by (bit_vector)
            requires
                c == code as u32,
        ;
        assert((c >> (8 * 1int) as u32) & 0xff == ((code >> 8) & 0xff) as u32) by (bit_vector)
            requires
                c == code as u32,
        ;
    }
    payload
}

/// One event entry as read back from the event buffer; the position is the
/// bits of two `f32`s.
#[derive(Clone, Copy, Debug)]
pub struct EventRecord {
    pub event_type: u16,
    pub entity_id: u32,
    pub x_bits: u32,
    pub y_bits: u32,
    pub payload: [u8; 16],
}

/// The little-endian number in bytes `off..off + width` of `s`.
pub open spec fn le_value(s: Seq<u8>, off: int, width: nat) -> nat
    decreases width,
{
    if width == 0 {
        0
    } else {
        s[off] as nat + 256 * le_value(s, off + 1, (width - 1) as nat)
    }
}

/// The fields of the 32-byte event entry at `off` in `s`.
pub open spec fn event_fields(s: Seq<u8>, off: int) -> (u16, u32, u32, u32, Seq<u8>) {
    (
        le_value(s, off, 2) as u16,
        le_value(s, off + 4, 4) as u32,
        le_value(s, off + 8, 4) as u32,
        le_value(s, off + 12, 4) as u32,
        s.subrange(off + 16, off + 32),
    )
}

/// Fields of a record, its payload by value.
pub open spec fn record_fields(r: EventRecord) -> (u16, u32, u32, u32, Seq<u8>) {
    (r.event_type, r.entity_id, r.x_bits, r.y_bits, r.payload@)
}

/// Number of entries read back from a buffer of `len` bytes holding `count`.
pub open spec fn readable_events(count: u32, len: nat) -> nat {
    if count <= len / 32 {
        count as nat
    } else {
        len / 32
    }
}

fn read_le(buf: &[u8], off: usize, width: usize) -> (v: u32)
    requires
        off + width <= buf@.len(),
        width <= 4,
    ensures
        v == le_value(buf@, off as int, width as nat),
    decreases width,
{
    let _ = buf.len();
    if width == 0 {
        return 0;
    }
    let rest = read_le(buf, off + 1, width - 1);
    let b = buf[off];
    proof {
        assert(le_value(buf@, off + 1, (width - 1) as nat) < 0x100_0000) by {
            lemma_le_value_bound(buf@, off + 1, (width - 1) as nat);
        }
    }
    b as u32 + 256 * rest
}

/// A number of `width` bytes is below `256^width`.
proof fn lemma_le_value_bound(s: Seq<u8>, off: int, width: nat)
    requires
        width <= 3,
    ensures
        le_value(s, off, width) < if width == 0 {
            1nat
        } else if width == 1 {
            0x100nat
        } else if width == 2 {
            0x1_0000nat
        } else {
            0x100_0000nat
        },
    decreases width,
{
    if width > 0 {
        lemma_le_value_bound(s, off + 1, (width - 1) as nat);
    }
}

/// Reads back the first `count` event entries (fewer when the buffer ends
/// first).
pub fn read_event_entries(buf: &[u8], count: u32) -> (events: Vec<EventRecord>)
    ensures
        events@.len() == readable_events(count, buf@.len()),
        forall|i: int| 0 <= i < events@.len() ==> record_fields(#[trigger] events@[i]) == event_fields(buf@, i * 32),
{
    let mut events: Vec<EventRecord> = Vec::new();
    let blen0 = buf.len();
    let n = count as usize;
    let mut i: usize = 0;
    while i < n
        invariant_except_break
            i <= n,
            n == count,
            blen0 == buf@.len(),
            i * 32 <= buf@.len(),
            events@.len() == i,
            forall|k: int| 0 <= k < i ==> record_fields(#[trigger] events@[k]) == event_fields(buf@, k * 32),
        ensures
            events@.len() == readable_events(count, buf@.len()),
            forall|k: int| 0 <= k < events@.len() ==> record_fields(#[trigger] events@[k]) == event_fields(buf@, k * 32),
        decreases n - i,
    {
        let off = i * EVENT_ENTRY_SIZE;
        if buf.len() - off < EVENT_ENTRY_SIZE {
            assert(buf@.len() / 32 == i) by (nonlinear_arith)
                requires
                    i * 32 <= buf@.len(),
                    i * 32 + 32 > buf@.len(),
            ;
            break;
        }
        let code = read_le(buf, off, 2);
        proof {
            lemma_le_value_bound(buf@, off as int, 2);
        }
        let event_type = code as u16;
        let entity_id = read_le(buf, off + 4, 4);
        let x_bits = read_le(buf, off + 8, 4);
        let y_bits = read_le(buf, off + 12, 4);
        let mut payload = [0u8; 16];
        let blen = buf.len();
        let mut k: usize = 0;
        while k < 16
            invariant
                k <= 16,
                blen == buf@.len(),
                off + 32 <= buf@.len(),
                forall|q: int| 0 <= q < k ==> payload@[q] == buf@[off + 16 + q],
            decreases 16 - k,
        {
            payload[k] = buf[off + 16 + k];
            k += 1;
        }
        assert(payload@ =~= buf@.subrange(off + 16, off + 32));
        let ghost before = events@;
        events.push(EventRecord { event_type, entity_id, x_bits, y_bits, payload });
        assert forall|q: int| 0 <= q < i + 1 implies record_fields(#[trigger] events@[q]) == event_fields(buf@, q * 32) by {
            if q < i {
                assert(events@[q] == before[q]);
            }
        }
        i += 1;
        if i == n {
            assert(i <= buf@.len() / 32) by (nonlinear_arith)
                requires
                    i * 32 <= buf@.len(),
            ;
        }
    }
    events
}

/// Byte `k` of a word as a plain number.
proof fn lemma_le_byte_value(v: u32, k: int)
    requires
        0 <= k < 4,
    ensures
        le_byte(v, k) as u32 == (v >> (8 * k) as u32) & 0xff,
{
    let sh = (8 * k) as u32;
    assert((v >> sh) & 0xff <= 0xff) by (bit_vector);
}

/// The bytes of a little-endian word recombine into the word.
proof fn lemma_le_bytes_recombine(v: u32)
    ensures
        le_byte(v, 0) + 256 * (le_byte(v, 1) + 256 * (le_byte(v, 2) + 256 * le_byte(v, 3) as int)) == v,
        le_byte(v, 0) + 256 * (le_byte(v, 1) as int) == v % 0x1_0000,
{
    lemma_le_byte_value(v, 0);
    lemma_le_byte_value(v, 1);
    lemma_le_byte_value(v, 2);
    lemma_le_byte_value(v, 3);
    assert(((v >> 0u32) & 0xff) + 256 * (((v >> 8u32) & 0xff) + 256 * (((v >> 16u32) & 0xff) + 256 * ((v >> 24u32)
        & 0xff))) == v) by (bit_vector);
    assert(((v >> 0u32) & 0xff) + 256 * ((v >> 8u32) & 0xff) == v % 0x1_0000) by (bit_vector);
}

/// Four bytes holding the little-endian bytes of `w` read back as `w`.
proof fn lemma_word_read_back(s: Seq<u8>, base: int, w: u32)
    requires
        0 <= base,
        base + 4 <= s.len(),
        forall|j: int| 0 <= j < 4 ==> #[trigger] s[base + j] == le_byte(w, j),
    ensures
        le_value(s, base, 4) == w,
{
    reveal_with_fuel(le_value, 5);
    lemma_le_bytes_recombine(w);
    assert(s[base + 0] == le_byte(w, 0));
    assert(s[base + 1] == le_byte(w, 1));
    assert(s[base + 2] == le_byte(w, 2));
    assert(s[base + 3] == le_byte(w, 3));
    assert(le_value(s, base + 3, 1) == s[base + 3]);
}

/// Reading an event entry gives back what writing it put there: its type
/// code, entity, position bits and payload.
pub proof fn law_event_read_back(
    s: Seq<u8>,
    off: int,
    code: u16,
    entity_id: u32,
    x_bits: u32,
    y_bits: u32,
    payload: Seq<u8>,
)
    requires
        0 <= off,
        off + 32 <= s.len(),
        payload.len() == 16,
        forall|k: int| 0 <= k < 32 ==> #[trigger] s[off + k] == event_byte(code, entity_id, x_bits, y_bits, payload, k),
    ensures
        event_fields(s, off) == (code, entity_id, x_bits, y_bits, payload),
{
    assert forall|j: int| 0 <= j < 4 implies #[trigger] s[(off + 4) + j] == le_byte(entity_id, j) by {
        assert(s[off + (4 + j)] == event_byte(code, entity_id, x_bits, y_bits, payload, 4 + j));
    }
    assert forall|j: int| 0 <= j < 4 implies #[trigger] s[(off + 8) + j] == le_byte(x_bits, j) by {
        assert(s[off + (8 + j)] == event_byte(code, entity_id, x_bits, y_bits, payload, 8 + j));
    }
    assert forall|j: int| 0 <= j < 4 implies #[trigger] s[(off + 12) + j] == le_byte(y_bits, j) by {
        assert(s[off + (12 + j)] == event_byte(code, entity_id, x_bits, y_bits, payload, 12 + j));
    }
    lemma_word_read_back(s, off + 4, entity_id);
    lemma_word_read_back(s, off + 8, x_bits);
    lemma_word_read_back(s, off + 12, y_bits);
    assert(s[off + 0] == event_byte(code, entity_id, x_bits, y_bits, payload, 0));
    assert(s[off + 1] == event_byte(code, entity_id, x_bits, y_bits, payload, 1));
    lemma_le_bytes_recombine(code as u32);
    reveal_with_fuel(le_value, 3);
    assert(le_value(s, off, 2) == s[off] + 256 * (s[off + 1] as int));
    assert((code as u32) % 0x1_0000 == code);
    assert forall|k: int| 0 <= k < 16 implies s.subrange(off + 16, off + 32)[k] == payload[k] by {
        assert(s[off + (16 + k)] == event_byte(code, entity_id, x_bits, y_bits, payload, 16 + k));
    }
    assert(s.subrange(off + 16, off + 32) =~= payload);
}

} // verus!

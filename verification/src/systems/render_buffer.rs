use vstd::prelude::*;
use crate::bytes::{le_byte, put_le, lemma_zero_bytes};
use crate::systems::fog::{FogGrid, FOG_VISIBLE};
use crate::game::RENDER_ENTRY_SIZE;

verus! {

/// Resource: the local player index for fog-of-war filtering.
/// Enemy units on tiles not visible to this player are hidden from the render buffer.
pub struct LocalPlayer(pub u32);

/// What one entity contributes to the render buffer. The position, scale and
/// isometric depth are `f32`s carried as their bits.
#[derive(Clone, Copy, Debug)]
pub struct RenderEntry {
    pub entity_id: u32,
    pub x_bits: u32,
    pub y_bits: u32,
    pub sprite_id: u16,
    pub frame: u16,
    pub health_pct: u8,
    pub facing: u8,
    pub owner: u8,
    pub flags: u8,
    pub scale_bits: u32,
    pub z_bits: u32,
}

/// Byte `k` of the 32-byte render entry of `e`: [0-3] entity id, [4-7] x,
/// [8-11] y, [12-13] sprite, [14-15] frame, [16] health percent, [17] facing,
/// [18] owner, [19] flags, [20-23] scale, [24-27] depth, [28-31] reserved.
pub open spec fn render_byte(e: RenderEntry, k: int) -> u8 {
    if k < 4 {
        le_byte(e.entity_id, k)
    } else if k < 8 {
        le_byte(e.x_bits, k - 4)
    } else if k < 12 {
        le_byte(e.y_bits, k - 8)
    } else if k < 14 {
        le_byte(e.sprite_id as u32, k - 12)
    } else if k < 16 {
        le_byte(e.frame as u32, k - 14)
    } else if k == 16 {
        e.health_pct
    } else if k == 17 {
        e.facing
    } else if k == 18 {
        e.owner
    } else if k == 19 {
        e.flags
    } else if k < 24 {
        le_byte(e.scale_bits, k - 20)
    } else if k < 28 {
        le_byte(e.z_bits, k - 24)
    } else {
        0
    }
}

/// Number of entries that a buffer of `len` bytes takes from `n` offered.
pub open spec fn rendered_count(n: nat, len: nat) -> nat {
    let room = len / 32;
    if n < room {
        n
    } else {
        room
    }
}

/// Whether a unit of `owner` on tile (`tile_x`, `tile_y`) is drawn for
/// `local_player`: own units always, others only on tiles visible to the
/// local player when there is a fog grid.
pub open spec fn shown_to(owner: u8, local_player: u32, fog: Option<&FogGrid>, tile_x: u32, tile_y: u32) -> bool {
    owner as u32 == local_player || match fog {
        Some(f) => f.cell(local_player, tile_x, tile_y) == FOG_VISIBLE,
        None => true,
    }
}

/// The local player's own units are always drawn. Another player's unit is
/// drawn only while its tile is visible to the local player (a tile seen
/// earlier but not visible now hides it); without a fog grid every unit is
/// drawn.
pub proof fn law_enemies_drawn_only_on_visible_tiles(
    owner: u8,
    local_player: u32,
    fog: Option<&FogGrid>,
    tile_x: u32,
    tile_y: u32,
)
    ensures
        owner as u32 == local_player ==> shown_to(owner, local_player, fog, tile_x, tile_y),
        fog is None ==> shown_to(owner, local_player, fog, tile_x, tile_y),
        owner as u32 != local_player && fog is Some ==> (shown_to(owner, local_player, fog, tile_x, tile_y)
            <==> fog.unwrap().cell(local_player, tile_x, tile_y) == FOG_VISIBLE),
        owner as u32 != local_player && fog is Some && fog.unwrap().cell(local_player, tile_x, tile_y)
            != FOG_VISIBLE ==> !shown_to(owner, local_player, fog, tile_x, tile_y),
{
}

/// Fog-of-war filter of the render buffer.
pub fn render_visible(owner: u8, local_player: u32, fog: Option<&FogGrid>, tile_x: u32, tile_y: u32) -> (b: bool)
    requires
        fog matches Some(f) ==> f.wf(),
    ensures
        b == shown_to(owner, local_player, fog, tile_x, tile_y),
        owner as u32 != local_player && fog is Some ==> (b <==> fog.unwrap().cell(local_player, tile_x, tile_y)
            == FOG_VISIBLE),
{
    if owner as u32 != local_player {
        if let Some(fg) = fog {
            if fg.get(local_player, tile_x, tile_y) != FOG_VISIBLE {
                return false;
            }
        }
    }
    true
}

fn put_render_entry(buf: &mut Vec<u8>, at: usize, e: &RenderEntry)
    requires
        at + 32 <= old(buf)@.len(),
        at + 32 <= usize::MAX,
    ensures
        final(buf)@.len() == old(buf)@.len(),
        forall|j: int| 0 <= j < final(buf)@.len() && !(at <= j < at + 32) ==> #[trigger] final(buf)@[j] == old(buf)@[j],
        forall|k: int| 0 <= k < 32 ==> #[trigger] final(buf)@[at + k] == render_byte(*e, k),
{
    let ghost b0 = buf@;
    put_le(buf, at, e.entity_id, 4);
    let ghost b1 = buf@;
    put_le(buf, at + 4, e.x_bits, 4);
    let ghost b2 = buf@;
    put_le(buf, at + 8, e.y_bits, 4);
    let ghost b3 = buf@;
    put_le(buf, at + 12, e.sprite_id as u32, 2);
    let ghost b4 = buf@;
    put_le(buf, at + 14, e.frame as u32, 2);
    let ghost b5 = buf@;
    buf.set(at + 16, e.health_pct);
    buf.set(at + 17, e.facing);
    buf.set(at + 18, e.owner);
    buf.set(at + 19, e.flags);
    let ghost b6 = buf@;
    put_le(buf, at + 20, e.scale_bits, 4);
    let ghost b7 = buf@;
    put_le(buf, at + 24, e.z_bits, 4);
    let ghost b8 = buf@;
    put_le(buf, at + 28, 0, 4);
    proof {
        assert forall|k: int| 0 <= k < 32 implies #[trigger] buf@[at + k] == render_byte(*e, k) by {
            if k < 4 {
                assert(b1[at + k] == le_byte(e.entity_id, k));
                assert(buf@[at + k] == b1[at + k]);
            } else if k < 8 {
                assert(b2[at + 4 + (k - 4)] == le_byte(e.x_bits, k - 4));
                assert(buf@[at + k] == b2[at + k]);
            } else if k < 12 {
                assert(b3[at + 8 + (k - 8)] == le_byte(e.y_bits, k - 8));
                assert(buf@[at + k] == b3[at + k]);
            } else if k < 14 {
                assert(b4[at + 12 + (k - 12)] == le_byte(e.sprite_id as u32, k - 12));
                assert(buf@[at + k] == b4[at + k]);
            } else if k < 16 {
                assert(b5[at + 14 + (k - 14)] == le_byte(e.frame as u32, k - 14));
                assert(buf@[at + k] == b5[at + k]);
            } else if k < 20 {
                assert(buf@[at + k] == b6[at + k]);
            } else if k < 24 {
                assert(b7[at + 20 + (k - 20)] == le_byte(e.scale_bits, k - 20));
                assert(buf@[at + k] == b7[at + k]);
            } else if k < 28 {
                assert(b8[at + 24 + (k - 24)] == le_byte(e.z_bits, k - 24));
                assert(buf@[at + k] == b8[at + k]);
            } else {
                assert(buf@[at + 28 + (k - 28)] == le_byte(0, k - 28));
                lemma_zero_bytes(k - 28);
            }
        }
        assert forall|j: int| 0 <= j < buf@.len() && !(at <= j < at + 32) implies #[trigger] buf@[j] == b0[j] by {
            assert(b8[j] == b0[j]);
        }
    }
}

/// Writes the entries in order, 32 bytes each from the start of the buffer,
/// until the entries or the buffer run out, and returns how many were
/// written; the bytes after them keep their values.
pub fn write_render_entries(buffer: &mut Vec<u8>, entries: &[RenderEntry]) -> (count: u32)
    requires
        entries@.len() <= u32::MAX,
    ensures
        final(buffer)@.len() == old(buffer)@.len(),
        count == rendered_count(entries@.len(), old(buffer)@.len()),
        forall|i: int, k: int|
            0 <= i < count && 0 <= k < 32 ==> #[trigger] final(buffer)@[i * 32 + k] == render_byte(entries@[i], k),
        forall|j: int| count * 32 <= j < final(buffer)@.len() ==> #[trigger] final(buffer)@[j] == old(buffer)@[j],
{
    let ghost len0 = old(buffer)@.len();
    let blen = buffer.len();
    let mut count: u32 = 0;
    let mut i: usize = 0;
    if entries.len() == 0 {
        return 0;
    }
    while i < entries.len()
        invariant_except_break
            i == count,
            i <= entries@.len(),
            entries@.len() <= u32::MAX,
            i * 32 <= buffer@.len(),
            len0 == old(buffer)@.len(),
            blen == len0,
            buffer@.len() == old(buffer)@.len(),
            forall|q: int, k: int|
                0 <= q < i && 0 <= k < 32 ==> #[trigger] buffer@[q * 32 + k] == render_byte(entries@[q], k),
            forall|j: int| i * 32 <= j < buffer@.len() ==> #[trigger] buffer@[j] == old(buffer)@[j],
        ensures
            i == count,
            count == rendered_count(entries@.len(), old(buffer)@.len()),
            buffer@.len() == old(buffer)@.len(),
            forall|q: int, k: int|
                0 <= q < count && 0 <= k < 32 ==> #[trigger] buffer@[q * 32 + k] == render_byte(entries@[q], k),
            forall|j: int| count * 32 <= j < buffer@.len() ==> #[trigger] buffer@[j] == old(buffer)@[j],
        decreases entries@.len() - i,
    {
        let offset = i * RENDER_ENTRY_SIZE;
        if blen - offset < RENDER_ENTRY_SIZE {
            assert(buffer@.len() / 32 == i) by (nonlinear_arith)
                requires
                    i * 32 <= buffer@.len(),
                    i * 32 + 32 > buffer@.len(),
            ;
            break;
        }
        let ghost before = buffer@;
        put_render_entry(buffer, offset, &entries[i]);
        proof {
            assert forall|q: int, k: int|
                0 <= q < i + 1 && 0 <= k < 32 implies #[trigger] buffer@[q * 32 + k] == render_byte(entries@[q], k) by {
                if q < i {
                    assert(q * 32 + k < i * 32) by (nonlinear_arith)
                        requires
                            q < i,
                            k < 32,
                    ;
                    assert(buffer@[q * 32 + k] == before[q * 32 + k]);
                } else {
                    assert(q * 32 + k == offset + k);
                }
            }
        }
        count += 1;
        i += 1;
        if i == entries.len() {
            assert(i <= len0 / 32) by (nonlinear_arith)
                requires
                    i * 32 <= len0,
            ;
        }
    }
    count
}

} // verus!

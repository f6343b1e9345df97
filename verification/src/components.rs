use vstd::prelude::*;
use crate::types::{SpriteId, AnimState, anim_code};

verus! {

/// Unit type and ownership.
#[derive(Clone, Copy, Debug, PartialEq, Eq, Structural)]
pub struct UnitType {
    pub kind: SpriteId,
    pub owner: u8,
}

/// Tag component marking an entity as selected.
pub struct Selected;

/// Whether a unit is deployed in an RTS battle (true) or garrisoned at home (false).
/// Affects upkeep cost calculation.
#[derive(Clone, Copy, Debug, PartialEq, Eq, Structural)]
pub struct Deployed(pub bool);

/// Render flags with the selection bit (bit 0) set or cleared; the other
/// bits are kept.
pub open spec fn flags_with_selection(flags: u8, selected: bool) -> u8 {
    if selected {
        flags | 1
    } else {
        flags & !1u8
    }
}

/// Sets or clears the selection bit (bit 0) of render flags.
pub fn set_selected_flag(flags: u8, selected: bool) -> (r: u8)
    ensures
        r == flags_with_selection(flags, selected),
        (r & 1 != 0) == selected,
        r & 0xfe == flags & 0xfe,
{
    let r = if selected { flags | 1 } else { flags & !1u8 };
    assert(selected ==> (flags | 1) & 1 != 0 && (flags | 1) & 0xfe == flags & 0xfe) by (bit_vector);
    assert(!selected ==> (flags & !1u8) & 1 == 0 && (flags & !1u8) & 0xfe == flags & 0xfe) by (bit_vector);
    r
}

/// Whether the selection bit of render flags is set.
pub fn selected_flag(flags: u8) -> (b: bool)
    ensures
        b == (flags & 1 != 0),
{
    flags & 1 != 0
}

/// Render flags with bits 2-3 holding the animation state: bits 0-1
/// (selected, constructing) are kept and the bits above are cleared.
pub fn pack_anim_flags(flags: u8, anim: AnimState) -> (r: u8)
    ensures
        r & 3 == flags & 3,
        r >> 2 == anim_code(anim),
{
    let code = anim.code();
    let r = (flags & 0b0000_0011) | (code << 2);
    assert(((flags & 3) | (code << 2)) & 3 == flags & 3 && ((flags & 3) | (code << 2)) >> 2 == code) by (bit_vector)
        requires
            code < 4,
    ;
    r
}

/// Reading the selection bit gives back what was last set, and setting it
/// leaves every other flag as it was.
pub proof fn law_selection_roundtrip(flags: u8, selected: bool, other: bool)
    ensures
        (flags_with_selection(flags, selected) & 1 != 0) == selected,
        flags_with_selection(flags_with_selection(flags, other), selected) == flags_with_selection(flags, selected),
{
    assert((flags | 1) & 1 != 0 && (flags & !1u8) & 1 == 0) by (bit_vector);
    assert(((flags | 1) | 1) == flags | 1 && ((flags & !1u8) | 1) == flags | 1 && ((flags | 1) & !1u8) == flags & !1u8
        && ((flags & !1u8) & !1u8) == flags & !1u8) by (bit_vector);
}

} // verus!

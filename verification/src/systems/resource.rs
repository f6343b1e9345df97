use vstd::prelude::*;
use crate::bytes::{le_byte, put_le};

verus! {

/// Size in bytes of the UI state buffer shared with the client.
pub const UI_STATE_SIZE: usize = 256;

/// Resource: flat byte buffer with the local player's UI state.
/// Layout: [0-3] energy_bank f32, [4-7] income f32, [8-11] expense f32,
///         [12-15] strain f32, [16-19] strain_income_penalty f32,
///         [20-23] game_tick u32, [24-27] game_time_secs f32,
///         [28] game_state u8, [29-31] padding,
///         [32-63] reserved (selected_ids, etc.),
///         [64-67] selected_count u32,
///         [68-195] production_queues,
///         [196-255] reserved
pub struct UIStateBuffer(pub Vec<u8>);

impl UIStateBuffer {
    pub fn new() -> (b: Self)
        ensures
            b.0@ == Seq::new(UI_STATE_SIZE as nat, |i: int| 0u8),
    {
        let mut v: Vec<u8> = Vec::with_capacity(UI_STATE_SIZE);
        let mut i: usize = 0;
        while i < UI_STATE_SIZE
            invariant
                i <= UI_STATE_SIZE,
                v@ == Seq::new(i as nat, |k: int| 0u8),
            decreases UI_STATE_SIZE - i,
        {
            v.push(0);
            i += 1;
            assert(v@ =~= Seq::new(i as nat, |k: int| 0u8));
        }
        UIStateBuffer(v)
    }
}

/// The six little-endian words of the economy panel, in the order they lie
/// at UI bytes [0-23].
pub open spec fn economy_word(
    energy_bits: u32,
    income_bits: u32,
    expense_bits: u32,
    strain_bits: u32,
    penalty_bits: u32,
    game_tick: u32,
    w: int,
) -> u32 {
    if w == 0 {
        energy_bits
    } else if w == 1 {
        income_bits
    } else if w == 2 {
        expense_bits
    } else if w == 3 {
        strain_bits
    } else if w == 4 {
        penalty_bits
    } else {
        game_tick
    }
}

/// Writes the economy panel to UI bytes [0-23]: energy bank, income, expense,
/// strain and strain penalty (the bits of `f32`s), then the game tick; the
/// other bytes keep their values.
pub fn write_economy_panel(
    buf: &mut Vec<u8>,
    energy_bits: u32,
    income_bits: u32,
    expense_bits: u32,
    strain_bits: u32,
    penalty_bits: u32,
    game_tick: u32,
)
    requires
        old(buf)@.len() >= 24,
    ensures
        final(buf)@.len() == old(buf)@.len(),
        forall|w: int, k: int|
            0 <= w < 6 && 0 <= k < 4 ==> #[trigger] final(buf)@[w * 4 + k] == le_byte(
                economy_word(energy_bits, income_bits, expense_bits, strain_bits, penalty_bits, game_tick, w),
                k,
            ),
        forall|j: int| 24 <= j < final(buf)@.len() ==> #[trigger] final(buf)@[j] == old(buf)@[j],
{
    let mut w: usize = 0;
    while w < 6
        invariant
            w <= 6,
            buf@.len() == old(buf)@.len(),
            buf@.len() >= 24,
            forall|q: int, k: int|
                0 <= q < w && 0 <= k < 4 ==> #[trigger] buf@[q * 4 + k] == le_byte(
                    economy_word(energy_bits, income_bits, expense_bits, strain_bits, penalty_bits, game_tick, q),
                    k,
                ),
            forall|j: int| w * 4 <= j < buf@.len() ==> #[trigger] buf@[j] == old(buf)@[j],
        decreases 6 - w,
    {
        let v = if w == 0 {
            energy_bits
        } else if w == 1 {
            income_bits
        } else if w == 2 {
            expense_bits
        } else if w == 3 {
            strain_bits
        } else if w == 4 {
            penalty_bits
        } else {
            game_tick
        };
        let ghost before = buf@;
        put_le(buf, w * 4, v, 4);
        assert forall|q: int, k: int|
            0 <= q < w + 1 && 0 <= k < 4 implies #[trigger] buf@[q * 4 + k] == le_byte(
                economy_word(energy_bits, income_bits, expense_bits, strain_bits, penalty_bits, game_tick, q),
                k,
            ) by {
            if q < w {
                assert(buf@[q * 4 + k] == before[q * 4 + k]);
            } else {
                assert(q * 4 + k == w * 4 + k);
            }
        }
        w += 1;
    }
}

} // verus!

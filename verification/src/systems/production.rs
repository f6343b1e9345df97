use vstd::prelude::*;
use crate::bytes::{le_byte, put_le, lemma_zero_bytes};
use crate::blueprints::ProductionLine;

verus! {

/// Index of the first free line (`None` slot), or -1 when every line is busy.
pub open spec fn first_free<J>(lines: Seq<Option<J>>) -> int
    decreases lines.len(),
{
    if lines.len() == 0 {
        -1
    } else if lines.last() is None && first_free(lines.drop_last()) == -1 {
        lines.len() - 1
    } else {
        first_free(lines.drop_last())
    }
}

/// `first_free` names a free line and no free line comes before it.
pub proof fn lemma_first_free<J>(lines: Seq<Option<J>>)
    ensures
        -1 <= first_free(lines) < lines.len(),
        first_free(lines) >= 0 ==> lines[first_free(lines)] is None,
        forall|i: int| 0 <= i < lines.len() && (i < first_free(lines) || first_free(lines) == -1)
            ==> #[trigger] lines[i] is Some,
    decreases lines.len(),
{
    if lines.len() > 0 {
        let init = lines.drop_last();
        lemma_first_free(init);
        assert forall|i: int| 0 <= i < lines.len() && (i < first_free(lines) || first_free(lines) == -1)
            implies #[trigger] lines[i] is Some by {
            if i < lines.len() - 1 {
                assert(init[i] == lines[i]);
            }
        }
    }
}

/// Put a job on the first free line. Returns false, changing nothing, when
/// every line is busy.
pub fn queue_on_free_line<J>(lines: &mut Vec<Option<J>>, job: J) -> (queued: bool)
    ensures
        queued == (first_free(old(lines)@) >= 0),
        queued ==> final(lines)@ == old(lines)@.update(first_free(old(lines)@), Some(job)),
        !queued ==> final(lines)@ == old(lines)@,
{
    proof {
        lemma_first_free(lines@);
    }
    let n = lines.len();
    let mut i: usize = 0;
    while i < n
        invariant
            n == lines@.len(),
            i <= n,
            lines@ == old(lines)@,
            forall|k: int| 0 <= k < i ==> #[trigger] lines@[k] is Some,
            -1 <= first_free(lines@) < n,
            first_free(lines@) >= 0 ==> lines@[first_free(lines@)] is None,
            forall|k: int| 0 <= k < n && (k < first_free(lines@) || first_free(lines@) == -1)
                ==> #[trigger] lines@[k] is Some,
        decreases n - i,
    {
        if lines[i].is_none() {
            proof {
                let f = first_free(lines@);
                if f == -1 || i < f {
                    assert(lines@[i as int] is Some);
                }
                if f >= 0 && f < i {
                    assert(lines@[f] is Some);
                }
            }
            lines.set(i, Some(job));
            return true;
        }
        i += 1;
    }
    proof {
        let f = first_free(lines@);
        if f >= 0 {
            assert(lines@[f] is Some);
        }
    }
    false
}

/// Lines after cancelling flat line `line_index`: infantry lines come first,
/// then armor lines; an index past both changes nothing.
pub open spec fn lines_after_cancel<J>(infantry: Seq<Option<J>>, armor: Seq<Option<J>>, line_index: u8) -> (
    Seq<Option<J>>,
    Seq<Option<J>>,
) {
    if line_index < infantry.len() {
        (infantry.update(line_index as int, None), armor)
    } else if line_index - infantry.len() < armor.len() {
        (infantry, armor.update(line_index - infantry.len(), None))
    } else {
        (infantry, armor)
    }
}

/// Cancel production on a specific line index.
/// line_index: 0..infantry_count for infantry, infantry_count.. for armor.
pub fn cancel_line<J>(infantry: &mut Vec<Option<J>>, armor: &mut Vec<Option<J>>, line_index: u8)
    ensures
        (final(infantry)@, final(armor)@) == lines_after_cancel(old(infantry)@, old(armor)@, line_index),
{
    let idx = line_index as usize;
    let infantry_count = infantry.len();
    if idx < infantry_count {
        infantry.set(idx, None);
    } else {
        let armor_idx = idx - infantry_count;
        if armor_idx < armor.len() {
            armor.set(armor_idx, None);
        }
    }
}

/// Line added by a Node upgrade and the number of lines it allows:
/// 0 = second infantry line, 1 = second armor line, 2 = third infantry
/// line, 3 = third armor line; other codes add nothing.
pub open spec fn upgrade_target(upgrade: u8) -> Option<(ProductionLine, nat)> {
    if upgrade == 0 {
        Some((ProductionLine::Infantry, 2))
    } else if upgrade == 1 {
        Some((ProductionLine::Armor, 2))
    } else if upgrade == 2 {
        Some((ProductionLine::Infantry, 3))
    } else if upgrade == 3 {
        Some((ProductionLine::Armor, 3))
    } else {
        None
    }
}

/// Lines after a Node upgrade: the upgraded kind gains a free line unless it
/// already has the number the upgrade allows.
pub open spec fn lines_after_upgrade<J>(infantry: Seq<Option<J>>, armor: Seq<Option<J>>, upgrade: u8) -> (
    Seq<Option<J>>,
    Seq<Option<J>>,
) {
    match upgrade_target(upgrade) {
        Some((ProductionLine::Infantry, limit)) => if infantry.len() < limit {
            (infantry.push(None), armor)
        } else {
            (infantry, armor)
        },
        Some((ProductionLine::Armor, limit)) => if armor.len() < limit {
            (infantry, armor.push(None))
        } else {
            (infantry, armor)
        },
        None => (infantry, armor),
    }
}

/// Apply a Node upgrade to a player's production lines.
pub fn apply_line_upgrade<J>(infantry: &mut Vec<Option<J>>, armor: &mut Vec<Option<J>>, upgrade: u8)
    ensures
        (final(infantry)@, final(armor)@) == lines_after_upgrade(old(infantry)@, old(armor)@, upgrade),
{
    match upgrade {
        // Infantry2: add second infantry line
        0 => {
            if infantry.len() < 2 {
                infantry.push(None);
            }
        },
        // Armor2: add second armor line
        1 => {
            if armor.len() < 2 {
                armor.push(None);
            }
        },
        // Infantry3: add third infantry line
        2 => {
            if infantry.len() < 3 {
                infantry.push(None);
            }
        },
        // Armor3: add third armor line
        3 => {
            if armor.len() < 3 {
                armor.push(None);
            }
        },
        _ => {},
    }
}

/// Upgrades never take a kind of line past three lines, whatever their order.
pub proof fn law_upgrades_bounded<J>(infantry: Seq<Option<J>>, armor: Seq<Option<J>>, upgrade: u8)
    requires
        infantry.len() <= 3,
        armor.len() <= 3,
    ensures
        lines_after_upgrade(infantry, armor, upgrade).0.len() <= 3,
        lines_after_upgrade(infantry, armor, upgrade).1.len() <= 3,
        lines_after_upgrade(infantry, armor, upgrade).0.len() >= infantry.len(),
        lines_after_upgrade(infantry, armor, upgrade).1.len() >= armor.len(),
{
}

/// Node upgrades come in pairs by level: codes 0 and 1 allow a second line,
/// 2 and 3 a third; the even code of a pair adds an infantry line and the odd
/// one an armor line. An upgrade adds one free line of its kind while the
/// kind has fewer lines than the level allows, and never touches the other
/// kind; other codes change nothing.
pub proof fn law_upgrade_adds_a_line_of_its_kind<J>(infantry: Seq<Option<J>>, armor: Seq<Option<J>>, upgrade: u8)
    ensures
        ({
            let (inf2, arm2) = lines_after_upgrade(infantry, armor, upgrade);
            let allowed = upgrade / 2 + 2;
            if upgrade >= 4 {
                inf2 == infantry && arm2 == armor
            } else if upgrade % 2 == 0 {
                &&& arm2 == armor
                &&& inf2 == if infantry.len() < allowed {
                    infantry.push(None)
                } else {
                    infantry
                }
            } else {
                &&& inf2 == infantry
                &&& arm2 == if armor.len() < allowed {
                    armor.push(None)
                } else {
                    armor
                }
            }
        }),
{
}

/// Cancelling frees exactly the addressed line and keeps the number of lines.
pub proof fn law_cancel_frees_addressed_line<J>(infantry: Seq<Option<J>>, armor: Seq<Option<J>>, line_index: u8)
    requires
        line_index < infantry.len() + armor.len(),
    ensures
        ({
            let (inf2, arm2) = lines_after_cancel(infantry, armor, line_index);
            &&& inf2.len() == infantry.len()
            &&& arm2.len() == armor.len()
            &&& if line_index < infantry.len() {
                inf2[line_index as int] is None
            } else {
                arm2[line_index - infantry.len()] is None
            }
        }),
{
}

/// Byte `k` of the 16-byte UI entry of a production line: for a running job
/// [0-1] unit type, [2-5] progress, [6-9] total time (the bits of the two
/// `f32`s), [10-15] padding; all zero for a free line.
pub open spec fn production_ui_byte(line: Option<(u16, u32, u32)>, k: int) -> u8 {
    match line {
        Some((unit_type, progress_bits, total_bits)) => if k < 2 {
            le_byte(unit_type as u32, k)
        } else if k < 6 {
            le_byte(progress_bits, k - 2)
        } else if k < 10 {
            le_byte(total_bits, k - 6)
        } else {
            0
        },
        None => 0,
    }
}

/// The line shown in UI slot `i`: the `i`-th of `lines`, free past their end.
pub open spec fn shown_line(lines: Seq<Option<(u16, u32, u32)>>, i: int) -> Option<(u16, u32, u32)> {
    if i < lines.len() {
        lines[i]
    } else {
        None
    }
}

/// Writes the first eight production lines (infantry lines first, then
/// armor lines) to UI bytes [68-195], 16 bytes per line; the other bytes keep
/// their values.
pub fn write_production_panel(ui: &mut Vec<u8>, lines: &[Option<(u16, u32, u32)>])
    requires
        old(ui)@.len() >= 196,
    ensures
        final(ui)@.len() == old(ui)@.len(),
        forall|i: int, k: int|
            0 <= i < 8 && 0 <= k < 16 ==> #[trigger] final(ui)@[68 + i * 16 + k] == production_ui_byte(
                shown_line(lines@, i),
                k,
            ),
        forall|j: int| 0 <= j < final(ui)@.len() && !(68 <= j < 196) ==> #[trigger] final(ui)@[j] == old(ui)@[j],
{
    let mut i: usize = 0;
    while i < 8
        invariant
            i <= 8,
            ui@.len() == old(ui)@.len(),
            ui@.len() >= 196,
            forall|q: int, k: int|
                0 <= q < i && 0 <= k < 16 ==> #[trigger] ui@[68 + q * 16 + k] == production_ui_byte(
                    shown_line(lines@, q),
                    k,
                ),
            forall|j: int| 0 <= j < ui@.len() && !(68 <= j < 68 + i * 16) ==> #[trigger] ui@[j] == old(ui)@[j],
        decreases 8 - i,
    {
        let base = 68 + i * 16;
        let ghost before = ui@;
        let line: Option<(u16, u32, u32)> = if i < lines.len() {
            lines[i]
        } else {
            None
        };
        match line {
            Some((unit_type, progress_bits, total_bits)) => {
                put_le(ui, base, unit_type as u32, 2);
                let ghost c1 = ui@;
                put_le(ui, base + 2, progress_bits, 4);
                let ghost c2 = ui@;
                put_le(ui, base + 6, total_bits, 4);
                let ghost c3 = ui@;
                put_le(ui, base + 10, 0, 4);
                let ghost c4 = ui@;
                put_le(ui, base + 14, 0, 2);
                assert forall|k: int| 0 <= k < 16 implies #[trigger] ui@[base + k] == production_ui_byte(line, k) by {
                    if k < 2 {
                        assert(c1[base + k] == le_byte(unit_type as u32, k));
                        assert(ui@[base + k] == c1[base + k]);
                    } else if k < 6 {
                        assert(c2[base + 2 + (k - 2)] == le_byte(progress_bits, k - 2));
                        assert(ui@[base + k] == c2[base + k]);
                    } else if k < 10 {
                        assert(c3[base + 6 + (k - 6)] == le_byte(total_bits, k - 6));
                        assert(ui@[base + k] == c3[base + k]);
                    } else if k < 14 {
                        assert(c4[base + 10 + (k - 10)] == le_byte(0, k - 10));
                        lemma_zero_bytes(k - 10);
                        assert(ui@[base + k] == c4[base + k]);
                    } else {
                        assert(ui@[base + 14 + (k - 14)] == le_byte(0, k - 14));
                        lemma_zero_bytes(k - 14);
                    }
                }
            },
            None => {
                put_le(ui, base, 0, 4);
                let ghost c1 = ui@;
                put_le(ui, base + 4, 0, 4);
                let ghost c2 = ui@;
                put_le(ui, base + 8, 0, 4);
                let ghost c3 = ui@;
                put_le(ui, base + 12, 0, 4);
                assert forall|k: int| 0 <= k < 16 implies #[trigger] ui@[base + k] == production_ui_byte(line, k) by {
                    let q = k / 4;
                    let r = k % 4;
                    lemma_zero_bytes(r);
                    if q == 0 {
                        assert(c1[base + r] == le_byte(0, r));
                        assert(ui@[base + k] == c1[base + k]);
                    } else if q == 1 {
                        assert(c2[base + 4 + r] == le_byte(0, r));
                        assert(ui@[base + k] == c2[base + k]);
                    } else if q == 2 {
                        assert(c3[base + 8 + r] == le_byte(0, r));
                        assert(ui@[base + k] == c3[base + k]);
                    } else {
                        assert(ui@[base + 12 + r] == le_byte(0, r));
                    }
                }
            },
        }
        assert(line == shown_line(lines@, i as int));
        assert forall|q: int, k: int|
            0 <= q < i + 1 && 0 <= k < 16 implies #[trigger] ui@[68 + q * 16 + k] == production_ui_byte(
                shown_line(lines@, q),
                k,
            ) by {
            if q < i {
                assert(ui@[68 + q * 16 + k] == before[68 + q * 16 + k]);
            } else {
                assert(68 + q * 16 + k == base + k);
            }
        }
        i += 1;
    }
}

} // verus!

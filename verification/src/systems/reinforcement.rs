use vstd::prelude::*;
use crate::bytes::{le_byte, put_le, lemma_zero_bytes};
use crate::types::{SpriteId, sprite_code};

verus! {

/// Minimum ticks between reinforcement requests per player (3 seconds at 20Hz).
pub const REINFORCEMENT_COOLDOWN_TICKS: u32 = 60;

/// A single pending reinforcement request waiting to arrive. The health the
/// units arrive with (a fraction of their maximum, an `f32`) is carried as
/// its bits.
#[derive(Clone, Copy, Debug)]
pub struct ReinforcementRequest {
    pub player: u8,
    pub unit_type: SpriteId,
    pub count: u32,
    pub health_bits: u32,
    pub ticks_remaining: u32,
}

/// A request one tick later: its arrival timer counted down, stopping at 0.
pub open spec fn counted_down(r: ReinforcementRequest) -> ReinforcementRequest {
    ReinforcementRequest {
        ticks_remaining: if r.ticks_remaining > 0 {
            (r.ticks_remaining - 1) as u32
        } else {
            0
        },
        ..r
    }
}

/// The requests of `s` that arrive on this tick, counted down, in order.
pub open spec fn arriving(s: Seq<ReinforcementRequest>) -> Seq<ReinforcementRequest>
    decreases s.len(),
{
    if s.len() == 0 {
        s
    } else {
        let r = counted_down(s.last());
        if r.ticks_remaining == 0 {
            arriving(s.drop_last()).push(r)
        } else {
            arriving(s.drop_last())
        }
    }
}

/// The requests of `s` still on their way after this tick, counted down, in
/// order.
pub open spec fn still_pending(s: Seq<ReinforcementRequest>) -> Seq<ReinforcementRequest>
    decreases s.len(),
{
    if s.len() == 0 {
        s
    } else {
        let r = counted_down(s.last());
        if r.ticks_remaining == 0 {
            still_pending(s.drop_last())
        } else {
            still_pending(s.drop_last()).push(r)
        }
    }
}

/// Resource: pending reinforcement requests for this battle.
pub struct PendingReinforcements {
    pub requests: Vec<ReinforcementRequest>,
    /// Per-player cooldown (ticks remaining before next request allowed).
    pub cooldowns: Vec<u32>,
}

/// The pending requests of `player`, in order, each as
/// (unit type code, count, ticks remaining).
pub open spec fn player_requests(rs: Seq<ReinforcementRequest>, player: u8) -> Seq<(u16, u32, u32)>
    decreases rs.len(),
{
    if rs.len() == 0 {
        Seq::empty()
    } else {
        let r = rs.last();
        player_requests(rs.drop_last(), player) + if r.player == player {
            seq![(sprite_code(r.unit_type), r.count, r.ticks_remaining)]
        } else {
            Seq::empty()
        }
    }
}

/// At most the first three of `s`.
pub open spec fn first_three<A>(s: Seq<A>) -> Seq<A> {
    if s.len() <= 3 {
        s
    } else {
        s.take(3)
    }
}

impl PendingReinforcements {
    /// The first three pending requests of `player`, in order, as shown in
    /// the reinforcement panel.
    pub fn panel_requests(&self, player: u8) -> (out: Vec<(u16, u32, u32)>)
        ensures
            out@ == first_three(player_requests(self.requests@, player)),
    {
        let mut out: Vec<(u16, u32, u32)> = Vec::new();
        let n = self.requests.len();
        let mut i: usize = 0;
        while i < n
            invariant
                n == self.requests@.len(),
                i <= n,
                out@ == first_three(player_requests(self.requests@.take(i as int), player)),
            decreases n - i,
        {
            let r = &self.requests[i];
            proof {
                assert(self.requests@.take(i + 1).drop_last() =~= self.requests@.take(i as int));
                assert(self.requests@.take(i + 1).last() == self.requests@[i as int]);
            }
            if r.player == player && out.len() < 3 {
                out.push((r.unit_type.to_u16(), r.count, r.ticks_remaining));
            }
            proof {
                let p0 = player_requests(self.requests@.take(i as int), player);
                let p1 = player_requests(self.requests@.take(i + 1), player);
                if r.player == player {
                    assert(p1 == p0.push((sprite_code(r.unit_type), r.count, r.ticks_remaining)));
                    if p0.len() >= 3 {
                        assert(first_three(p1) =~= first_three(p0));
                    } else {
                        assert(first_three(p1) =~= first_three(p0).push((sprite_code(r.unit_type), r.count, r.ticks_remaining)));
                    }
                } else {
                    assert(p1 =~= p0);
                }
            }
            i += 1;
        }
        assert(self.requests@.take(n as int) =~= self.requests@);
        out
    }

    pub fn new(player_count: u32) -> (p: Self)
        ensures
            p.requests@.len() == 0,
            p.cooldowns@ == Seq::new(player_count as nat, |i: int| 0u32),
    {
        let mut cooldowns: Vec<u32> = Vec::new();
        let mut i: u32 = 0;
        while i < player_count
            invariant
                i <= player_count,
                cooldowns@ == Seq::new(i as nat, |k: int| 0u32),
            decreases player_count - i,
        {
            cooldowns.push(0);
            i += 1;
            assert(cooldowns@ =~= Seq::new(i as nat, |k: int| 0u32));
        }
        PendingReinforcements { requests: Vec::new(), cooldowns }
    }

    /// Check if a player is off cooldown (players without a slot always are).
    pub fn can_request(&self, player: u8) -> (b: bool)
        ensures
            b == (player >= self.cooldowns@.len() || self.cooldowns@[player as int] == 0),
    {
        if (player as usize) < self.cooldowns.len() {
            self.cooldowns[player as usize] == 0
        } else {
            true
        }
    }

    /// Start cooldown for a player.
    pub fn start_cooldown(&mut self, player: u8)
        ensures
            final(self).requests@ == old(self).requests@,
            final(self).cooldowns@ == if player < old(self).cooldowns@.len() {
                old(self).cooldowns@.update(player as int, REINFORCEMENT_COOLDOWN_TICKS)
            } else {
                old(self).cooldowns@
            },
    {
        if (player as usize) < self.cooldowns.len() {
            self.cooldowns.set(player as usize, REINFORCEMENT_COOLDOWN_TICKS);
        }
    }

    /// Counts every cooldown down by one tick, stopping at 0.
    pub fn tick_cooldowns(&mut self)
        ensures
            final(self).requests@ == old(self).requests@,
            final(self).cooldowns@.len() == old(self).cooldowns@.len(),
            forall|i: int|
                0 <= i < final(self).cooldowns@.len() ==> #[trigger] final(self).cooldowns@[i] == if old(
                    self,
                ).cooldowns@[i] > 0 {
                    (old(self).cooldowns@[i] - 1) as u32
                } else {
                    0
                },
    {
        let n = self.cooldowns.len();
        let mut i: usize = 0;
        while i < n
            invariant
                n == self.cooldowns@.len(),
                n == old(self).cooldowns@.len(),
                i <= n,
                self.requests@ == old(self).requests@,
                forall|k: int|
                    0 <= k < n ==> #[trigger] self.cooldowns@[k] == if k < i {
                        if old(self).cooldowns@[k] > 0 {
                            (old(self).cooldowns@[k] - 1) as u32
                        } else {
                            0
                        }
                    } else {
                        old(self).cooldowns@[k]
                    },
            decreases n - i,
        {
            let cd = self.cooldowns[i];
            if cd > 0 {
                self.cooldowns.set(i, cd - 1);
            }
            i += 1;
        }
    }

    /// Counts every request's arrival timer down by one tick and hands out,
    /// in order, those that arrive now; the others stay, in order.
    pub fn take_arrived(&mut self) -> (arrived: Vec<ReinforcementRequest>)
        ensures
            arrived@ == arriving(old(self).requests@),
            final(self).requests@ == still_pending(old(self).requests@),
            final(self).cooldowns@ == old(self).cooldowns@,
    {
        let ghost s = self.requests@;
        let mut arrived: Vec<ReinforcementRequest> = Vec::new();
        let mut kept: Vec<ReinforcementRequest> = Vec::new();
        let mut i: usize = 0;
        while i < self.requests.len()
            invariant
                s == self.requests@,
                i <= s.len(),
                self.cooldowns@ == old(self).cooldowns@,
                s == old(self).requests@,
                arrived@ == arriving(s.subrange(0, i as int)),
                kept@ == still_pending(s.subrange(0, i as int)),
            decreases s.len() - i,
        {
            let mut r = self.requests[i];
            r.ticks_remaining = if r.ticks_remaining > 0 { r.ticks_remaining - 1 } else { 0 };
            proof {
                let t = s.subrange(0, i as int + 1);
                assert(t.drop_last() =~= s.subrange(0, i as int));
                assert(t.last() == s[i as int]);
                assert(r == counted_down(s[i as int]));
            }
            if r.ticks_remaining == 0 {
                arrived.push(r);
            } else {
                kept.push(r);
            }
            i += 1;
        }
        assert(s.subrange(0, s.len() as int) =~= s);
        self.requests = kept;
        arrived
    }
}

/// Every request either arrives or stays pending, so none is lost or
/// duplicated by a tick: the two together are as many as before.
pub proof fn law_requests_conserved(s: Seq<ReinforcementRequest>)
    ensures
        arriving(s).len() + still_pending(s).len() == s.len(),
        forall|i: int| 0 <= i < arriving(s).len() ==> (#[trigger] arriving(s)[i]).ticks_remaining == 0,
        forall|i: int| 0 <= i < still_pending(s).len() ==> (#[trigger] still_pending(s)[i]).ticks_remaining > 0,
    decreases s.len(),
{
    if s.len() > 0 {
        law_requests_conserved(s.drop_last());
    }
}

/// Resource: what reinforcements are available from the campaign Node garrison.
/// Updated by the campaign each tick for each active battle.
#[derive(Clone, Debug)]
pub struct ReinforcementAvailability {
    /// Per-player availability: (unit_type as u16, count available).
    pub available: Vec<Vec<(u16, u32)>>,
    /// Whether each player's CP is alive in this battle.
    pub cp_alive: Vec<bool>,
}

impl ReinforcementAvailability {
    pub fn new(player_count: u32) -> (r: Self)
        ensures
            r.available@.len() == player_count,
            forall|p: int| 0 <= p < player_count ==> (#[trigger] r.available@[p])@.len() == 0,
            r.cp_alive@.len() == player_count,
            forall|p: int| 0 <= p < player_count ==> !(#[trigger] r.cp_alive@[p]),
    {
        let mut available: Vec<Vec<(u16, u32)>> = Vec::new();
        let mut cp_alive: Vec<bool> = Vec::new();
        let mut p: u32 = 0;
        while p < player_count
            invariant
                p <= player_count,
                available@.len() == p,
                cp_alive@.len() == p,
                forall|q: int| 0 <= q < p ==> (#[trigger] available@[q])@.len() == 0,
                forall|q: int| 0 <= q < p ==> !(#[trigger] cp_alive@[q]),
            decreases player_count - p,
        {
            available.push(Vec::new());
            cp_alive.push(false);
            p += 1;
        }
        ReinforcementAvailability { available, cp_alive }
    }
}

/// Count of units of `unit_type` in an availability list: that of its
/// first entry, 0 without one.
pub open spec fn first_count(avail: Seq<(u16, u32)>, unit_type: u16) -> u32
    decreases avail.len(),
{
    if avail.len() == 0 {
        0
    } else if avail[0].0 == unit_type {
        avail[0].1
    } else {
        first_count(avail.drop_first(), unit_type)
    }
}

/// Local player's availability list (player 0), empty when unknown.
pub open spec fn local_available(avail: Option<&ReinforcementAvailability>) -> Seq<(u16, u32)> {
    match avail {
        Some(a) => if a.available@.len() > 0 {
            a.available@[0]@
        } else {
            Seq::empty()
        },
        None => Seq::empty(),
    }
}

/// Whether the local player's Command Post is alive (false when unknown).
pub open spec fn local_cp_alive(avail: Option<&ReinforcementAvailability>) -> bool {
    match avail {
        Some(a) => a.cp_alive@.len() > 0 && a.cp_alive@[0],
        None => false,
    }
}

/// The UI bytes [196-235] are those of the reinforcement panel for the
/// given availability, cooldown and pending requests (unit type, count,
/// ticks remaining; only the first three are shown).
pub open spec fn reinforcement_panel(
    buf: Seq<u8>,
    avail: Option<&ReinforcementAvailability>,
    cooldown: u32,
    requests: Seq<(u16, u32, u32)>,
) -> bool {
    let shown = if requests.len() > 3 {
        3
    } else {
        requests.len()
    };
    let list = local_available(avail);
    &&& buf[196] == (if local_cp_alive(avail) {
        1u8
    } else {
        0u8
    })
    &&& buf[197] == (if cooldown < 255 {
        cooldown as u8
    } else {
        255u8
    })
    &&& buf[198] == shown as u8
    &&& buf[199] == 0
    &&& forall|k: int|
        0 <= k < 4 ==> {
            &&& #[trigger] buf[200 + k] == le_byte(first_count(list, 0), k)
            &&& buf[204 + k] == le_byte(first_count(list, 1), k)
            &&& buf[208 + k] == le_byte(first_count(list, 2), k)
        }
    &&& forall|i: int, k: int|
        0 <= i < 3 && 0 <= k < 8 ==> #[trigger] buf[212 + i * 8 + k] == if i < shown {
            let (unit_type, count, ticks) = requests[i];
            if k < 2 {
                le_byte(unit_type as u32, k)
            } else if k < 4 {
                le_byte(count as u16 as u32, k - 2)
            } else {
                le_byte(ticks, k - 4)
            }
        } else {
            0u8
        }
}

fn first_count_exec(list: &Vec<(u16, u32)>, unit_type: u16) -> (n: u32)
    ensures
        n == first_count(list@, unit_type),
{
    let mut i: usize = 0;
    assert(list@.subrange(0, list@.len() as int) =~= list@);
    while i < list.len()
        invariant
            i <= list@.len(),
            first_count(list@, unit_type) == first_count(list@.subrange(i as int, list@.len() as int), unit_type),
        decreases list@.len() - i,
    {
        let ghost rest = list@.subrange(i as int, list@.len() as int);
        assert(rest.drop_first() =~= list@.subrange(i + 1, list@.len() as int));
        if list[i].0 == unit_type {
            return list[i].1;
        }
        i += 1;
    }
    0
}

/// Write reinforcement panel state to UI bytes [196-235]:
/// [196] cp_alive, [197] cooldown_remaining (capped at 255), [198] pending_count,
/// [199] reserved, [200-203] available_thrall_count, [204-207] available_sentinel_count,
/// [208-211] available_tank_count, then up to 3 pending requests of 8 bytes
/// (unit_type u16, count u16, ticks u32) from [212], zero when absent.
/// `requests` are the local player's pending requests in order.
pub fn write_reinforcement_panel(
    buf: &mut Vec<u8>,
    avail: Option<&ReinforcementAvailability>,
    cooldown: u32,
    requests: &[(u16, u32, u32)],
)
    requires
        old(buf)@.len() >= 236,
    ensures
        final(buf)@.len() == old(buf)@.len(),
        reinforcement_panel(final(buf)@, avail, cooldown, requests@),
        forall|j: int| 0 <= j < final(buf)@.len() && !(196 <= j < 236) ==> #[trigger] final(buf)@[j] == old(buf)@[j],
{
    let cp_alive = match avail {
        Some(a) => a.cp_alive.len() > 0 && a.cp_alive[0],
        None => false,
    };
    let empty: Vec<(u16, u32)> = Vec::new();
    let list: &Vec<(u16, u32)> = match avail {
        Some(a) => if a.available.len() > 0 {
            &a.available[0]
        } else {
            &empty
        },
        None => &empty,
    };
    let avail_thralls = first_count_exec(list, 0);
    let avail_sentinels = first_count_exec(list, 1);
    let avail_tanks = first_count_exec(list, 2);
    let shown: usize = if requests.len() > 3 { 3 } else { requests.len() };
    let ghost b0 = buf@;

    // [196] cp_alive
    buf.set(196, if cp_alive { 1 } else { 0 });
    // [197] cooldown_remaining
    buf.set(197, if cooldown < 255 { cooldown as u8 } else { 255 });
    // [198] pending_count
    buf.set(198, shown as u8);
    // [199] reserved
    buf.set(199, 0);
    let ghost b1 = buf@;
    // [200-211] available counts per unit type
    put_le(buf, 200, avail_thralls, 4);
    let ghost b2 = buf@;
    put_le(buf, 204, avail_sentinels, 4);
    let ghost b3 = buf@;
    put_le(buf, 208, avail_tanks, 4);
    let ghost b4 = buf@;
    assert forall|k: int| 0 <= k && k < 4 implies {
        &&& #[trigger] buf@[200 + k] == le_byte(avail_thralls, k)
        &&& buf@[204 + k] == le_byte(avail_sentinels, k)
        &&& buf@[208 + k] == le_byte(avail_tanks, k)
    } by {
        assert(b2[200 + k] == le_byte(avail_thralls, k));
        assert(b3[200 + k] == b2[200 + k]);
        assert(b4[200 + k] == b3[200 + k]);
        assert(b3[204 + k] == le_byte(avail_sentinels, k));
        assert(b4[204 + k] == b3[204 + k]);
    }

    // Write up to 3 pending requests
    let mut i: usize = 0;
    while i < 3
        invariant
            i <= 3,
            shown <= 3,
            shown == (if requests@.len() > 3 { 3 } else { requests@.len() }),
            buf@.len() == old(buf)@.len(),
            buf@.len() >= 236,
            forall|j: int| 0 <= j < 212 || 212 + i * 8 <= j < buf@.len() ==> #[trigger] buf@[j] == b4[j],
            forall|q: int, k: int|
                0 <= q < i && 0 <= k < 8 ==> #[trigger] buf@[212 + q * 8 + k] == if q < shown {
                    let (unit_type, count, ticks) = requests@[q];
                    if k < 2 {
                        le_byte(unit_type as u32, k)
                    } else if k < 4 {
                        le_byte(count as u16 as u32, k - 2)
                    } else {
                        le_byte(ticks, k - 4)
                    }
                } else {
                    0u8
                },
        decreases 3 - i,
    {
        let base = 212 + i * 8;
        let ghost before = buf@;
        if i < shown {
            let (unit_type, count, ticks) = requests[i];
            put_le(buf, base, unit_type as u32, 2);
            let ghost c1 = buf@;
            put_le(buf, base + 2, (count as u16) as u32, 2);
            let ghost c2 = buf@;
            put_le(buf, base + 4, ticks, 4);
            assert forall|k: int| 0 <= k && k < 8 implies #[trigger] buf@[base + k] == if k < 2 {
                le_byte(unit_type as u32, k)
            } else if k < 4 {
                le_byte(count as u16 as u32, k - 2)
            } else {
                le_byte(ticks, k - 4)
            } by {
                if k < 2 {
                    assert(c1[base + k] == le_byte(unit_type as u32, k));
                    assert(c2[base + k] == c1[base + k]);
                } else if k < 4 {
                    let k2 = k - 2;
                    assert(c2[base + 2 + k2] == le_byte(count as u16 as u32, k2));
                }
                else {
                    let k4 = k - 4;
                    assert(buf@[base + 4 + k4] == le_byte(ticks, k4));
                }
            }
        } else {
            put_le(buf, base, 0, 4);
            let ghost c1 = buf@;
            put_le(buf, base + 4, 0, 4);
            assert forall|k: int| 0 <= k && k < 8 implies #[trigger] buf@[base + k] == 0u8 by {
                if k < 4 {
                    assert(c1[base + k] == le_byte(0, k));
                    lemma_zero_bytes(k);
                } else {
                    let k4 = k - 4;
                    assert(buf@[base + 4 + k4] == le_byte(0, k4));
                    lemma_zero_bytes(k4);
                }
            }
        }
        assert forall|q: int, k: int|
            0 <= q < i + 1 && 0 <= k < 8 implies #[trigger] buf@[212 + q * 8 + k] == if q < shown {
                let (unit_type, count, ticks) = requests@[q];
                if k < 2 {
                    le_byte(unit_type as u32, k)
                } else if k < 4 {
                    le_byte(count as u16 as u32, k - 2)
                } else {
                    le_byte(ticks, k - 4)
                }
            } else {
                0u8
            } by {
            if q < i {
                assert(buf@[212 + q * 8 + k] == before[212 + q * 8 + k]);
            } else {
                assert(212 + q * 8 + k == base + k);
            }
        }
        i += 1;
    }
    proof {
        assert(buf@[196] == b1[196]);
        assert forall|k: int| 0 <= k && k < 4 implies {
            &&& #[trigger] buf@[200 + k] == le_byte(first_count(local_available(avail), 0), k)
            &&& buf@[204 + k] == le_byte(first_count(local_available(avail), 1), k)
            &&& buf@[208 + k] == le_byte(first_count(local_available(avail), 2), k)
        } by {
            assert(buf@[200 + k] == b4[200 + k]);
            assert(buf@[204 + k] == b4[204 + k]);
            assert(buf@[208 + k] == b4[208 + k]);
        }
        assert forall|j: int| 0 <= j < buf@.len() && !(196 <= j < 236) implies #[trigger] buf@[j] == old(buf)@[j] by {
            assert(buf@[j] == b4[j]);
        }
    }
}

} // verus!

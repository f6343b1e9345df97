use empire_core::game::unit_event_payload;
use empire_core::systems::battle_victory::{
    all_points_winner, battle_end_payload, elimination_winner, holds_majority, tally_assets, VictoryReason,
};
use empire_core::systems::capture::{capture_point_count, presence, tally_presence, CapturePointCounts, Presence};
use empire_core::systems::reinforcement::{PendingReinforcements, ReinforcementRequest, REINFORCEMENT_COOLDOWN_TICKS};
use empire_core::types::SpriteId;

fn counts(owners: &[u8]) -> CapturePointCounts {
    let mut c = CapturePointCounts::new();
    c.update_from_owners(owners);
    c
}

#[test]
fn all_points_condition() {
    assert_eq!(all_points_winner(&counts(&[1, 1, 1]), 2), Some(1));
    assert_eq!(all_points_winner(&counts(&[1, 0, 1]), 2), None);
    assert_eq!(all_points_winner(&counts(&[]), 2), None);
    // A player beyond the player count does not win.
    assert_eq!(all_points_winner(&counts(&[3, 3]), 2), None);
}

#[test]
fn majority_condition() {
    let c = counts(&[0, 0, 1]);
    assert!(holds_majority(&c, 0));
    assert!(!holds_majority(&c, 1));
    // 2 of 4 is no strict majority.
    let c = counts(&[0, 0, 1, 255]);
    assert!(!holds_majority(&c, 0));
    assert!(!holds_majority(&counts(&[]), 0));
}

#[test]
fn elimination_condition() {
    let c = counts(&[255, 255]);
    let units = tally_assets(&[
        (SpriteId::Thrall, 0, true),
        (SpriteId::Thrall, 1, false),
        (SpriteId::Forge, 1, false),
        (SpriteId::CapturePoint, 255, true),
    ]);
    assert_eq!(units.0[0], 1);
    assert_eq!(units.0[1], 0);
    assert_eq!(units.1[1], 0);
    assert_eq!(elimination_winner(&units.0, &units.1, &c, 2), Some(0));
    // A capture point keeps player 1 in the game.
    let c = counts(&[1]);
    assert_eq!(elimination_winner(&units.0, &units.1, &c, 2), None);
    // Nobody left: no winner.
    let none = [0u32; 8];
    assert_eq!(elimination_winner(&none, &none, &counts(&[]), 2), None);
}

#[test]
fn tally_counts_units_and_buildings() {
    let (units, buildings) = tally_assets(&[
        (SpriteId::Sentinel, 2, true),
        (SpriteId::HoverTank, 2, true),
        (SpriteId::CommandPost, 2, true),
        (SpriteId::Forge, 3, true),
        (SpriteId::Thrall, 9, true),
    ]);
    assert_eq!(units[2], 2);
    assert_eq!(buildings[2], 1);
    assert_eq!(buildings[3], 1);
    assert_eq!(units.iter().sum::<u32>(), 2);
}

#[test]
fn event_payloads() {
    let p = battle_end_payload(1, VictoryReason::TotalElimination);
    assert_eq!(p[0], 1);
    assert_eq!(p[1], 2);
    assert!(p[2..].iter().all(|b| *b == 0));
    let p = unit_event_payload(SpriteId::HoverTank, 3);
    assert_eq!(&p[0..2], &SpriteId::HoverTank.to_u16().to_le_bytes());
    assert_eq!(p[2], 3);
    assert!(p[3..].iter().all(|b| *b == 0));
}

fn request(player: u8, ticks: u32) -> ReinforcementRequest {
    ReinforcementRequest {
        player,
        unit_type: SpriteId::Thrall,
        count: 2,
        health_bits: 1.0f32.to_bits(),
        ticks_remaining: ticks,
    }
}

#[test]
fn reinforcements_arrive_in_order() {
    let mut pending = PendingReinforcements::new(2);
    pending.requests = vec![request(0, 1), request(1, 3), request(1, 0), request(0, 2)];
    let arrived = pending.take_arrived();
    assert_eq!(arrived.len(), 2);
    assert_eq!(arrived[0].player, 0);
    assert_eq!(arrived[1].player, 1);
    assert_eq!(arrived[1].ticks_remaining, 0);
    assert_eq!(pending.requests.len(), 2);
    assert_eq!(pending.requests[0].ticks_remaining, 2);
    assert_eq!(pending.requests[1].ticks_remaining, 1);
    let arrived = pending.take_arrived();
    assert_eq!(arrived.len(), 1);
    assert_eq!(arrived[0].player, 0);
}

#[test]
fn reinforcement_cooldowns() {
    let mut pending = PendingReinforcements::new(2);
    assert!(pending.can_request(0));
    pending.start_cooldown(0);
    assert!(!pending.can_request(0));
    assert!(pending.can_request(1));
    assert_eq!(pending.cooldowns[0], REINFORCEMENT_COOLDOWN_TICKS);
    for _ in 0..REINFORCEMENT_COOLDOWN_TICKS {
        pending.tick_cooldowns();
    }
    assert!(pending.can_request(0));
    pending.tick_cooldowns();
    assert_eq!(pending.cooldowns, vec![0, 0]);
    // Unknown players have no cooldown.
    pending.start_cooldown(9);
    assert!(pending.can_request(9));
}

#[test]
fn capture_presence_classification() {
    assert_eq!(presence(&tally_presence(&[])), Presence::Nobody);
    assert_eq!(presence(&tally_presence(&[1, 1, 9])), Presence::Single { player: 1, count: 2 });
    assert_eq!(presence(&tally_presence(&[0, 1])), Presence::Contested);
    // Owners beyond the eight player slots are not counted.
    assert_eq!(presence(&tally_presence(&[255, 8])), Presence::Nobody);
    let counts = tally_presence(&[3, 3, 3, 0]);
    assert_eq!(counts[3], 3);
    assert_eq!(counts[0], 1);
}

#[test]
fn capture_point_counts_are_odd_and_bounded() {
    assert_eq!(capture_point_count(0), 3);
    assert_eq!(capture_point_count(3), 3);
    assert_eq!(capture_point_count(4), 5);
    assert_eq!(capture_point_count(5), 5);
    assert_eq!(capture_point_count(6), 5);
    assert_eq!(capture_point_count(9), 5);
    assert_eq!(capture_point_count(255), 5);
}

#[test]
fn panel_shows_first_three_requests_of_the_player() {
    let mut pending = PendingReinforcements::new(2);
    pending.requests.push(request(1, 9));
    pending.requests.push(request(0, 5));
    pending.requests.push(request(0, 6));
    pending.requests.push(request(1, 8));
    pending.requests.push(request(0, 7));
    pending.requests.push(request(0, 4));
    let shown = pending.panel_requests(0);
    let ticks: Vec<u32> = shown.iter().map(|r| r.2).collect();
    assert_eq!(ticks, vec![5, 6, 7]);
    assert_eq!(pending.panel_requests(1).len(), 2);
}

use empire_core::components::UnitType;
use empire_core::deployment::{all_confirmed, confirm_deployment, is_confirmed};
use empire_core::ecs::entity::Entity;
use empire_core::game::{read_event_entries, write_event_entry, EVENT_ENTRY_SIZE, MAX_EVENTS};
use empire_core::systems::fog::{FogGrid, FOG_VISIBLE};
use empire_core::systems::production::write_production_panel;
use empire_core::systems::reinforcement::{write_reinforcement_panel, ReinforcementAvailability};
use empire_core::systems::render_buffer::{render_visible, write_render_entries, RenderEntry};
use empire_core::systems::resource::{write_economy_panel, UIStateBuffer};
use empire_core::targeting::{unit_is_alive, unit_is_attackable, unit_is_hostile_target};
use empire_core::types::{EventType, SpriteId};

#[test]
fn event_entry_layout() {
    let mut buf = vec![0xAAu8; MAX_EVENTS * EVENT_ENTRY_SIZE];
    let payload = [7u8; 16];
    let n = write_event_entry(&mut buf, 0, EventType::Death, 0x0102_0304, 1.5f32.to_bits(), 2.0f32.to_bits(), &payload);
    assert_eq!(n, 1);
    assert_eq!(&buf[0..2], &1u16.to_le_bytes());
    assert_eq!(&buf[2..4], &[0, 0]);
    assert_eq!(&buf[4..8], &0x0102_0304u32.to_le_bytes());
    assert_eq!(&buf[8..12], &1.5f32.to_le_bytes());
    assert_eq!(&buf[12..16], &2.0f32.to_le_bytes());
    assert_eq!(&buf[16..32], &payload);
    assert_eq!(buf[32], 0xAA);
    let n = write_event_entry(&mut buf, n, EventType::BattleEnd, 9, 0, 0, &[0u8; 16]);
    assert_eq!(n, 2);
    assert_eq!(&buf[32..34], &7u16.to_le_bytes());
}

#[test]
fn event_entry_dropped_when_full() {
    let mut buf = vec![0u8; MAX_EVENTS * EVENT_ENTRY_SIZE];
    let before = buf.clone();
    let n = write_event_entry(&mut buf, MAX_EVENTS as u32, EventType::Shot, 1, 0, 0, &[1u8; 16]);
    assert_eq!(n, MAX_EVENTS as u32);
    assert_eq!(buf, before);
    let mut short = vec![0u8; 40];
    let n = write_event_entry(&mut short, 1, EventType::Shot, 1, 0, 0, &[1u8; 16]);
    assert_eq!(n, 1);
    assert_eq!(short, vec![0u8; 40]);
}

fn entry(id: u32) -> RenderEntry {
    RenderEntry {
        entity_id: id,
        x_bits: 5.5f32.to_bits(),
        y_bits: 6.5f32.to_bits(),
        sprite_id: SpriteId::Thrall.to_u16(),
        frame: 3,
        health_pct: 80,
        facing: 2,
        owner: 1,
        flags: 0b101,
        scale_bits: 1.0f32.to_bits(),
        z_bits: 12.0f32.to_bits(),
    }
}

#[test]
fn render_entries_layout() {
    let mut buf = vec![0xFFu8; 100];
    let count = write_render_entries(&mut buf, &[entry(4), entry(9), entry(11), entry(12)]);
    // Room for three 32-byte entries.
    assert_eq!(count, 3);
    assert_eq!(&buf[0..4], &4u32.to_le_bytes());
    assert_eq!(&buf[4..8], &5.5f32.to_le_bytes());
    assert_eq!(&buf[8..12], &6.5f32.to_le_bytes());
    assert_eq!(&buf[12..14], &SpriteId::Thrall.to_u16().to_le_bytes());
    assert_eq!(&buf[14..16], &3u16.to_le_bytes());
    assert_eq!(buf[16], 80);
    assert_eq!(buf[17], 2);
    assert_eq!(buf[18], 1);
    assert_eq!(buf[19], 0b101);
    assert_eq!(&buf[20..24], &1.0f32.to_le_bytes());
    assert_eq!(&buf[24..28], &12.0f32.to_le_bytes());
    assert_eq!(&buf[28..32], &[0, 0, 0, 0]);
    assert_eq!(&buf[32..36], &9u32.to_le_bytes());
    assert_eq!(&buf[64..68], &11u32.to_le_bytes());
    assert_eq!(&buf[96..100], &[0xFF; 4]);
    let mut buf = vec![0u8; 64];
    assert_eq!(write_render_entries(&mut buf, &[]), 0);
    assert_eq!(buf, vec![0u8; 64]);
}

#[test]
fn fog_hides_enemies_only() {
    let mut fog = FogGrid::new(4, 4, 2);
    // Own units are always shown.
    assert!(render_visible(0, 0, Some(&fog), 1, 1));
    // Enemies on unexplored tiles are hidden.
    assert!(!render_visible(1, 0, Some(&fog), 1, 1));
    fog.set(0, 1, 1, FOG_VISIBLE);
    assert!(render_visible(1, 0, Some(&fog), 1, 1));
    // Without a fog grid everything is shown.
    assert!(render_visible(1, 0, None, 3, 3));
}

#[test]
fn production_panel_layout() {
    let mut ui = UIStateBuffer::new().0;
    ui[70] = 9;
    ui[200] = 5;
    let lines = vec![Some((1u16, 2.5f32.to_bits(), 10.0f32.to_bits())), None, Some((3u16, 0, 8.0f32.to_bits()))];
    write_production_panel(&mut ui, &lines);
    assert_eq!(&ui[68..70], &1u16.to_le_bytes());
    assert_eq!(&ui[70..74], &2.5f32.to_le_bytes());
    assert_eq!(&ui[74..78], &10.0f32.to_le_bytes());
    assert!(ui[78..84].iter().all(|b| *b == 0));
    assert!(ui[84..100].iter().all(|b| *b == 0));
    assert_eq!(&ui[100..102], &3u16.to_le_bytes());
    assert!(ui[116..196].iter().all(|b| *b == 0));
    assert_eq!(ui[200], 5);
}

#[test]
fn economy_panel_layout() {
    let mut ui = UIStateBuffer::new().0;
    ui[24] = 3;
    write_economy_panel(&mut ui, 500.0f32.to_bits(), 5.0f32.to_bits(), 1.25f32.to_bits(), 0, 0.05f32.to_bits(), 77);
    assert_eq!(&ui[0..4], &500.0f32.to_le_bytes());
    assert_eq!(&ui[4..8], &5.0f32.to_le_bytes());
    assert_eq!(&ui[8..12], &1.25f32.to_le_bytes());
    assert_eq!(&ui[12..16], &[0, 0, 0, 0]);
    assert_eq!(&ui[16..20], &0.05f32.to_le_bytes());
    assert_eq!(&ui[20..24], &77u32.to_le_bytes());
    assert_eq!(ui[24], 3);
}

#[test]
fn reinforcement_panel_layout() {
    let mut avail = ReinforcementAvailability::new(2);
    avail.cp_alive[0] = true;
    avail.available[0] = vec![(1, 4), (0, 12), (1, 99)];
    let mut ui = UIStateBuffer::new().0;
    ui[240] = 6;
    let requests = [(0u16, 3u32, 40u32), (2, 1, 10), (1, 2, 5), (0, 9, 9)];
    write_reinforcement_panel(&mut ui, Some(&avail), 300, &requests);
    assert_eq!(ui[196], 1);
    assert_eq!(ui[197], 255);
    assert_eq!(ui[198], 3);
    assert_eq!(ui[199], 0);
    assert_eq!(&ui[200..204], &12u32.to_le_bytes());
    assert_eq!(&ui[204..208], &4u32.to_le_bytes());
    assert_eq!(&ui[208..212], &0u32.to_le_bytes());
    assert_eq!(&ui[212..214], &0u16.to_le_bytes());
    assert_eq!(&ui[214..216], &3u16.to_le_bytes());
    assert_eq!(&ui[216..220], &40u32.to_le_bytes());
    assert_eq!(&ui[228..230], &1u16.to_le_bytes());
    assert_eq!(ui[240], 6);
    let mut ui = UIStateBuffer::new().0;
    write_reinforcement_panel(&mut ui, None, 7, &[]);
    assert_eq!(ui[196], 0);
    assert_eq!(ui[197], 7);
    assert!(ui[198..236].iter().all(|b| *b == 0));
}

#[test]
fn neutral_capture_points_are_not_attackable() {
    let capture_point = UnitType { kind: SpriteId::CapturePoint, owner: 255 };
    assert!(!unit_is_attackable(true, Some(false), Some(capture_point)));
    assert!(!unit_is_hostile_target(true, Some(false), Some(capture_point), 0));
}

#[test]
fn dead_entities_are_not_attackable() {
    let enemy = UnitType { kind: SpriteId::Thrall, owner: 1 };
    // Health at 0 is dead.
    assert!(!unit_is_alive(true, Some(true)));
    assert!(!unit_is_attackable(true, Some(true), Some(enemy)));
    assert!(!unit_is_hostile_target(true, Some(true), Some(enemy), 0));
}

#[test]
fn hostility_by_owner() {
    let enemy = UnitType { kind: SpriteId::Thrall, owner: 1 };
    assert!(unit_is_hostile_target(true, Some(false), Some(enemy), 0));
    assert!(!unit_is_hostile_target(true, Some(false), Some(enemy), 1));
    // No health component: alive, but not attackable.
    assert!(unit_is_alive(true, None));
    assert!(!unit_is_attackable(true, None, Some(enemy)));
    assert!(!unit_is_alive(false, Some(false)));
    assert!(!unit_is_attackable(true, Some(false), None));
}

#[test]
fn test_confirm_all_starts_battle() {
    let posts = vec![Some(Entity::new(1, 0)), Some(Entity::new(2, 0))];
    let mut confirmed = vec![false, false];
    assert_eq!(confirm_deployment(&mut confirmed, &posts, 0), Some(false));
    assert!(is_confirmed(&confirmed, 0));
    assert!(!all_confirmed(&confirmed));
    assert_eq!(confirm_deployment(&mut confirmed, &posts, 1), Some(true));
    assert!(all_confirmed(&confirmed));
}

#[test]
fn test_cannot_confirm_without_deploy() {
    let posts = vec![None, Some(Entity::new(2, 0))];
    let mut confirmed = vec![false, false];
    assert_eq!(confirm_deployment(&mut confirmed, &posts, 0), None);
    assert!(!is_confirmed(&confirmed, 0));
    assert_eq!(confirm_deployment(&mut confirmed, &posts, 7), None);
    assert!(!is_confirmed(&confirmed, 7));
}

#[test]
fn events_read_back_as_written() {
    let mut buf = vec![0u8; MAX_EVENTS * EVENT_ENTRY_SIZE];
    let mut payload = [0u8; 16];
    payload[0] = 4;
    payload[15] = 9;
    let n = write_event_entry(&mut buf, 0, EventType::CaptureComplete, 77, 3.25f32.to_bits(), (-1.5f32).to_bits(), &payload);
    let n = write_event_entry(&mut buf, n, EventType::Shot, 0xDEAD_BEEF, 0, 1, &[2u8; 16]);
    let events = read_event_entries(&buf, n);
    assert_eq!(events.len(), 2);
    assert_eq!(events[0].event_type, 6);
    assert_eq!(events[0].entity_id, 77);
    assert_eq!(f32::from_bits(events[0].x_bits), 3.25);
    assert_eq!(f32::from_bits(events[0].y_bits), -1.5);
    assert_eq!(events[0].payload, payload);
    assert_eq!(events[1].event_type, 0);
    assert_eq!(events[1].entity_id, 0xDEAD_BEEF);
    assert_eq!(events[1].payload, [2u8; 16]);
    // A count past the buffer's end reads only what is there.
    assert_eq!(read_event_entries(&buf[..40], 5).len(), 1);
}

use empire_core::protocol::MatchConfig;
use empire_core::replay::{ReplayRecorder, REPLAY_VERSION};

#[derive(Clone, Debug, PartialEq)]
enum Cmd {
    Move { unit_ids: Vec<u32>, target_x: f32, target_y: f32 },
    Produce { player: u8, unit_type: u16 },
}

fn test_config() -> MatchConfig {
    MatchConfig { map_width: 64, map_height: 64, player_count: 2, seed: 42, tick_rate_ms: 50 }
}

#[test]
fn test_replay_recorder_basic() {
    let config = test_config();
    let mut recorder = ReplayRecorder::new(config, 2);
    recorder.record_command(0, Cmd::Move { unit_ids: vec![1], target_x: 10.0, target_y: 10.0 });
    recorder.record_tick();
    recorder.record_tick();
    recorder.record_command(1, Cmd::Produce { player: 1, unit_type: 0 });
    recorder.record_tick();
    assert_eq!(recorder.current_tick(), 3);
    assert_eq!(recorder.frame_count(), 3);
    let data = recorder.finalize();
    assert_eq!(data.total_ticks, 3);
    assert_eq!(data.frames.len(), 3);
    assert_eq!(data.frames[0].commands.len(), 1);
    assert_eq!(data.frames[1].commands.len(), 0);
    assert_eq!(data.frames[2].commands.len(), 1);
}

#[test]
fn recorder_keeps_order_and_numbers_frames() {
    let mut recorder = ReplayRecorder::new(test_config(), 3);
    recorder.record_command(2, Cmd::Produce { player: 2, unit_type: 1 });
    recorder.record_command(0, Cmd::Produce { player: 0, unit_type: 2 });
    recorder.record_tick();
    recorder.record_tick();
    let data = recorder.finalize();
    assert_eq!(data.version, REPLAY_VERSION);
    assert_eq!(data.player_count, 3);
    assert_eq!(data.config.seed, 42);
    assert_eq!(data.frames[0].tick, 0);
    assert_eq!(data.frames[1].tick, 1);
    assert_eq!(
        data.frames[0].commands,
        vec![(2, Cmd::Produce { player: 2, unit_type: 1 }), (0, Cmd::Produce { player: 0, unit_type: 2 })]
    );
}

#[test]
fn empty_recording() {
    let recorder: ReplayRecorder<Cmd> = ReplayRecorder::new(test_config(), 2);
    assert_eq!(recorder.current_tick(), 0);
    assert_eq!(recorder.frame_count(), 0);
    let data = recorder.finalize();
    assert_eq!(data.total_ticks, 0);
    assert!(data.frames.is_empty());
}

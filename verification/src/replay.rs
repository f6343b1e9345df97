//! Recording of the commands of a match, tick by tick, for deterministic
//! playback. Commands are kept as they were issued, whatever their type.

use vstd::prelude::*;
use crate::protocol::MatchConfig;

verus! {

/// A single frame in a replay, recording all commands issued at a given tick.
#[derive(Clone, Debug)]
pub struct ReplayFrame<C> {
    /// The tick number this frame was recorded at.
    pub tick: u32,
    /// All commands issued by all players during this tick.
    pub commands: Vec<(u8, C)>,
}

/// A complete replay recording: config + seed + command frames.
#[derive(Clone, Debug)]
pub struct ReplayData<C> {
    /// Match configuration used for this replay.
    pub config: MatchConfig,
    /// Player count at game start.
    pub player_count: u32,
    /// Recorded frames, one per tick.
    pub frames: Vec<ReplayFrame<C>>,
    /// Total number of ticks in the replay.
    pub total_ticks: u32,
    /// Version tag for replay format compatibility.
    pub version: u32,
}

/// Version of the replay format written by `ReplayRecorder::finalize`.
pub const REPLAY_VERSION: u32 = 1;

/// Records replay data during a live match.
pub struct ReplayRecorder<C> {
    config: MatchConfig,
    player_count: u32,
    frames: Vec<ReplayFrame<C>>,
    current_tick: u32,
    current_commands: Vec<(u8, C)>,
}

/// The frames of a replay as (tick, commands) pairs.
pub open spec fn frames_view<C>(frames: Seq<ReplayFrame<C>>) -> Seq<(u32, Seq<(u8, C)>)> {
    frames.map_values(|f: ReplayFrame<C>| (f.tick, f.commands@))
}

impl<C> ReplayRecorder<C> {
    /// Frames recorded so far, oldest first.
    pub closed spec fn frames(&self) -> Seq<(u32, Seq<(u8, C)>)> {
        frames_view(self.frames@)
    }

    /// Commands issued during the tick being recorded, in order.
    pub closed spec fn pending(&self) -> Seq<(u8, C)> {
        self.current_commands@
    }

    /// The tick being recorded.
    pub closed spec fn tick(&self) -> u32 {
        self.current_tick
    }

    pub closed spec fn config(&self) -> MatchConfig {
        self.config
    }

    pub closed spec fn players(&self) -> u32 {
        self.player_count
    }

    /// One frame per finished tick, numbered from 0.
    pub closed spec fn wf(&self) -> bool {
        &&& self.frames@.len() == self.current_tick
        &&& forall|i: int| 0 <= i < self.frames@.len() ==> (#[trigger] self.frames@[i]).tick == i
    }

    /// Create a new replay recorder for a match.
    pub fn new(config: MatchConfig, player_count: u32) -> (r: Self)
        ensures
            r.wf(),
            r.frames() == Seq::<(u32, Seq<(u8, C)>)>::empty(),
            r.pending() == Seq::<(u8, C)>::empty(),
            r.tick() == 0,
            r.config() == config,
            r.players() == player_count,
    {
        let r = ReplayRecorder {
            config,
            player_count,
            frames: Vec::new(),
            current_tick: 0,
            current_commands: Vec::new(),
        };
        assert(frames_view(r.frames@) =~= Seq::<(u32, Seq<(u8, C)>)>::empty());
        r
    }

    /// Record a command issued by a player during the current tick.
    pub fn record_command(&mut self, player_id: u8, cmd: C)
        requires
            old(self).wf(),
        ensures
            final(self).wf(),
            final(self).pending() == old(self).pending().push((player_id, cmd)),
            final(self).frames() == old(self).frames(),
            final(self).tick() == old(self).tick(),
            final(self).config() == old(self).config(),
            final(self).players() == old(self).players(),
    {
        self.current_commands.push((player_id, cmd));
    }

    /// Finalize the current tick and advance to the next one: the commands
    /// accumulated during it become its frame, even when there are none.
    pub fn record_tick(&mut self)
        requires
            old(self).wf(),
            old(self).tick() < u32::MAX,
        ensures
            final(self).wf(),
            final(self).frames() == old(self).frames().push((old(self).tick(), old(self).pending())),
            final(self).pending() == Seq::<(u8, C)>::empty(),
            final(self).tick() == old(self).tick() + 1,
            final(self).config() == old(self).config(),
            final(self).players() == old(self).players(),
    {
        let mut commands: Vec<(u8, C)> = Vec::new();
        std::mem::swap(&mut commands, &mut self.current_commands);
        let ghost before = self.frames@;
        self.frames.push(ReplayFrame { tick: self.current_tick, commands });
        self.current_tick = self.current_tick + 1;
        assert(frames_view(self.frames@) =~= frames_view(before).push((old(self).current_tick, old(self).current_commands@)));
    }

    /// Get the current tick number.
    pub fn current_tick(&self) -> (t: u32)
        ensures
            t == self.tick(),
    {
        self.current_tick
    }

    /// Get the number of recorded frames.
    pub fn frame_count(&self) -> (n: usize)
        ensures
            n == self.frames().len(),
    {
        self.frames.len()
    }

    /// Finalize the recording and produce a ReplayData.
    pub fn finalize(self) -> (d: ReplayData<C>)
        requires
            self.wf(),
        ensures
            frames_view(d.frames@) == self.frames(),
            d.total_ticks == self.tick(),
            d.version == REPLAY_VERSION,
            d.config == self.config(),
            d.player_count == self.players(),
    {
        ReplayData {
            config: self.config,
            player_count: self.player_count,
            frames: self.frames,
            total_ticks: self.current_tick,
            version: REPLAY_VERSION,
        }
    }
}

/// A recording holds exactly one frame per tick, the `i`-th for tick `i`.
pub proof fn law_one_frame_per_tick<C>(r: ReplayRecorder<C>)
    requires
        r.wf(),
    ensures
        r.frames().len() == r.tick(),
        forall|i: int| 0 <= i < r.frames().len() ==> (#[trigger] r.frames()[i]).0 == i,
{
}

} // verus!

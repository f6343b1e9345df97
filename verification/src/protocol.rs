use vstd::prelude::*;

verus! {

/// Unique match identifier.
#[derive(Clone, Debug, PartialEq, Eq, Hash)]
pub struct MatchId(pub String);

/// Unique player identifier within a match.
#[derive(Clone, Copy, Debug, PartialEq, Eq, Hash, Structural)]
pub struct PlayerId(pub u8);

/// Player info sent in lobby messages.
#[derive(Clone, Debug)]
pub struct PlayerInfo {
    pub id: PlayerId,
    pub name: String,
    pub is_ai: bool,
    pub is_ready: bool,
}

/// Match configuration sent when creating a lobby.
#[derive(Clone, Debug)]
pub struct MatchConfig {
    pub map_width: u32,
    pub map_height: u32,
    pub player_count: u32,
    pub seed: u32,
    pub tick_rate_ms: u32,
}

impl Default for MatchConfig {
    /// A 64x64 map for two players, seed 42, one tick every 50 ms.
    fn default() -> (c: Self)
        ensures
            c.map_width == 64,
            c.map_height == 64,
            c.player_count == 2,
            c.seed == 42,
            c.tick_rate_ms == 50,
    {
        MatchConfig { map_width: 64, map_height: 64, player_count: 2, seed: 42, tick_rate_ms: 50 }
    }
}

} // verus!

use vstd::prelude::*;

verus! {

/// 8-directional facing. The variant order gives the render buffer `facing`
/// byte and the atlas direction order: S, SW, W, NW, N, NE, E, SE.
#[derive(Clone, Copy, Debug, PartialEq, Eq, Hash, Structural)]
pub enum Direction {
    S,
    SW,
    W,
    NW,
    N,
    NE,
    E,
    SE,
}

/// Atlas label of a facing.
pub open spec fn direction_label(d: Direction) -> &'static str {
    match d {
        Direction::S => "S",
        Direction::SW => "SW",
        Direction::W => "W",
        Direction::NW => "NW",
        Direction::N => "N",
        Direction::NE => "NE",
        Direction::E => "E",
        Direction::SE => "SE",
    }
}

/// The facing byte written to the render buffer.
pub open spec fn direction_code(d: Direction) -> u8 {
    match d {
        Direction::S => 0,
        Direction::SW => 1,
        Direction::W => 2,
        Direction::NW => 3,
        Direction::N => 4,
        Direction::NE => 5,
        Direction::E => 6,
        Direction::SE => 7,
    }
}

impl Direction {
    pub fn name(self) -> (s: &'static str)
        ensures
            s == direction_label(self),
    {
        match self {
            Direction::S => "S",
            Direction::SW => "SW",
            Direction::W => "W",
            Direction::NW => "NW",
            Direction::N => "N",
            Direction::NE => "NE",
            Direction::E => "E",
            Direction::SE => "SE",
        }
    }

    /// The facing byte written to the render buffer.
    pub fn code(self) -> (c: u8)
        ensures
            c == direction_code(self),
            c < 8,
    {
        match self {
            Direction::S => 0,
            Direction::SW => 1,
            Direction::W => 2,
            Direction::NW => 3,
            Direction::N => 4,
            Direction::NE => 5,
            Direction::E => 6,
            Direction::SE => 7,
        }
    }
}

/// Sprite type identifier. Maps to sprite atlases; the variant order gives
/// the numeric id used on the wire and in the render buffer.
#[derive(Clone, Copy, Debug, PartialEq, Eq, Hash, Structural)]
pub enum SpriteId {
    Thrall,
    Sentinel,
    HoverTank,
    CommandPost,
    Forge,
    CapturePoint,
}

/// Numeric id of a sprite type.
pub open spec fn sprite_code(s: SpriteId) -> u16 {
    match s {
        SpriteId::Thrall => 0,
        SpriteId::Sentinel => 1,
        SpriteId::HoverTank => 2,
        SpriteId::CommandPost => 3,
        SpriteId::Forge => 4,
        SpriteId::CapturePoint => 5,
    }
}

impl SpriteId {
    /// The campaign's name for the Forge: the player's home building.
    #[allow(non_upper_case_globals)]
    pub const Node: SpriteId = SpriteId::Forge;

    pub fn from_u16(v: u16) -> (r: Option<SpriteId>)
        ensures
            match r {
                Some(s) => sprite_code(s) == v,
                None => v > 5,
            },
    {
        match v {
            0 => Some(SpriteId::Thrall),
            1 => Some(SpriteId::Sentinel),
            2 => Some(SpriteId::HoverTank),
            3 => Some(SpriteId::CommandPost),
            4 => Some(SpriteId::Forge),
            5 => Some(SpriteId::CapturePoint),
            _ => None,
        }
    }

    /// Numeric id of this sprite type.
    pub fn to_u16(self) -> (v: u16)
        ensures
            v == sprite_code(self),
    {
        match self {
            SpriteId::Thrall => 0,
            SpriteId::Sentinel => 1,
            SpriteId::HoverTank => 2,
            SpriteId::CommandPost => 3,
            SpriteId::Forge => 4,
            SpriteId::CapturePoint => 5,
        }
    }

    /// Little-endian bytes of the numeric id.
    pub fn to_le_bytes(self) -> (b: [u8; 2])
        ensures
            b@ == seq![sprite_code(self) as u8, 0u8],
    {
        let v = self.to_u16();
        [v as u8, 0u8]
    }
}

/// Every numeric id names at most one sprite type, and decoding the id of a
/// sprite type gives that sprite type back.
pub proof fn law_sprite_code_roundtrip(s: SpriteId, t: SpriteId)
    ensures
        sprite_code(s) <= 5,
        sprite_code(s) == sprite_code(t) ==> s == t,
{
}

/// Animation state. Determines which animation set to play.
#[derive(Clone, Copy, Debug, PartialEq, Eq, Hash, Structural)]
pub enum AnimState {
    Idle,
    Move,
    Attack,
    Death,
}

/// Numeric code of an animation state (packed into render flags bits 2-3).
pub open spec fn anim_code(a: AnimState) -> u8 {
    match a {
        AnimState::Idle => 0,
        AnimState::Move => 1,
        AnimState::Attack => 2,
        AnimState::Death => 3,
    }
}

/// Whether an animation loops: only idling and moving do.
pub open spec fn anim_loops(a: AnimState) -> bool {
    a is Idle || a is Move
}

/// Atlas label of an animation state.
pub open spec fn anim_label(a: AnimState) -> &'static str {
    match a {
        AnimState::Idle => "Idle",
        AnimState::Move => "Move",
        AnimState::Attack => "Shoot",
        AnimState::Death => "Death",
    }
}

impl AnimState {
    /// Whether this animation loops.
    pub fn loops(self) -> (b: bool)
        ensures
            b == anim_loops(self),
    {
        match self {
            AnimState::Idle | AnimState::Move => true,
            AnimState::Attack | AnimState::Death => false,
        }
    }

    pub fn name(self) -> (s: &'static str)
        ensures
            s == anim_label(self),
    {
        match self {
            AnimState::Idle => "Idle",
            AnimState::Move => "Move",
            AnimState::Attack => "Shoot",
            AnimState::Death => "Death",
        }
    }

    /// Numeric code of this animation state.
    pub fn code(self) -> (c: u8)
        ensures
            c == anim_code(self),
            c < 4,
    {
        match self {
            AnimState::Idle => 0,
            AnimState::Move => 1,
            AnimState::Attack => 2,
            AnimState::Death => 3,
        }
    }
}

/// Frames per direction for a sprite and animation, as laid out in the sprite atlas.
pub open spec fn frame_count(sprite_id: SpriteId, anim_state: AnimState) -> u16 {
    match (sprite_id, anim_state) {
        (SpriteId::Thrall, AnimState::Idle) => 4,
        (SpriteId::Thrall, AnimState::Move) => 6,
        (SpriteId::Thrall, AnimState::Attack) => 4,
        (SpriteId::Thrall, AnimState::Death) => 6,
        (SpriteId::Sentinel, AnimState::Idle) => 4,
        (SpriteId::Sentinel, AnimState::Move) => 8,
        (SpriteId::Sentinel, AnimState::Attack) => 6,
        (SpriteId::Sentinel, AnimState::Death) => 7,
        // Hover Tank, Command Post, Forge, CapturePoint: static (1 frame per direction)
        _ => 1,
    }
}

/// Returns the number of animation frames per direction for a given sprite + animation.
pub fn get_frame_count(sprite_id: SpriteId, anim_state: AnimState) -> (n: u16)
    ensures
        n == frame_count(sprite_id, anim_state),
        n >= 1,
{
    match (sprite_id, anim_state) {
        (SpriteId::Thrall, AnimState::Idle) => 4,
        (SpriteId::Thrall, AnimState::Move) => 6,
        (SpriteId::Thrall, AnimState::Attack) => 4,
        (SpriteId::Thrall, AnimState::Death) => 6,
        (SpriteId::Sentinel, AnimState::Idle) => 4,
        (SpriteId::Sentinel, AnimState::Move) => 8,
        (SpriteId::Sentinel, AnimState::Attack) => 6,
        (SpriteId::Sentinel, AnimState::Death) => 7,
        (SpriteId::HoverTank, _) => 1,
        (SpriteId::CommandPost, _) => 1,
        (SpriteId::Forge, _) => 1,
        (SpriteId::CapturePoint, _) => 1,
    }
}

/// Event types written to the event buffer for client-side feedback.
/// The variant order gives the numeric event type.
#[derive(Clone, Copy, Debug, PartialEq, Eq, Structural)]
pub enum EventType {
    Shot,
    Death,
    UnitSpawned,
    BuildingPlaced,
    ProductionComplete,
    CaptureProgress,
    CaptureComplete,
    BattleEnd,
}

/// Numeric event type, as written to the event buffer.
pub open spec fn event_code(e: EventType) -> u16 {
    match e {
        EventType::Shot => 0,
        EventType::Death => 1,
        EventType::UnitSpawned => 2,
        EventType::BuildingPlaced => 3,
        EventType::ProductionComplete => 4,
        EventType::CaptureProgress => 5,
        EventType::CaptureComplete => 6,
        EventType::BattleEnd => 7,
    }
}

impl EventType {
    /// Numeric code of this event type.
    pub fn code(self) -> (c: u16)
        ensures
            c == event_code(self),
            c < 8,
    {
        match self {
            EventType::Shot => 0,
            EventType::Death => 1,
            EventType::UnitSpawned => 2,
            EventType::BuildingPlaced => 3,
            EventType::ProductionComplete => 4,
            EventType::CaptureProgress => 5,
            EventType::CaptureComplete => 6,
            EventType::BattleEnd => 7,
        }
    }
}

} // verus!

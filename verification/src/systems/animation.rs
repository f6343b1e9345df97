//! Frame stepping of sprite animations (the timing, in seconds, is kept by
//! the caller).

use vstd::prelude::*;
use crate::types::{AnimState, SpriteId, frame_count, anim_loops, get_frame_count, sprite_code};

verus! {

/// Sprite whose frames a render state's sprite code selects (the sprite's
/// own code); unknown codes animate as Thralls.
pub open spec fn animated_sprite(code: u16) -> SpriteId {
    if code == 1 {
        SpriteId::Sentinel
    } else if code == 2 {
        SpriteId::HoverTank
    } else if code == 3 {
        SpriteId::CommandPost
    } else if code == 4 {
        SpriteId::Forge
    } else if code == 5 {
        SpriteId::CapturePoint
    } else {
        SpriteId::Thrall
    }
}

/// The frame after `frame` once its time is up: looping animations wrap to
/// 0 after their last frame, the others stop on it.
pub open spec fn frame_after(sprite_code: u16, anim: AnimState, frame: u16) -> u16 {
    let max = frame_count(animated_sprite(sprite_code), anim);
    if anim_loops(anim) {
        ((frame + 1) % (max as int)) as u16
    } else if frame < max - 1 {
        (frame + 1) as u16
    } else {
        frame
    }
}

/// Next animation frame of a sprite.
pub fn advance_frame(sprite_code: u16, anim: AnimState, frame: u16) -> (f: u16)
    requires
        frame < u16::MAX,
    ensures
        f == frame_after(sprite_code, anim, frame),
        frame < frame_count(animated_sprite(sprite_code), anim) ==> f < frame_count(
            animated_sprite(sprite_code),
            anim,
        ),
{
    let sprite_id = match sprite_code {
        1 => SpriteId::Sentinel,
        2 => SpriteId::HoverTank,
        3 => SpriteId::CommandPost,
        4 => SpriteId::Forge,
        5 => SpriteId::CapturePoint,
        _ => SpriteId::Thrall,
    };
    let max_frames = get_frame_count(sprite_id, anim);
    if anim.loops() {
        (frame + 1) % max_frames
    } else if frame < max_frames - 1 {
        frame + 1
    } else {
        frame
    }
}

/// A frame inside its sprite's frame range stays inside it: looping animations
/// wrap, one-shot ones stop on their last frame, and single-frame sprites
/// (vehicles, buildings, capture points) stay on frame 0.
pub proof fn law_frames_stay_in_range(sprite_code: u16, anim: AnimState, frame: u16)
    requires
        frame < frame_count(animated_sprite(sprite_code), anim),
    ensures
        frame_after(sprite_code, anim, frame) < frame_count(animated_sprite(sprite_code), anim),
{
}

/// Every sprite animates with its own frame counts: the code a render state
/// carries for a sprite selects that sprite.
pub proof fn law_sprite_animates_as_itself(s: SpriteId)
    ensures
        animated_sprite(sprite_code(s)) == s,
{
}

} // verus!

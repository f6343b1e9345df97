use vstd::prelude::*;
use crate::types::SpriteId;

verus! {

/// Which production line a unit type uses at the Node.
#[derive(Clone, Copy, Debug, PartialEq, Eq, Structural)]
pub enum ProductionLine {
    Infantry,
    Armor,
}

/// Production line of each unit type; buildings have none.
pub open spec fn line_of(sprite_id: SpriteId) -> Option<ProductionLine> {
    match sprite_id {
        SpriteId::Thrall | SpriteId::Sentinel => Some(ProductionLine::Infantry),
        SpriteId::HoverTank => Some(ProductionLine::Armor),
        _ => None,
    }
}

/// Returns which production line the given unit type uses, or None for buildings.
pub fn production_line(sprite_id: SpriteId) -> (l: Option<ProductionLine>)
    ensures
        l == line_of(sprite_id),
{
    match sprite_id {
        SpriteId::Thrall | SpriteId::Sentinel => Some(ProductionLine::Infantry),
        SpriteId::HoverTank => Some(ProductionLine::Armor),
        SpriteId::CommandPost | SpriteId::Forge | SpriteId::CapturePoint => None,
    }
}

} // verus!

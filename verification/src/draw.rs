use vstd::prelude::*;

verus! {

/// The names of the sprites in the tile sheets.
#[derive(PartialEq, Eq, Structural, Hash, Debug, Clone, Copy)]
pub enum TileNames {
    Dirt1,
    Dirt2,
    Dirt3,
    Dirt4,
    Dirt0,
    Grass1,
    Grass2,
    Grass3,
    BrickWall1,
    BrickWall2,
    BrickWall3,
    NakedPlayer,
    NPC,
    Outline,
}

} // verus!

use vstd::prelude::*;

verus! {

/// The visual tag of a terrain or of an occupant. The map logic carries it
/// along and never looks inside.
#[derive(Eq, PartialEq, Structural, Hash, Debug, Clone, Copy)]
pub struct Face {}

/// A thing lying on a room tile.
#[derive(Debug)]
pub struct Entity {
    pos_x: usize,
    pos_y: usize,
    face: Face,
}

/// Someone standing on a room tile.
#[derive(Debug)]
pub struct Actor {
    pos_x: usize,
    pos_y: usize,
    face: Face,
}

} // verus!

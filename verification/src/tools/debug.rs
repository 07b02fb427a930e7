use crate::domain::map::{Room, RoomTile, StairsDirection, TerrainVariant};
use vstd::arithmetic::div_mod::{lemma_fundamental_div_mod, lemma_fundamental_div_mod_converse};
use vstd::prelude::*;

verus! {

/// How a tile shows in a text dump of a room: a staircase as a triangle that
/// points its way, a wall as `#`, and each ground terrain as a mark of its
/// own.
pub open spec fn face_of(tile: RoomTile) -> char {
    match tile.stairs {
        Some(StairsDirection::Up) => '\u{25B2}',
        Some(StairsDirection::Down) => '\u{25BC}',
        None => match tile.terrain {
            TerrainVariant::BrickWall1(_) => '#',
            TerrainVariant::BrickWall2(_) => '#',
            TerrainVariant::Dirt1(_) => '.',
            TerrainVariant::Dirt2(_) => ',',
            TerrainVariant::Grass1(_) => '\'',
            TerrainVariant::Grass2(_) => '"',
        },
    }
}

/// What follows a tile's face in the dump: after the last tile of a row, a
/// line break and a tab to indent the next row.
pub open spec fn row_break(index: int, width: int) -> Seq<char> {
    if index % width == width - 1 {
        seq!['\n', '\t']
    } else {
        Seq::empty()
    }
}

/// The text of the tiles: the faces in order, `width` to a line.
pub open spec fn tiles_text(tiles: Seq<RoomTile>, width: int) -> Seq<char>
    decreases tiles.len(),
{
    if tiles.len() == 0 {
        Seq::empty()
    } else {
        tiles_text(tiles.drop_last(), width).push(face_of(tiles.last())) + row_break(
            tiles.len() - 1,
            width,
        )
    }
}

/// The face of one tile.
pub fn tile_face(tile: &RoomTile) -> (face: char)
    ensures
        face == face_of(*tile),
{
    match tile.stairs {
        None => match tile.terrain {
            TerrainVariant::BrickWall1(_) => '#',
            TerrainVariant::BrickWall2(_) => '#',
            TerrainVariant::Dirt1(_) => '.',
            TerrainVariant::Dirt2(_) => ',',
            TerrainVariant::Grass1(_) => '\'',
            TerrainVariant::Grass2(_) => '"',
        },
        Some(StairsDirection::Up) => '\u{25B2}',
        Some(StairsDirection::Down) => '\u{25BC}',
    }
}

/// The text dump of a room's tiles, row by row. A room that has tiles must
/// have a width to break the rows by.
pub fn room_text(room: &Room) -> (text: Vec<char>)
    requires
        room.size.x > 0 || room.tiles@.len() == 0,
    ensures
        text@ == tiles_text(room.tiles@, room.size.x as int),
{
    let mut text: Vec<char> = Vec::new();
    let mut count_x: usize = 0;
    let mut i: usize = 0;
    let ghost width = room.size.x as int;
    assert(room.tiles@.take(0) =~= Seq::<RoomTile>::empty());
    while i < room.tiles.len()
        invariant
            i <= room.tiles.len(),
            width == room.size.x,
            room.size.x > 0 || room.tiles@.len() == 0,
            i < room.tiles.len() ==> count_x == i as int % width,
            count_x < room.size.x || room.tiles@.len() == 0,
            text@ == tiles_text(room.tiles@.take(i as int), width),
        decreases room.tiles.len() - i,
    {
        let face = tile_face(&room.tiles[i]);
        let ghost before = text@;
        proof {
            let next = room.tiles@.take(i + 1);
            assert(next.drop_last() =~= room.tiles@.take(i as int));
            assert(next.last() == room.tiles@[i as int]);
            lemma_fundamental_div_mod(i as int, width);
            let rows = i as int / width;
            assert((rows + 1) * width == width * rows + width && rows * width == width * rows)
                by (nonlinear_arith);
            if count_x as int == width - 1 {
                lemma_fundamental_div_mod_converse(i + 1, width, i as int / width + 1, 0);
            } else {
                lemma_fundamental_div_mod_converse(i + 1, width, i as int / width, count_x + 1);
            }
        }
        text.push(face);
        if count_x == room.size.x - 1 {
            text.push('\n');
            text.push('\t');
            count_x = 0;
            assert(text@ =~= before.push(face) + seq!['\n', '\t']);
        } else {
            count_x += 1;
            assert(text@ =~= before.push(face) + Seq::<char>::empty());
        }
        i += 1;
    }
    assert(room.tiles@.take(i as int) =~= room.tiles@);
    text
}

} // verus!

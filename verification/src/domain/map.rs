use crate::domain::entities::{Actor, Entity, Face};
use vstd::prelude::*;

verus! {

/// A width and a height, counted in tiles.
#[derive(Debug, Clone, Copy, PartialEq, Eq, Structural)]
pub struct UVec2D {
    pub x: usize,
    pub y: usize,
}

/// Which way a staircase leads: `Up` is a room's entrance, back to the room
/// before it, `Down` its exit, on to the next room.
#[derive(Debug, Clone, Copy, PartialEq, Eq, Structural)]
pub enum StairsDirection {
    Up,
    Down,
}

/// The six terrains of the catalog, by name.
#[derive(Eq, PartialEq, Structural, Hash, Debug, Clone, Copy)]
pub enum TerrainName {
    Dirt1,
    Dirt2,
    Grass1,
    Grass2,
    BrickWall1,
    BrickWall2,
}

/// What a terrain is like: whether one can walk over it, and how it looks.
#[derive(Eq, PartialEq, Structural, Hash, Debug, Clone, Copy)]
pub struct Terrain {
    pub traversable: bool,
    pub face: Face,
}

/// A terrain of the catalog together with its descriptor.
#[derive(Eq, PartialEq, Structural, Hash, Debug, Clone, Copy)]
pub enum TerrainVariant {
    Dirt1(Terrain),
    Dirt2(Terrain),
    Grass1(Terrain),
    Grass2(Terrain),
    BrickWall1(Terrain),
    BrickWall2(Terrain),
}

/// One cell of a room.
#[derive(Debug)]
pub struct RoomTile {
    pub stairs: Option<StairsDirection>,
    pub terrain: TerrainVariant,
    pub entities: Vec<Entity>,
    pub actors: Vec<Actor>,
}

/// A rectangular grid of tiles, stored row by row.
#[derive(Debug)]
pub struct Room {
    pub tiles: Vec<RoomTile>,
    pub size: UVec2D,
}

impl TerrainName {
    /// The two brick walls are walls; dirt and grass are ground.
    pub open spec fn spec_is_wall(self) -> bool {
        self is BrickWall1 || self is BrickWall2
    }

    #[verifier::when_used_as_spec(spec_is_wall)]
    pub fn is_wall(self) -> (wall: bool)
        ensures
            wall == self.spec_is_wall(),
    {
        match self {
            TerrainName::BrickWall1 | TerrainName::BrickWall2 => true,
            _ => false,
        }
    }
}

impl TerrainVariant {
    pub open spec fn spec_name(&self) -> TerrainName {
        match *self {
            TerrainVariant::Dirt1(_) => TerrainName::Dirt1,
            TerrainVariant::Dirt2(_) => TerrainName::Dirt2,
            TerrainVariant::Grass1(_) => TerrainName::Grass1,
            TerrainVariant::Grass2(_) => TerrainName::Grass2,
            TerrainVariant::BrickWall1(_) => TerrainName::BrickWall1,
            TerrainVariant::BrickWall2(_) => TerrainName::BrickWall2,
        }
    }

    pub open spec fn spec_terrain(&self) -> Terrain {
        match *self {
            TerrainVariant::Dirt1(t) => t,
            TerrainVariant::Dirt2(t) => t,
            TerrainVariant::Grass1(t) => t,
            TerrainVariant::Grass2(t) => t,
            TerrainVariant::BrickWall1(t) => t,
            TerrainVariant::BrickWall2(t) => t,
        }
    }

    /// A variant is a wall by its name, whatever its descriptor says.
    pub open spec fn spec_is_wall(&self) -> bool {
        self.spec_name().spec_is_wall()
    }

    /// The catalog's entry for a name: ground can be walked over, a wall
    /// cannot.
    pub open spec fn canonical(name: TerrainName) -> TerrainVariant {
        let terrain = Terrain { traversable: !name.spec_is_wall(), face: Face {  } };
        match name {
            TerrainName::Dirt1 => TerrainVariant::Dirt1(terrain),
            TerrainName::Dirt2 => TerrainVariant::Dirt2(terrain),
            TerrainName::Grass1 => TerrainVariant::Grass1(terrain),
            TerrainName::Grass2 => TerrainVariant::Grass2(terrain),
            TerrainName::BrickWall1 => TerrainVariant::BrickWall1(terrain),
            TerrainName::BrickWall2 => TerrainVariant::BrickWall2(terrain),
        }
    }

    /// Whether this value is the catalog's entry for its own name.
    pub open spec fn is_canonical(&self) -> bool {
        *self == Self::canonical(self.spec_name())
    }

    /// Looks a name up in the catalog.
    pub fn from_name(name: TerrainName) -> (variant: TerrainVariant)
        ensures
            variant == Self::canonical(name),
    {
        match name {
            TerrainName::Dirt1 => TerrainVariant::Dirt1(Terrain { traversable: true, face: Face {  } }),
            TerrainName::Dirt2 => TerrainVariant::Dirt2(Terrain { traversable: true, face: Face {  } }),
            TerrainName::Grass1 => TerrainVariant::Grass1(Terrain { traversable: true, face: Face {  } }),
            TerrainName::Grass2 => TerrainVariant::Grass2(Terrain { traversable: true, face: Face {  } }),
            TerrainName::BrickWall1 => TerrainVariant::BrickWall1(
                Terrain { traversable: false, face: Face {  } },
            ),
            TerrainName::BrickWall2 => TerrainVariant::BrickWall2(
                Terrain { traversable: false, face: Face {  } },
            ),
        }
    }

    #[verifier::when_used_as_spec(spec_name)]
    pub fn name(&self) -> (name: TerrainName)
        ensures
            name == self.spec_name(),
    {
        match self {
            TerrainVariant::Dirt1(_) => TerrainName::Dirt1,
            TerrainVariant::Dirt2(_) => TerrainName::Dirt2,
            TerrainVariant::Grass1(_) => TerrainName::Grass1,
            TerrainVariant::Grass2(_) => TerrainName::Grass2,
            TerrainVariant::BrickWall1(_) => TerrainName::BrickWall1,
            TerrainVariant::BrickWall2(_) => TerrainName::BrickWall2,
        }
    }

    #[verifier::when_used_as_spec(spec_terrain)]
    pub fn terrain(&self) -> (terrain: Terrain)
        ensures
            terrain == self.spec_terrain(),
    {
        match self {
            TerrainVariant::Dirt1(t) => *t,
            TerrainVariant::Dirt2(t) => *t,
            TerrainVariant::Grass1(t) => *t,
            TerrainVariant::Grass2(t) => *t,
            TerrainVariant::BrickWall1(t) => *t,
            TerrainVariant::BrickWall2(t) => *t,
        }
    }

    #[verifier::when_used_as_spec(spec_is_wall)]
    pub fn is_wall(&self) -> (wall: bool)
        ensures
            wall == self.spec_is_wall(),
    {
        match self {
            TerrainVariant::BrickWall1(_) | TerrainVariant::BrickWall2(_) => true,
            _ => false,
        }
    }
}

/// The place of cell `(x, y)` in a row-major grid of the given width.
pub open spec fn cell_index(width: int, x: int, y: int) -> int {
    y * width + x
}

/// The tile at cell `(x, y)` of a row-major grid of the given width.
pub open spec fn grid_tile(tiles: Seq<RoomTile>, width: int, x: int, y: int) -> RoomTile {
    tiles[cell_index(width, x, y)]
}

/// Whether cell `(x, y)` lies on the outermost ring of a grid of the given
/// size.
pub open spec fn on_border(size: UVec2D, x: int, y: int) -> bool {
    x == 0 || x == size.x - 1 || y == 0 || y == size.y - 1
}

/// A tile's terrain is an entry of the catalog, a wall exactly where
/// `border` says so.
pub open spec fn terrain_fits(tile: RoomTile, border: bool) -> bool {
    &&& tile.terrain.is_canonical()
    &&& tile.terrain.spec_is_wall() == border
}

/// 1 if the tile carries a staircase in the given direction, else 0.
pub open spec fn stairs_mark(tile: RoomTile, direction: StairsDirection) -> nat {
    if tile.stairs == Some(direction) {
        1
    } else {
        0
    }
}

/// How many of the tiles carry a staircase in the given direction.
pub open spec fn stairs_count(tiles: Seq<RoomTile>, direction: StairsDirection) -> nat
    decreases tiles.len(),
{
    if tiles.len() == 0 {
        0
    } else {
        stairs_count(tiles.drop_last(), direction) + stairs_mark(tiles.last(), direction)
    }
}

/// The tile with a staircase marked on it, all else kept.
pub open spec fn with_stairs(tile: RoomTile, direction: StairsDirection) -> RoomTile {
    RoomTile { stairs: Some(direction), ..tile }
}

/// The tiles after a staircase is marked on cell `cell`.
pub open spec fn marked(tiles: Seq<RoomTile>, cell: int, direction: StairsDirection) -> Seq<
    RoomTile,
> {
    tiles.update(cell, with_stairs(tiles[cell], direction))
}

impl RoomTile {
    /// A tile as the room generator leaves it: no staircase, nobody on it.
    pub open spec fn is_bare(&self) -> bool {
        &&& self.stairs is None
        &&& self.entities@.len() == 0
        &&& self.actors@.len() == 0
    }

    /// Where a staircase may go. An entrance may go on any tile that is not
    /// a wall. An exit may go on any tile that is not a wall and has no
    /// staircase yet.
    pub open spec fn spec_takes_stairs(&self, direction: StairsDirection) -> bool {
        match direction {
            StairsDirection::Up => !self.terrain.spec_is_wall(),
            StairsDirection::Down => !self.terrain.spec_is_wall() && self.stairs is None,
        }
    }

    #[verifier::when_used_as_spec(spec_takes_stairs)]
    pub fn takes_stairs(&self, direction: StairsDirection) -> (takes: bool)
        ensures
            takes == self.spec_takes_stairs(direction),
    {
        match direction {
            StairsDirection::Up => !self.terrain.is_wall(),
            StairsDirection::Down => !self.terrain.is_wall() && self.stairs.is_none(),
        }
    }
}

impl Room {
    pub open spec fn in_bounds(&self, x: int, y: int) -> bool {
        0 <= x < self.size.x && 0 <= y < self.size.y
    }

    /// The outermost ring of cells.
    pub open spec fn on_border(&self, x: int, y: int) -> bool {
        on_border(self.size, x, y)
    }

    pub open spec fn spec_tile_at(&self, x: int, y: int) -> RoomTile {
        grid_tile(self.tiles@, self.size.x as int, x, y)
    }

    /// The room's invariant: there is one tile per cell, every border cell is
    /// a wall and every other cell is ground, each with the catalog's
    /// descriptor.
    pub open spec fn well_formed(&self) -> bool {
        &&& self.tiles@.len() == self.size.x * self.size.y
        &&& forall|x: int, y: int|
            self.in_bounds(x, y) ==> terrain_fits(
                #[trigger] self.spec_tile_at(x, y),
                self.on_border(x, y),
            )
    }

    /// No tile has a staircase or an occupant.
    pub open spec fn is_bare(&self) -> bool {
        forall|i: int| 0 <= i < self.tiles@.len() ==> (#[trigger] self.tiles@[i]).is_bare()
    }

    /// Nobody and nothing stands on any tile.
    pub open spec fn is_unoccupied(&self) -> bool {
        forall|i: int|
            0 <= i < self.tiles@.len() ==> (#[trigger] self.tiles@[i]).entities@.len() == 0
                && self.tiles@[i].actors@.len() == 0
    }

    /// No staircase stands on a wall.
    pub open spec fn stairs_on_ground(&self) -> bool {
        forall|i: int|
            0 <= i < self.tiles@.len() && (#[trigger] self.tiles@[i]).stairs is Some
                ==> !self.tiles@[i].terrain.spec_is_wall()
    }

    /// How many entrances the room has.
    pub open spec fn entrances(&self) -> nat {
        stairs_count(self.tiles@, StairsDirection::Up)
    }

    /// How many exits the room has.
    pub open spec fn exits(&self) -> nat {
        stairs_count(self.tiles@, StairsDirection::Down)
    }

    /// The tile at column `x` of row `y`, or `None` where the room has no
    /// such cell.
    pub fn tile_at(&self, x: usize, y: usize) -> (tile: Option<&RoomTile>)
        ensures
            tile is Some <==> self.in_bounds(x as int, y as int) && cell_index(
                self.size.x as int,
                x as int,
                y as int,
            ) < self.tiles@.len(),
            tile matches Some(t) ==> *t == self.spec_tile_at(x as int, y as int),
    {
        let count = self.tiles.len();
        if x >= self.size.x || y >= self.size.y {
            return None;
        }
        let row_start = match y.checked_mul(self.size.x) {
            Some(row_start) => row_start,
            None => {
                return None;
            },
        };
        let index = match row_start.checked_add(x) {
            Some(index) => index,
            None => {
                return None;
            },
        };
        if index < count {
            Some(&self.tiles[index])
        } else {
            None
        }
    }
}

/// In a well-formed room every border cell is a wall that cannot be walked
/// over, and every other cell is ground that can.
pub proof fn lemma_border_is_wall(room: Room, x: int, y: int)
    requires
        room.well_formed(),
        room.in_bounds(x, y),
    ensures
        room.spec_tile_at(x, y).terrain.spec_is_wall() == room.on_border(x, y),
        room.spec_tile_at(x, y).terrain.spec_terrain().traversable == !room.on_border(x, y),
{
    assert(terrain_fits(room.spec_tile_at(x, y), room.on_border(x, y)));
}

/// In a grid of the given width, the cells of the rows before `rows` come
/// before the first cell of row `rows`.
pub proof fn lemma_cell_index_bound(width: int, x: int, y: int, rows: int)
    by (nonlinear_arith)
    requires
        0 <= x < width,
        0 <= y < rows,
    ensures
        0 <= cell_index(width, x, y) < rows * width,
{
}

/// Two cells of a grid with the same index are the same cell.
pub proof fn lemma_cell_index_injective(width: int, x1: int, y1: int, x2: int, y2: int)
    by (nonlinear_arith)
    requires
        0 <= x1 < width,
        0 <= x2 < width,
        0 <= y1,
        0 <= y2,
        cell_index(width, x1, y1) == cell_index(width, x2, y2),
    ensures
        x1 == x2,
        y1 == y2,
{
}

/// No tile carries a staircase in a direction exactly when the count for that
/// direction is zero.
pub proof fn lemma_stairs_count_zero(tiles: Seq<RoomTile>, direction: StairsDirection)
    ensures
        stairs_count(tiles, direction) == 0 <==> forall|i: int|
            0 <= i < tiles.len() ==> (#[trigger] tiles[i]).stairs != Some(direction),
    decreases tiles.len(),
{
    if tiles.len() > 0 {
        let front = tiles.drop_last();
        lemma_stairs_count_zero(front, direction);
        assert(forall|i: int| 0 <= i < front.len() ==> front[i] == tiles[i]);
        if stairs_count(tiles, direction) == 0 {
            assert forall|i: int| 0 <= i < tiles.len() implies (#[trigger] tiles[i]).stairs != Some(
                direction,
            ) by {
                if i < front.len() {
                    assert(front[i] == tiles[i]);
                }
            }
        }
        if forall|i: int| 0 <= i < tiles.len() ==> (#[trigger] tiles[i]).stairs != Some(direction) {
            assert forall|i: int| 0 <= i < front.len() implies (#[trigger] front[i]).stairs != Some(
                direction,
            ) by {
                assert(front[i] == tiles[i]);
            }
            assert(tiles.last() == tiles[tiles.len() - 1]);
        }
    }
}

/// Replacing one tile changes the count by what the new tile adds and the old
/// one took with it.
pub proof fn lemma_stairs_count_update(
    tiles: Seq<RoomTile>,
    cell: int,
    tile: RoomTile,
    direction: StairsDirection,
)
    requires
        0 <= cell < tiles.len(),
    ensures
        stairs_count(tiles.update(cell, tile), direction) + stairs_mark(tiles[cell], direction)
            == stairs_count(tiles, direction) + stairs_mark(tile, direction),
    decreases tiles.len(),
{
    let after = tiles.update(cell, tile);
    if cell == tiles.len() - 1 {
        assert(after.drop_last() =~= tiles.drop_last());
    } else {
        lemma_stairs_count_update(tiles.drop_last(), cell, tile, direction);
        assert(after.drop_last() =~= tiles.drop_last().update(cell, tile));
    }
}

/// Where the count for a direction is one, there is exactly one cell with
/// such a staircase.
pub proof fn lemma_stairs_count_one(tiles: Seq<RoomTile>, direction: StairsDirection)
    requires
        stairs_count(tiles, direction) == 1,
    ensures
        exists|cell: int|
            0 <= cell < tiles.len() && (#[trigger] tiles[cell]).stairs == Some(direction) && forall|
                other: int,
            |
                0 <= other < tiles.len() && other != cell ==> (#[trigger] tiles[other]).stairs
                    != Some(direction),
    decreases tiles.len(),
{
    let front = tiles.drop_last();
    let last = tiles.len() - 1;
    assert(forall|i: int| 0 <= i < front.len() ==> front[i] == tiles[i]);
    if tiles[last].stairs == Some(direction) {
        lemma_stairs_count_zero(front, direction);
        assert forall|other: int| 0 <= other < tiles.len() && other != last implies (
        #[trigger] tiles[other]).stairs != Some(direction) by {
            assert(front[other] == tiles[other]);
        }
    } else {
        lemma_stairs_count_one(front, direction);
        let cell = choose|cell: int|
            0 <= cell < front.len() && (#[trigger] front[cell]).stairs == Some(direction) && forall|
                other: int,
            |
                0 <= other < front.len() && other != cell ==> (#[trigger] front[other]).stairs
                    != Some(direction);
        assert(tiles[cell] == front[cell]);
        assert forall|other: int| 0 <= other < tiles.len() && other != cell implies (
        #[trigger] tiles[other]).stairs != Some(direction) by {
            if other < last {
                assert(front[other] == tiles[other]);
            }
        }
    }
}

} // verus!

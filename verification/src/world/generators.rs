use crate::domain::map::{
    cell_index, grid_tile, lemma_cell_index_bound, lemma_stairs_count_update,
    lemma_stairs_count_zero, marked, on_border, terrain_fits, with_stairs, Room, RoomTile,
    StairsDirection, TerrainName, TerrainVariant, UVec2D,
};
use crate::random::random_in_range;
use vstd::prelude::*;

verus! {

/// How many wall terrains the catalog has.
pub const WALL_VARIANTS: usize = 2;

/// How many ground terrains the catalog has.
pub const GROUND_VARIANTS: usize = 4;

/// The terrain that a draw stands for: the draw counts through the walls, or
/// through the grounds, in the catalog's order.
pub open spec fn terrain_for_roll(wall: bool, roll: int) -> TerrainName {
    if wall {
        if roll == 0 {
            TerrainName::BrickWall1
        } else {
            TerrainName::BrickWall2
        }
    } else {
        if roll == 0 {
            TerrainName::Dirt1
        } else if roll == 1 {
            TerrainName::Dirt2
        } else if roll == 2 {
            TerrainName::Grass1
        } else {
            TerrainName::Grass2
        }
    }
}

/// Turns a draw into the name of a wall or of a ground terrain.
pub fn pick_terrain(wall: bool, roll: usize) -> (name: TerrainName)
    requires
        wall ==> roll < WALL_VARIANTS,
        !wall ==> roll < GROUND_VARIANTS,
    ensures
        name == terrain_for_roll(wall, roll as int),
        name.spec_is_wall() == wall,
{
    if wall {
        if roll == 0 {
            TerrainName::BrickWall1
        } else {
            TerrainName::BrickWall2
        }
    } else {
        if roll == 0 {
            TerrainName::Dirt1
        } else if roll == 1 {
            TerrainName::Dirt2
        } else if roll == 2 {
            TerrainName::Grass1
        } else {
            TerrainName::Grass2
        }
    }
}

/// Builds a room of the given size: a ring of wall around a field of ground.
/// Which wall and which ground each cell gets is drawn at random, cell by
/// cell. A room less than three cells wide or high is all wall; one with no
/// width or no height has no tiles.
pub fn make_room(size: UVec2D) -> (room: Room)
    ensures
        room.size == size,
        room.well_formed(),
        room.is_bare(),
{
    let mut tiles: Vec<RoomTile> = Vec::new();
    let mut y: usize = 0;
    while y < size.y
        invariant
            y <= size.y,
            tiles@.len() == y * size.x,
            forall|cx: int, cy: int|
                0 <= cx < size.x && 0 <= cy < y ==> terrain_fits(
                    #[trigger] grid_tile(tiles@, size.x as int, cx, cy),
                    on_border(size, cx, cy),
                ),
            forall|i: int| 0 <= i < tiles@.len() ==> (#[trigger] tiles@[i]).is_bare(),
        decreases size.y - y,
    {
        let mut x: usize = 0;
        while x < size.x
            invariant
                y < size.y,
                x <= size.x,
                tiles@.len() == y * size.x + x,
                forall|cx: int, cy: int|
                    0 <= cx < size.x && 0 <= cy < y ==> terrain_fits(
                        #[trigger] grid_tile(tiles@, size.x as int, cx, cy),
                        on_border(size, cx, cy),
                    ),
                forall|cx: int|
                    0 <= cx < x ==> terrain_fits(
                        #[trigger] grid_tile(tiles@, size.x as int, cx, y as int),
                        on_border(size, cx, y as int),
                    ),
                forall|i: int| 0 <= i < tiles@.len() ==> (#[trigger] tiles@[i]).is_bare(),
            decreases size.x - x,
        {
            let wall = x == 0 || x + 1 == size.x || y == 0 || y + 1 == size.y;
            let roll = if wall {
                random_in_range(0, WALL_VARIANTS - 1)
            } else {
                random_in_range(0, GROUND_VARIANTS - 1)
            };
            let tile = RoomTile {
                stairs: None,
                terrain: TerrainVariant::from_name(pick_terrain(wall, roll)),
                entities: Vec::new(),
                actors: Vec::new(),
            };
            let ghost before = tiles@;
            tiles.push(tile);
            proof {
                let width = size.x as int;
                assert forall|cx: int, cy: int| 0 <= cx < size.x && 0 <= cy < y implies terrain_fits(
                    #[trigger] grid_tile(tiles@, width, cx, cy),
                    on_border(size, cx, cy),
                ) by {
                    lemma_cell_index_bound(width, cx, cy, y as int);
                    assert(grid_tile(tiles@, width, cx, cy) == grid_tile(before, width, cx, cy));
                }
                assert forall|cx: int| 0 <= cx < x + 1 implies terrain_fits(
                    #[trigger] grid_tile(tiles@, width, cx, y as int),
                    on_border(size, cx, y as int),
                ) by {
                    if cx < x {
                        assert(grid_tile(tiles@, width, cx, y as int) == grid_tile(
                            before,
                            width,
                            cx,
                            y as int,
                        ));
                    } else {
                        assert(cell_index(width, cx, y as int) == before.len());
                    }
                }
            }
            x += 1;
        }
        proof {
            assert((y + 1) * size.x == y * size.x + size.x) by (nonlinear_arith);
        }
        y += 1;
    }
    let room = Room { tiles, size };
    proof {
        assert(size.x * size.y == size.y * size.x) by (nonlinear_arith);
        assert forall|cx: int, cy: int| room.in_bounds(cx, cy) implies terrain_fits(
            #[trigger] room.spec_tile_at(cx, cy),
            room.on_border(cx, cy),
        ) by {
            assert(room.spec_tile_at(cx, cy) == grid_tile(room.tiles@, size.x as int, cx, cy));
        }
    }
    room
}

/// The cells on which a staircase in the given direction may go, in
/// increasing order, each once.
pub open spec fn is_candidate_list(
    cells: Seq<usize>,
    tiles: Seq<RoomTile>,
    direction: StairsDirection,
) -> bool {
    &&& forall|k: int|
        0 <= k < cells.len() ==> (#[trigger] cells[k]) < tiles.len() && tiles[cells[k] as int].spec_takes_stairs(
            direction,
        )
    &&& forall|i: int|
        0 <= i < tiles.len() && (#[trigger] tiles[i]).spec_takes_stairs(direction)
            ==> cells.contains(i as usize)
    &&& forall|j: int, k: int| 0 <= j < k < cells.len() ==> cells[j] < cells[k]
}

/// Whether the room has the cells that a placement needs, whatever the draws
/// turn out to be: for an entrance a cell that is not a wall, for an exit a
/// cell that is not a wall and has no staircase, and for both two such free
/// cells, since the entrance may take one of them.
pub open spec fn has_space_for(tiles: Seq<RoomTile>, entrance: bool, exit: bool) -> bool {
    &&& entrance ==> exists|i: int|
        0 <= i < tiles.len() && (#[trigger] tiles[i]).spec_takes_stairs(StairsDirection::Up)
    &&& exit ==> exists|i: int, j: int|
        0 <= i < tiles.len() && 0 <= j < tiles.len() && (#[trigger] tiles[i]).spec_takes_stairs(
            StairsDirection::Down,
        ) && (#[trigger] tiles[j]).spec_takes_stairs(StairsDirection::Down) && (entrance ==> i != j)
}

/// What a placement does to the tiles, given the cells that were drawn: the
/// entrance goes on `up`, which is not a wall, and then the exit on `down`,
/// which is not a wall and by then has no staircase. Nothing else changes.
pub open spec fn placement(
    before: Seq<RoomTile>,
    entrance: bool,
    exit: bool,
    up: int,
    down: int,
    after: Seq<RoomTile>,
) -> bool {
    let between = if entrance {
        marked(before, up, StairsDirection::Up)
    } else {
        before
    };
    &&& entrance ==> 0 <= up < before.len() && before[up].spec_takes_stairs(StairsDirection::Up)
    &&& exit ==> 0 <= down < between.len() && between[down].spec_takes_stairs(
        StairsDirection::Down,
    )
    &&& after == if exit {
        marked(between, down, StairsDirection::Down)
    } else {
        between
    }
}

/// A room before and after its staircases were placed: the size is kept, and
/// the tiles changed as `placement` says for some pair of cells.
pub open spec fn placed(before: Room, after: Room, entrance: bool, exit: bool) -> bool {
    &&& after.size == before.size
    &&& exists|up: int, down: int|
        placement(before.tiles@, entrance, exit, up, down, after.tiles@)
}

/// Lists the cells on which a staircase in the given direction may go.
pub fn stair_candidates(room: &Room, direction: StairsDirection) -> (cells: Vec<usize>)
    ensures
        is_candidate_list(cells@, room.tiles@, direction),
{
    let mut cells: Vec<usize> = Vec::new();
    let mut i: usize = 0;
    while i < room.tiles.len()
        invariant
            i <= room.tiles.len(),
            forall|k: int|
                0 <= k < cells@.len() ==> (#[trigger] cells@[k]) < i && room.tiles@[cells@[k] as int].spec_takes_stairs(
                    direction,
                ),
            forall|c: int|
                0 <= c < i && (#[trigger] room.tiles@[c]).spec_takes_stairs(direction)
                    ==> cells@.contains(c as usize),
            forall|j: int, k: int| 0 <= j < k < cells@.len() ==> cells@[j] < cells@[k],
        decreases room.tiles.len() - i,
    {
        if room.tiles[i].takes_stairs(direction) {
            let ghost before = cells@;
            cells.push(i);
            proof {
                assert(cells@[before.len() as int] == i);
                assert forall|c: int|
                    0 <= c < i + 1 && (#[trigger] room.tiles@[c]).spec_takes_stairs(
                        direction,
                    ) implies cells@.contains(c as usize) by {
                    if c < i {
                        let k = choose|k: int| 0 <= k < before.len() && before[k] == c as usize;
                        assert(cells@[k] == c as usize);
                    }
                }
            }
        }
        i += 1;
    }
    cells
}

/// Marks a staircase on one cell of the room.
pub fn place_stairs_at(room: &mut Room, cell: usize, direction: StairsDirection)
    requires
        cell < old(room).tiles@.len(),
        old(room).tiles@[cell as int].spec_takes_stairs(direction),
    ensures
        final(room).size == old(room).size,
        final(room).tiles@ == marked(old(room).tiles@, cell as int, direction),
{
    room.tiles[cell].stairs = Some(direction);
    assert(room.tiles@ =~= marked(old(room).tiles@, cell as int, direction));
}

/// Places the staircases of a room: first the entrance, if one is wanted, on
/// a cell drawn from those that are not walls, then the exit, if one is
/// wanted, on a cell drawn from those that are not walls and have no
/// staircase. Each draw is uniform over the cells it may take.
///
/// A room without the cells for it is left out by `requires`: there the
/// draws could not end.
pub fn place_staircases(room: &mut Room, entrance: bool, exit: bool)
    requires
        has_space_for(old(room).tiles@, entrance, exit),
    ensures
        placed(*old(room), *final(room), entrance, exit),
{
    let ghost before = room.tiles@;
    let ghost mut up: int = 0;
    let ghost mut down: int = 0;
    if entrance {
        let cells = stair_candidates(room, StairsDirection::Up);
        proof {
            let i = choose|i: int|
                0 <= i < before.len() && (#[trigger] before[i]).spec_takes_stairs(
                    StairsDirection::Up,
                );
            assert(cells@.contains(i as usize));
        }
        let pick = random_in_range(0, cells.len() - 1);
        let cell = cells[pick];
        proof {
            up = cell as int;
        }
        place_stairs_at(room, cell, StairsDirection::Up);
    }
    let ghost between = room.tiles@;
    if exit {
        let cells = stair_candidates(room, StairsDirection::Down);
        proof {
            let (i, j) = choose|i: int, j: int|
                0 <= i < before.len() && 0 <= j < before.len() && (#[trigger] before[i]).spec_takes_stairs(
                    StairsDirection::Down,
                ) && (#[trigger] before[j]).spec_takes_stairs(StairsDirection::Down) && (entrance
                    ==> i != j);
            let free = if entrance && i == up {
                j
            } else {
                i
            };
            assert(between[free] == before[free]);
            assert(between[free].spec_takes_stairs(StairsDirection::Down));
            assert(cells@.contains(free as usize));
        }
        let pick = random_in_range(0, cells.len() - 1);
        let cell = cells[pick];
        proof {
            down = cell as int;
        }
        place_stairs_at(room, cell, StairsDirection::Down);
    }
    assert(placement(before, entrance, exit, up, down, room.tiles@));
}

/// Why a world could not be built.
#[derive(Debug, Clone, Copy, PartialEq, Eq, Structural)]
pub enum WorldError {
    /// A world needs at least two rooms: one to start in and one to finish
    /// in.
    NotEnoughRooms,
    /// The rooms have fewer cells inside their walls than one of them gets
    /// staircases.
    RoomTooSmall,
}

/// The least number of rooms in a world.
pub const MIN_ROOMS: usize = 2;

/// The side of the square rooms that `prepare_world` builds.
pub const ROOM_SIDE: usize = 10;

/// Whether the room at `index` of a world of `rooms` rooms gets an entrance:
/// every room but the first does.
pub open spec fn wants_entrance(index: int, rooms: int) -> bool {
    index == rooms - 1 || index != 0
}

/// Whether the room at `index` of a world of `rooms` rooms gets an exit:
/// every room but the last does.
pub open spec fn wants_exit(index: int, rooms: int) -> bool {
    index != rooms - 1
}

/// How many cells of a room of the given size lie inside its ring of wall.
pub open spec fn interior_cells(size: UVec2D) -> int {
    if size.x >= 2 && size.y >= 2 {
        (size.x - 2) * (size.y - 2)
    } else {
        0
    }
}

/// The most staircases that any one room of a world of `rooms` rooms gets:
/// a room between the first and the last gets two.
pub open spec fn most_stairs(rooms: int) -> int {
    if rooms >= 3 {
        2
    } else {
        1
    }
}

/// What holds of the room at `index` in a world of `rooms` rooms of the given
/// size.
pub open spec fn is_room_of_world(room: Room, index: int, rooms: int, size: UVec2D) -> bool {
    &&& room.size == size
    &&& room.well_formed()
    &&& room.is_unoccupied()
    &&& room.stairs_on_ground()
    &&& room.entrances() == if wants_entrance(index, rooms) {
        1nat
    } else {
        0nat
    }
    &&& room.exits() == if wants_exit(index, rooms) {
        1nat
    } else {
        0nat
    }
}

/// A world: `rooms` rooms in order, each as `is_room_of_world` says.
pub open spec fn is_world(world: Seq<Room>, rooms: int, size: UVec2D) -> bool {
    &&& world.len() == rooms
    &&& forall|i: int| 0 <= i < rooms ==> is_room_of_world(#[trigger] world[i], i, rooms, size)
}

/// A room has room for `count` staircases exactly when it is at least three
/// cells wide and high, and for two at least four cells one way.
pub proof fn lemma_interior_cells(size: UVec2D, count: int)
    requires
        1 <= count <= 2,
    ensures
        interior_cells(size) >= count <==> size.x >= 3 && size.y >= 3 && (count == 1 || size.x >= 4
            || size.y >= 4),
{
    if size.x >= 2 && size.y >= 2 {
        let a = size.x - 2;
        let b = size.y - 2;
        assert(a * b >= count <==> a >= 1 && b >= 1 && (count == 1 || a >= 2 || b >= 2))
            by (nonlinear_arith)
            requires
                a >= 0,
                b >= 0,
                1 <= count <= 2,
        ;
    }
}

/// A room fresh from the generator, with at least as many cells inside its
/// walls as staircases are wanted, has the cells that the placement needs.
pub proof fn lemma_bare_room_has_space(room: Room, entrance: bool, exit: bool)
    requires
        room.well_formed(),
        room.is_bare(),
        interior_cells(room.size) >= (if entrance {
            1int
        } else {
            0int
        }) + (if exit {
            1int
        } else {
            0int
        }),
    ensures
        has_space_for(room.tiles@, entrance, exit),
{
    if entrance || exit {
        let width = room.size.x as int;
        let height = room.size.y as int;
        let count = if entrance && exit {
            2int
        } else {
            1int
        };
        lemma_interior_cells(room.size, count);
        assert(width * height == height * width) by (nonlinear_arith);
        let first = cell_index(width, 1, 1);
        lemma_cell_index_bound(width, 1, 1, height);
        assert(room.spec_tile_at(1, 1) == room.tiles@[first]);
        assert(room.tiles@[first].spec_takes_stairs(StairsDirection::Down));
        if entrance && exit {
            let (x, y) = if width >= 4 {
                (2int, 1int)
            } else {
                (1int, 2int)
            };
            let second = cell_index(width, x, y);
            lemma_cell_index_bound(width, x, y, height);
            assert(second != first) by (nonlinear_arith)
                requires
                    second == y * width + x,
                    first == 1 * width + 1,
                    width >= 3,
                    (x == 2 && y == 1) || (x == 1 && y == 2),
            ;
            assert(room.spec_tile_at(x, y) == room.tiles@[second]);
            assert(room.tiles@[second].spec_takes_stairs(StairsDirection::Down));
        }
    }
}

/// Placing staircases in a room fresh from the generator leaves it a
/// well-formed room with nobody in it, with no staircase on a wall, with
/// exactly one entrance if one was wanted and none if not, and likewise for
/// the exit.
pub proof fn lemma_placement_on_bare_room(before: Room, after: Room, entrance: bool, exit: bool)
    requires
        before.well_formed(),
        before.is_bare(),
        placed(before, after, entrance, exit),
    ensures
        after.well_formed(),
        after.is_unoccupied(),
        after.stairs_on_ground(),
        after.entrances() == if entrance {
            1nat
        } else {
            0nat
        },
        after.exits() == if exit {
            1nat
        } else {
            0nat
        },
{
    let (up, down) = choose|up: int, down: int|
        placement(before.tiles@, entrance, exit, up, down, after.tiles@);
    let start = before.tiles@;
    let between = if entrance {
        marked(start, up, StairsDirection::Up)
    } else {
        start
    };
    lemma_stairs_count_zero(start, StairsDirection::Up);
    lemma_stairs_count_zero(start, StairsDirection::Down);
    if entrance {
        lemma_stairs_count_update(start, up, with_stairs(start[up], StairsDirection::Up), StairsDirection::Up);
        lemma_stairs_count_update(start, up, with_stairs(start[up], StairsDirection::Up), StairsDirection::Down);
    }
    if exit {
        lemma_stairs_count_update(
            between,
            down,
            with_stairs(between[down], StairsDirection::Down),
            StairsDirection::Up,
        );
        lemma_stairs_count_update(
            between,
            down,
            with_stairs(between[down], StairsDirection::Down),
            StairsDirection::Down,
        );
    }
    lemma_placement_keeps_room(before, after, entrance, exit);
    assert forall|i: int| 0 <= i < after.tiles@.len() implies (#[trigger] after.tiles@[i]).entities@.len()
        == 0 && after.tiles@[i].actors@.len() == 0 by {
        assert(start[i].is_bare());
    }
}

/// Placing staircases changes no terrain, so a well-formed room stays
/// well-formed; and it puts no staircase on a wall, so a room that had none
/// there has none there afterwards.
pub proof fn lemma_placement_keeps_room(before: Room, after: Room, entrance: bool, exit: bool)
    requires
        placed(before, after, entrance, exit),
    ensures
        after.tiles@.len() == before.tiles@.len(),
        forall|i: int|
            0 <= i < before.tiles@.len() ==> (#[trigger] after.tiles@[i]).terrain
                == before.tiles@[i].terrain,
        before.well_formed() ==> after.well_formed(),
        before.stairs_on_ground() ==> after.stairs_on_ground(),
{
    let (up, down) = choose|up: int, down: int|
        placement(before.tiles@, entrance, exit, up, down, after.tiles@);
    if before.well_formed() {
        let width = before.size.x as int;
        assert(before.size.x * before.size.y == before.size.y * before.size.x) by (nonlinear_arith);
        assert forall|x: int, y: int| after.in_bounds(x, y) implies terrain_fits(
            #[trigger] after.spec_tile_at(x, y),
            after.on_border(x, y),
        ) by {
            lemma_cell_index_bound(width, x, y, before.size.y as int);
            assert(terrain_fits(before.spec_tile_at(x, y), before.on_border(x, y)));
            assert(after.spec_tile_at(x, y).terrain == before.spec_tile_at(x, y).terrain);
        }
    }
    if before.stairs_on_ground() {
        assert forall|i: int|
            0 <= i < after.tiles@.len() && (#[trigger] after.tiles@[i]).stairs is Some implies !after.tiles@[i].terrain.spec_is_wall() by {
            if before.tiles@[i].stairs is Some {
                assert(!before.tiles@[i].terrain.spec_is_wall());
            }
        }
    }
}

/// In no room do an entrance and an exit share a cell.
pub proof fn lemma_stairs_apart(room: Room, up: int, down: int)
    requires
        0 <= up < room.tiles@.len(),
        0 <= down < room.tiles@.len(),
        room.tiles@[up].stairs == Some(StairsDirection::Up),
        room.tiles@[down].stairs == Some(StairsDirection::Down),
    ensures
        up != down,
{
}

/// In a world the first room has no entrance and one exit, the last no exit
/// and one entrance, and every room between them one of each.
pub proof fn lemma_world_stairs(world: Seq<Room>, rooms: int, size: UVec2D, index: int)
    requires
        rooms >= 2,
        is_world(world, rooms, size),
        0 <= index < rooms,
    ensures
        index == 0 ==> world[index].entrances() == 0 && world[index].exits() == 1,
        index == rooms - 1 ==> world[index].entrances() == 1 && world[index].exits() == 0,
        0 < index < rooms - 1 ==> world[index].entrances() == 1 && world[index].exits() == 1,
        world[index].entrances() <= 1,
        world[index].exits() <= 1,
{
    assert(is_room_of_world(world[index], index, rooms, size));
}

/// Builds a world of `rooms` rooms of the given size, in order. The first has
/// an exit and no entrance, the last an entrance and no exit, and every room
/// between them one of each.
///
/// A world of fewer than two rooms is refused, and so is a size that leaves
/// some room fewer cells inside its walls than it gets staircases.
pub fn prepare_world_sized(rooms: usize, size: UVec2D) -> (result: Result<Vec<Room>, WorldError>)
    ensures
        result matches Err(WorldError::NotEnoughRooms) <==> rooms < MIN_ROOMS,
        result matches Err(WorldError::RoomTooSmall) <==> rooms >= MIN_ROOMS && interior_cells(size)
            < most_stairs(rooms as int),
        result matches Ok(world) ==> is_world(world@, rooms as int, size),
{
    if rooms < MIN_ROOMS {
        return Err(WorldError::NotEnoughRooms);
    }
    proof {
        lemma_interior_cells(size, most_stairs(rooms as int));
    }
    if size.x < 3 || size.y < 3 || (rooms >= 3 && size.x < 4 && size.y < 4) {
        return Err(WorldError::RoomTooSmall);
    }
    let mut world: Vec<Room> = Vec::new();
    let last_room: usize = rooms - 1;
    let mut n: usize = 0;
    while n < rooms
        invariant
            n <= rooms,
            rooms >= MIN_ROOMS,
            last_room == rooms - 1,
            interior_cells(size) >= most_stairs(rooms as int),
            world@.len() == n,
            forall|i: int| 0 <= i < n ==> is_room_of_world(#[trigger] world@[i], i, rooms as int, size),
        decreases rooms - n,
    {
        let mut room = make_room(size);
        let (entrance, exit) = if n == last_room {
            (true, false)
        } else if n == 0 {
            (false, true)
        } else {
            (true, true)
        };
        let ghost bare = room;
        proof {
            lemma_bare_room_has_space(bare, entrance, exit);
        }
        place_staircases(&mut room, entrance, exit);
        proof {
            lemma_placement_on_bare_room(bare, room, entrance, exit);
        }
        world.push(room);
        n += 1;
    }
    Ok(world)
}

/// Builds a world of `rooms` rooms, each ten cells wide and ten high.
pub fn prepare_world(rooms: usize) -> (result: Result<Vec<Room>, WorldError>)
    ensures
        result matches Err(WorldError::NotEnoughRooms) <==> rooms < MIN_ROOMS,
        !(result matches Err(WorldError::RoomTooSmall)),
        result matches Ok(world) ==> is_world(
            world@,
            rooms as int,
            UVec2D { x: ROOM_SIDE, y: ROOM_SIDE },
        ),
{
    let size = UVec2D { x: ROOM_SIDE, y: ROOM_SIDE };
    proof {
        lemma_interior_cells(size, 2);
    }
    prepare_world_sized(rooms, size)
}

} // verus!

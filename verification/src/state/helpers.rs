use crate::draw::TileNames;
use crate::random::random_in_range;
use crate::state::domain::{
    Color, Direction, Entity, EntityCharacteristics, EntityMode, EntityRelationship, Game,
    GraphicSettings, MoveCommands, Position, Settings, WindowSettings,
};
use uuid::Uuid;
use vstd::prelude::*;

verus! {

/// Whether the entity stands on cell `(x, y)`.
pub open spec fn stands_at(entity: Entity, x: int, y: int) -> bool {
    entity.pos.x == x && entity.pos.y == y
}

/// Whether any of the characters stands on cell `(x, y)`. A character blocks
/// its cell whatever its kind and whatever its own `walkable` flag says.
pub open spec fn character_at(entities: Seq<Entity>, x: int, y: int) -> bool {
    exists|i: int| 0 <= i < entities.len() && stands_at(#[trigger] entities[i], x, y)
}

/// Whether a structure that cannot be walked over stands on cell `(x, y)`.
pub open spec fn obstacle_at(buildings: Seq<Entity>, x: int, y: int) -> bool {
    exists|i: int|
        0 <= i < buildings.len() && stands_at(#[trigger] buildings[i], x, y)
            && !buildings[i].characteristics.walkable
}

/// The rule of movement: a character at `pos` may step to the neighbour on
/// the given side if no character stands there and no structure there bars
/// the way. A step that would leave the range of the coordinates is never
/// allowed. The board's size plays no part: a cell outside the room blocks
/// nothing.
pub open spec fn move_allowed(pos: Position, side: Direction, game: &Game) -> bool {
    let x = pos.x + side.dx();
    let y = pos.y + side.dy();
    &&& Position::representable(x, y)
    &&& !character_at(game.entities@, x, y)
    &&& !obstacle_at(game.buildings@, x, y)
}

/// Where a character at `pos` stands after it tried one step: on the
/// neighbour if the move is allowed, else where it was.
pub open spec fn after_step(pos: Position, side: Direction, game: &Game) -> Position {
    if move_allowed(pos, side, game) {
        pos.shifted(side)
    } else {
        pos
    }
}

/// Where the player stands after one tick's commands. Each command that was
/// given is tried in the order left, right, down, up, each from where the one
/// before left the player, and all against the same snapshot: so two commands
/// on different axes can both move the player in one tick.
pub open spec fn after_commands(pos: Position, commands: MoveCommands, game: &Game) -> Position {
    let after_left = if commands.left {
        after_step(pos, Direction::Left, game)
    } else {
        pos
    };
    let after_right = if commands.right {
        after_step(after_left, Direction::Right, game)
    } else {
        after_left
    };
    let after_down = if commands.down {
        after_step(after_right, Direction::Down, game)
    } else {
        after_right
    };
    if commands.up {
        after_step(after_down, Direction::Up, game)
    } else {
        after_down
    }
}

/// The entity moved to `pos`, all else kept.
pub open spec fn moved_to(entity: Entity, pos: Position) -> Entity {
    Entity { pos, ..entity }
}

/// The direction that a draw from 1 to 4 stands for.
pub open spec fn direction_for_roll(roll: int) -> Direction {
    if roll == 1 {
        Direction::Left
    } else if roll == 2 {
        Direction::Up
    } else if roll == 3 {
        Direction::Down
    } else {
        Direction::Right
    }
}

/// The buildings and then the characters that stand on a cell, each group in
/// its own order.
pub open spec fn entities_in_tile(game: &Game, x: int, y: int) -> Seq<Entity> {
    game.buildings@.filter(|e: Entity| stands_at(e, x, y)) + game.entities@.filter(
        |e: Entity| stands_at(e, x, y),
    )
}

/// Everything that stands on a cell: buildings first, then characters.
pub fn get_entities_in_tile(game: &Game, tile_pos: &Position) -> (found: Vec<Entity>)
    ensures
        found@ == entities_in_tile(game, tile_pos.x as int, tile_pos.y as int),
{
    let ghost here = |e: Entity| stands_at(e, tile_pos.x as int, tile_pos.y as int);
    let mut found: Vec<Entity> = Vec::new();
    let mut i: usize = 0;
    proof {
        reveal(Seq::filter);
        assert(game.buildings@.take(0).filter(here) =~= Seq::<Entity>::empty());
        assert(game.entities@.take(0).filter(here) =~= Seq::<Entity>::empty());
    }
    while i < game.buildings.len()
        invariant
            i <= game.buildings.len(),
            here == |e: Entity| stands_at(e, tile_pos.x as int, tile_pos.y as int),
            found@ == game.buildings@.take(i as int).filter(here),
        decreases game.buildings.len() - i,
    {
        let building = &game.buildings[i];
        proof {
            let scanned = game.buildings@.take(i as int);
            assert(game.buildings@.take(i + 1) =~= scanned.push(game.buildings@[i as int]));
            scanned.lemma_filter_push(game.buildings@[i as int], here);
        }
        if building.pos.x == tile_pos.x && building.pos.y == tile_pos.y {
            found.push(building.clone());
        }
        i += 1;
    }
    assert(game.buildings@.take(i as int) =~= game.buildings@);
    let ghost buildings_found = found@;
    let mut j: usize = 0;
    assert(found@ =~= buildings_found + Seq::<Entity>::empty());
    while j < game.entities.len()
        invariant
            j <= game.entities.len(),
            here == |e: Entity| stands_at(e, tile_pos.x as int, tile_pos.y as int),
            buildings_found == game.buildings@.filter(here),
            found@ == buildings_found + game.entities@.take(j as int).filter(here),
        decreases game.entities.len() - j,
    {
        let entity = &game.entities[j];
        proof {
            let scanned = game.entities@.take(j as int);
            assert(game.entities@.take(j + 1) =~= scanned.push(game.entities@[j as int]));
            scanned.lemma_filter_push(game.entities@[j as int], here);
        }
        let ghost so_far = game.entities@.take(j as int).filter(here);
        if entity.pos.x == tile_pos.x && entity.pos.y == tile_pos.y {
            found.push(entity.clone());
            assert(found@ =~= buildings_found + so_far.push(game.entities@[j as int]));
        }
        j += 1;
    }
    assert(game.entities@.take(j as int) =~= game.entities@);
    found
}

/// Whether no character stands on the cell.
pub fn position_free(pos: &Position, entities: &Vec<Entity>) -> (free: bool)
    ensures
        free == !character_at(entities@, pos.x as int, pos.y as int),
{
    let mut i: usize = 0;
    while i < entities.len()
        invariant
            i <= entities.len(),
            forall|k: int| 0 <= k < i ==> !stands_at(#[trigger] entities@[k], pos.x as int, pos.y as int),
        decreases entities.len() - i,
    {
        if entities[i].pos.x == pos.x && entities[i].pos.y == pos.y {
            return false;
        }
        i += 1;
    }
    true
}

/// Whether no structure on the cell bars the way: every structure that stands
/// there can be walked over.
pub fn position_passable(pos: &Position, buildings: &Vec<Entity>) -> (passable: bool)
    ensures
        passable == !obstacle_at(buildings@, pos.x as int, pos.y as int),
{
    let mut i: usize = 0;
    while i < buildings.len()
        invariant
            i <= buildings.len(),
            forall|k: int|
                0 <= k < i ==> !(stands_at(#[trigger] buildings@[k], pos.x as int, pos.y as int)
                    && !buildings@[k].characteristics.walkable),
        decreases buildings.len() - i,
    {
        let building = &buildings[i];
        if building.pos.x == pos.x && building.pos.y == pos.y && !building.characteristics.walkable {
            return false;
        }
        i += 1;
    }
    true
}

/// Whether the entity may step to its neighbour on the given side. The answer
/// depends on the entity's position, the side and the snapshot alone: asked
/// again of the same snapshot, it is the same.
pub fn can_move(entity: &Entity, side: Direction, game: &Game) -> (allowed: bool)
    ensures
        allowed == move_allowed(entity.pos, side, game),
{
    match entity.pos.neighbour(side) {
        Some(target) => position_free(&target, &game.entities) && position_passable(
            &target,
            &game.buildings,
        ),
        None => false,
    }
}

/// Moves the entity one step to the given side if `can_move` allows it, and
/// leaves it where it is if not.
pub fn step(entity: &mut Entity, side: Direction, game: &Game)
    ensures
        *final(entity) == moved_to(*old(entity), after_step(old(entity).pos, side, game)),
{
    if can_move(entity, side, game) {
        match side {
            Direction::Left => {
                entity.pos.x -= 1;
            },
            Direction::Right => {
                entity.pos.x += 1;
            },
            Direction::Up => {
                entity.pos.y -= 1;
            },
            Direction::Down => {
                entity.pos.y += 1;
            },
        }
    }
}

/// Applies one tick's commands to the player: left, right, down, up, each
/// only if it was given and `can_move` allows it from where the player then
/// stands.
pub fn update_player(entity: &mut Entity, commands: &MoveCommands, game: &Game)
    ensures
        *final(entity) == moved_to(
            *old(entity),
            after_commands(old(entity).pos, *commands, game),
        ),
{
    if commands.left {
        step(entity, Direction::Left, game);
    }
    if commands.right {
        step(entity, Direction::Right, game);
    }
    if commands.down {
        step(entity, Direction::Down, game);
    }
    if commands.up {
        step(entity, Direction::Up, game);
    }
}

/// Turns a draw from 1 to 4 into a direction.
pub fn roll_direction(roll: usize) -> (side: Direction)
    requires
        1 <= roll <= 4,
    ensures
        side == direction_for_roll(roll as int),
{
    if roll == 1 {
        Direction::Left
    } else if roll == 2 {
        Direction::Up
    } else if roll == 3 {
        Direction::Down
    } else {
        Direction::Right
    }
}

/// Lets an autonomous character try one step in a direction drawn at random.
/// If the way is barred it stays: it does not draw again. Returns the
/// direction it tried.
pub fn move_random(entity: &mut Entity, game: &Game) -> (tried: Direction)
    ensures
        *final(entity) == moved_to(*old(entity), after_step(old(entity).pos, tried, game)),
{
    let tried = roll_direction(random_in_range(1, 4));
    step(entity, tried, game);
    tried
}

/// The grass sprite that a draw from 0 to 100 stands for: about half the
/// draws give the first, a quarter each of the others.
pub open spec fn grass_for_roll(roll: int) -> TileNames {
    if roll <= 50 {
        TileNames::Grass1
    } else if roll <= 75 {
        TileNames::Grass2
    } else {
        TileNames::Grass3
    }
}

/// The dirt sprite that a draw from 0 to 100 stands for.
pub open spec fn dirt_for_roll(roll: int) -> TileNames {
    if roll <= 50 {
        TileNames::Dirt0
    } else if roll <= 60 {
        TileNames::Dirt1
    } else if roll <= 80 {
        TileNames::Dirt2
    } else if roll <= 90 {
        TileNames::Dirt3
    } else {
        TileNames::Dirt4
    }
}

/// The wall sprite that a draw from 1 to 100 stands for.
pub open spec fn brick_wall_for_roll(roll: int) -> TileNames {
    if roll <= 74 {
        TileNames::BrickWall1
    } else if roll <= 89 {
        TileNames::BrickWall2
    } else {
        TileNames::BrickWall3
    }
}

/// Whether a draw from 1 to 100 makes a ground tile dirt: two draws in three
/// do, the others make it grass.
pub open spec fn ground_roll_is_dirt(roll: int) -> bool {
    roll <= 66
}

pub open spec fn is_grass(tile: TileNames) -> bool {
    tile is Grass1 || tile is Grass2 || tile is Grass3
}

pub open spec fn is_dirt(tile: TileNames) -> bool {
    tile is Dirt0 || tile is Dirt1 || tile is Dirt2 || tile is Dirt3 || tile is Dirt4
}

pub open spec fn is_brick_wall(tile: TileNames) -> bool {
    tile is BrickWall1 || tile is BrickWall2 || tile is BrickWall3
}

/// Turns a draw from 0 to 100 into a grass sprite.
pub fn grass_tile(roll: usize) -> (tile: TileNames)
    requires
        roll <= 100,
    ensures
        tile == grass_for_roll(roll as int),
{
    if roll <= 50 {
        TileNames::Grass1
    } else if roll <= 75 {
        TileNames::Grass2
    } else {
        TileNames::Grass3
    }
}

/// Turns a draw from 0 to 100 into a dirt sprite.
pub fn dirt_tile(roll: usize) -> (tile: TileNames)
    requires
        roll <= 100,
    ensures
        tile == dirt_for_roll(roll as int),
{
    if roll <= 50 {
        TileNames::Dirt0
    } else if roll <= 60 {
        TileNames::Dirt1
    } else if roll <= 80 {
        TileNames::Dirt2
    } else if roll <= 90 {
        TileNames::Dirt3
    } else {
        TileNames::Dirt4
    }
}

/// Turns a draw from 1 to 100 into a wall sprite.
pub fn brick_wall_tile(roll: usize) -> (tile: TileNames)
    requires
        1 <= roll <= 100,
    ensures
        tile == brick_wall_for_roll(roll as int),
{
    if roll <= 74 {
        TileNames::BrickWall1
    } else if roll <= 89 {
        TileNames::BrickWall2
    } else {
        TileNames::BrickWall3
    }
}

/// Turns a draw from 1 to 100 into the kind of a ground tile: `true` for
/// dirt, `false` for grass.
pub fn ground_is_dirt(roll: usize) -> (dirt: bool)
    requires
        1 <= roll <= 100,
    ensures
        dirt == ground_roll_is_dirt(roll as int),
{
    roll <= 66
}

/// A grass sprite drawn at random.
pub fn get_random_grass() -> (tile: TileNames)
    ensures
        is_grass(tile),
{
    grass_tile(random_in_range(0, 100))
}

/// A dirt sprite drawn at random.
pub fn get_random_dirt() -> (tile: TileNames)
    ensures
        is_dirt(tile),
{
    dirt_tile(random_in_range(0, 100))
}

/// A ground sprite drawn at random: first whether it is dirt or grass, then
/// which one.
pub fn get_random_ground() -> (tile: TileNames)
    ensures
        is_dirt(tile) || is_grass(tile),
{
    if ground_is_dirt(random_in_range(1, 100)) {
        get_random_dirt()
    } else {
        get_random_grass()
    }
}

/// A wall sprite drawn at random.
pub fn get_random_brick_wall() -> (tile: TileNames)
    ensures
        is_brick_wall(tile),
{
    brick_wall_tile(random_in_range(1, 100))
}

/// The colour in which an entity is drawn, by how it stands towards the
/// player: foes red, friends green, neutrals white, and what stands in no
/// relation a dark grey.
pub open spec fn spec_relationship_color(relationship: EntityRelationship) -> Color {
    match relationship {
        EntityRelationship::Foe => Color { r: 230, g: 41, b: 55, a: 255 },
        EntityRelationship::Friendly => Color { r: 0, g: 228, b: 48, a: 255 },
        EntityRelationship::Neutral => Color { r: 255, g: 255, b: 255, a: 255 },
        EntityRelationship::Unrelated => Color { r: 51, g: 51, b: 51, a: 255 },
    }
}

#[verifier::when_used_as_spec(spec_relationship_color)]
pub fn relationship_color(relationship: EntityRelationship) -> (color: Color)
    ensures
        color == spec_relationship_color(relationship),
{
    match relationship {
        EntityRelationship::Foe => Color { r: 230, g: 41, b: 55, a: 255 },
        EntityRelationship::Friendly => Color { r: 0, g: 228, b: 48, a: 255 },
        EntityRelationship::Neutral => Color { r: 255, g: 255, b: 255, a: 255 },
        EntityRelationship::Unrelated => Color { r: 51, g: 51, b: 51, a: 255 },
    }
}

/// Whether others may step onto the cell of an entity of this kind: only
/// onto ground.
pub open spec fn mode_is_walkable(mode: EntityMode) -> bool {
    mode is Ground
}

/// Whether a sprite is one that an entity of this kind may have.
pub open spec fn face_fits(mode: EntityMode, face: TileNames) -> bool {
    match mode {
        EntityMode::BrickWall => is_brick_wall(face),
        EntityMode::Ground => is_dirt(face) || is_grass(face),
        EntityMode::Player => face is NakedPlayer,
        EntityMode::NPC => face is NPC,
        EntityMode::Mob => face is Outline,
    }
}

/// What holds of an entity that `gen_entity` made of a kind, a relationship
/// and a position: it has them, a sprite of its kind, the colour of its
/// relationship, and it is walkable exactly if it is ground.
pub open spec fn is_spawn_of(
    entity: Entity,
    mode: EntityMode,
    relationship: EntityRelationship,
    pos: Position,
) -> bool {
    &&& entity.mode == mode
    &&& entity.relationship == relationship
    &&& entity.pos == pos
    &&& entity.characteristics.walkable == mode_is_walkable(mode)
    &&& entity.characteristics.color == spec_relationship_color(relationship)
    &&& face_fits(mode, entity.characteristics.face)
}

/// Makes an entity with a fresh id. Walls and ground get one of their sprites
/// at random.
pub fn gen_entity(
    entity_mode: EntityMode,
    entity_relationship: EntityRelationship,
    position: Position,
) -> (entity: Entity)
    ensures
        is_spawn_of(entity, entity_mode, entity_relationship, position),
{
    let entity_characteristics = EntityCharacteristics {
        face: match entity_mode {
            EntityMode::BrickWall => get_random_brick_wall(),
            EntityMode::Player => TileNames::NakedPlayer,
            EntityMode::NPC => TileNames::NPC,
            EntityMode::Mob => TileNames::Outline,
            EntityMode::Ground => get_random_ground(),
        },
        color: relationship_color(entity_relationship),
        walkable: match entity_mode {
            EntityMode::BrickWall => false,
            EntityMode::Player => false,
            EntityMode::NPC => false,
            EntityMode::Mob => false,
            EntityMode::Ground => true,
        },
    };
    Entity {
        id: Uuid::new_v4(),
        mode: entity_mode,
        relationship: entity_relationship,
        characteristics: entity_characteristics,
        pos: position,
    }
}

/// The quotient of two integers, rounded towards zero.
pub open spec fn truncated_quotient(a: int, b: int) -> int {
    if a >= 0 {
        a / b
    } else {
        -((-a) / b)
    }
}

/// The settings of a window of the given height and width that shows the
/// given number of rows and columns: a tile is as wide as the window's width
/// divided by the columns, and as high as its height divided by the rows,
/// each rounded towards zero.
pub open spec fn settings_for(
    window_height: i32,
    window_width: i32,
    window_rows: i32,
    window_columns: i32,
    font_size: i32,
) -> Settings {
    Settings {
        window: WindowSettings { height: window_height, width: window_width },
        graphic: GraphicSettings {
            tile_height: truncated_quotient(window_height as int, window_rows as int) as i32,
            tile_width: truncated_quotient(window_width as int, window_columns as int) as i32,
            font_offset_x: 10,
            font_offset_y: 5,
            font_size,
            rows: window_rows,
            columns: window_columns,
        },
    }
}

/// Works out the settings of a window. There must be rows and columns to
/// divide by, and the quotients must fit.
pub fn get_settings(
    window_height: i32,
    window_width: i32,
    window_rows: i32,
    window_columns: i32,
    font_size: i32,
) -> (settings: Settings)
    requires
        window_rows != 0,
        window_columns != 0,
        !(window_height == i32::MIN && window_rows == -1),
        !(window_width == i32::MIN && window_columns == -1),
    ensures
        settings == settings_for(
            window_height,
            window_width,
            window_rows,
            window_columns,
            font_size,
        ),
{
    let window_settings = WindowSettings { height: window_height, width: window_width };
    let tile_width = window_settings.width / window_columns;
    let tile_height = window_settings.height / window_rows;
    let graphic_settings = GraphicSettings {
        tile_width,
        tile_height,
        font_offset_x: 10,
        font_offset_y: 5,
        font_size,
        rows: window_rows,
        columns: window_columns,
    };
    Settings { window: window_settings, graphic: graphic_settings }
}

/// A character on the neighbouring cell bars the step, whatever kind of
/// character it is and whatever its own `walkable` flag says.
pub proof fn lemma_character_bars_move(pos: Position, side: Direction, game: &Game, i: int)
    requires
        0 <= i < game.entities@.len(),
        stands_at(game.entities@[i], pos.x + side.dx(), pos.y + side.dy()),
    ensures
        !move_allowed(pos, side, game),
{
}

/// A structure on the neighbouring cell that cannot be walked over bars the
/// step.
pub proof fn lemma_obstacle_bars_move(pos: Position, side: Direction, game: &Game, i: int)
    requires
        0 <= i < game.buildings@.len(),
        stands_at(game.buildings@[i], pos.x + side.dx(), pos.y + side.dy()),
        !game.buildings@[i].characteristics.walkable,
    ensures
        !move_allowed(pos, side, game),
{
}

/// A step onto a cell that holds a structure is allowed if no character
/// stands there and every structure there can be walked over.
pub proof fn lemma_walkable_structure_allows_move(
    pos: Position,
    side: Direction,
    game: &Game,
    i: int,
)
    requires
        0 <= i < game.buildings@.len(),
        stands_at(game.buildings@[i], pos.x + side.dx(), pos.y + side.dy()),
        !character_at(game.entities@, pos.x + side.dx(), pos.y + side.dy()),
        forall|j: int|
            0 <= j < game.buildings@.len() && stands_at(
                #[trigger] game.buildings@[j],
                pos.x + side.dx(),
                pos.y + side.dy(),
            ) ==> game.buildings@[j].characteristics.walkable,
    ensures
        move_allowed(pos, side, game),
{
}

/// Whether `(x, y)` is a cell where a new character may be put: inside the
/// columns from 1 up to but not including `max_cols` and the rows from 1 up to
/// but not including `max_rows`, with no character on it.
pub open spec fn is_free_cell(
    entities: Seq<Entity>,
    max_cols: int,
    max_rows: int,
    x: int,
    y: int,
) -> bool {
    1 <= x < max_cols && 1 <= y < max_rows && !character_at(entities, x, y)
}

/// Whether cell `a` comes before cell `b` when the board is read row by row.
pub open spec fn comes_before(a: Position, b: Position) -> bool {
    a.y < b.y || (a.y == b.y && a.x < b.x)
}

/// The free cells of the board, read row by row, each once.
pub open spec fn is_free_cell_list(
    cells: Seq<Position>,
    entities: Seq<Entity>,
    max_cols: int,
    max_rows: int,
) -> bool {
    &&& forall|k: int|
        0 <= k < cells.len() ==> is_free_cell(
            entities,
            max_cols,
            max_rows,
            (#[trigger] cells[k]).x as int,
            cells[k].y as int,
        )
    &&& forall|x: int, y: int| #[trigger]
        is_free_cell(entities, max_cols, max_rows, x, y) ==> cells.contains(
            Position { x: x as i32, y: y as i32 },
        )
    &&& forall|j: int, k: int| 0 <= j < k < cells.len() ==> comes_before(cells[j], cells[k])
}

/// Lists the cells where a new character may be put.
pub fn free_positions(entities: &Vec<Entity>, max_cols: i32, max_rows: i32) -> (cells: Vec<Position>)
    ensures
        is_free_cell_list(cells@, entities@, max_cols as int, max_rows as int),
{
    let mut cells: Vec<Position> = Vec::new();
    let mut y: i32 = 1;
    while y < max_rows
        invariant
            1 <= y,
            y <= max_rows || max_rows < 1,
            forall|k: int|
                0 <= k < cells@.len() ==> is_free_cell(
                    entities@,
                    max_cols as int,
                    max_rows as int,
                    (#[trigger] cells@[k]).x as int,
                    cells@[k].y as int,
                ) && cells@[k].y < y,
            forall|cx: int, cy: int| #[trigger]
                is_free_cell(entities@, max_cols as int, max_rows as int, cx, cy) && cy < y
                    ==> cells@.contains(Position { x: cx as i32, y: cy as i32 }),
            forall|j: int, k: int| 0 <= j < k < cells@.len() ==> comes_before(cells@[j], cells@[k]),
        decreases max_rows - y,
    {
        let mut x: i32 = 1;
        while x < max_cols
            invariant
                1 <= y < max_rows,
                1 <= x,
                x <= max_cols || max_cols < 1,
                forall|k: int|
                    0 <= k < cells@.len() ==> is_free_cell(
                        entities@,
                        max_cols as int,
                        max_rows as int,
                        (#[trigger] cells@[k]).x as int,
                        cells@[k].y as int,
                    ) && (cells@[k].y < y || (cells@[k].y == y && cells@[k].x < x)),
                forall|cx: int, cy: int| #[trigger]
                    is_free_cell(entities@, max_cols as int, max_rows as int, cx, cy) && (cy < y
                        || (cy == y && cx < x)) ==> cells@.contains(
                        Position { x: cx as i32, y: cy as i32 },
                    ),
                forall|j: int, k: int|
                    0 <= j < k < cells@.len() ==> comes_before(cells@[j], cells@[k]),
            decreases max_cols - x,
        {
            let pos = Position { x, y };
            let ghost before = cells@;
            if position_free(&pos, entities) {
                cells.push(pos);
                proof {
                    assert(cells@[before.len() as int] == pos);
                }
            }
            proof {
                assert forall|cx: int, cy: int| #[trigger]
                    is_free_cell(entities@, max_cols as int, max_rows as int, cx, cy) && (cy < y
                        || (cy == y && cx < x + 1)) implies cells@.contains(
                    Position { x: cx as i32, y: cy as i32 },
                ) by {
                    let cell = Position { x: cx as i32, y: cy as i32 };
                    if cy < y || cx < x {
                        assert(before.contains(cell));
                        let k = choose|k: int| 0 <= k < before.len() && before[k] == cell;
                        assert(cells@[k] == cell);
                    } else {
                        assert(cell == pos);
                    }
                }
            }
            x += 1;
        }
        y += 1;
    }
    cells
}

/// Picks a free cell of the board at random, each with the same chance, or
/// `None` if the board has no free cell.
pub fn gen_random_position(entities: &Vec<Entity>, max_cols: i32, max_rows: i32) -> (position:
    Option<Position>)
    ensures
        position matches Some(p) ==> is_free_cell(
            entities@,
            max_cols as int,
            max_rows as int,
            p.x as int,
            p.y as int,
        ),
        position is None <==> forall|x: int, y: int|
            !#[trigger] is_free_cell(entities@, max_cols as int, max_rows as int, x, y),
{
    let cells = free_positions(entities, max_cols, max_rows);
    if cells.len() == 0 {
        proof {
            assert forall|x: int, y: int|
                !#[trigger] is_free_cell(entities@, max_cols as int, max_rows as int, x, y) by {
                if is_free_cell(entities@, max_cols as int, max_rows as int, x, y) {
                    assert(cells@.contains(Position { x: x as i32, y: y as i32 }));
                }
            }
        }
        None
    } else {
        let pick = random_in_range(0, cells.len() - 1);
        let chosen = cells[pick];
        proof {
            assert(is_free_cell(
                entities@,
                max_cols as int,
                max_rows as int,
                chosen.x as int,
                chosen.y as int,
            ));
        }
        Some(chosen)
    }
}

} // verus!

use crate::state::domain::{
    Direction, Entity, EntityMode, EntityRelationship, Game, MoveCommands, Position, Settings,
};
use crate::state::helpers::{
    after_commands, after_step, character_at, gen_entity, gen_random_position, is_free_cell,
    is_spawn_of, move_random, moved_to, stands_at, update_player,
};
use vstd::arithmetic::div_mod::{
    lemma_div_pos_is_pos, lemma_fundamental_div_mod, lemma_fundamental_div_mod_converse,
    lemma_mod_pos_bound, lemma_multiply_divide_lt,
};
use vstd::prelude::*;

verus! {

/// What one tick does to one character. The player follows its commands. An
/// NPC or a mob tries one step to some side. Anything else stays as it is.
/// Every move is judged against the snapshot as it was before the tick.
pub open spec fn turn_outcome(
    before: Entity,
    after: Entity,
    commands: MoveCommands,
    game: &Game,
) -> bool {
    match before.mode {
        EntityMode::Player => after == moved_to(before, after_commands(before.pos, commands, game)),
        EntityMode::NPC | EntityMode::Mob => exists|side: Direction|
            after == moved_to(before, #[trigger] after_step(before.pos, side, game)),
        _ => after == before,
    }
}

/// Advances the game by one tick and returns the next snapshot. The list of
/// characters keeps its length and order, and each character its identity;
/// only positions change. The structures pass through unchanged, and the new
/// snapshot carries the settings given.
pub fn update_game_states(game: &Game, settings: &Settings, commands: &MoveCommands) -> (next: Game)
    ensures
        next.settings == *settings,
        next.buildings@ == game.buildings@,
        next.entities@.len() == game.entities@.len(),
        forall|i: int|
            0 <= i < game.entities@.len() ==> turn_outcome(
                game.entities@[i],
                #[trigger] next.entities@[i],
                *commands,
                game,
            ),
{
    let mut new_entities: Vec<Entity> = Vec::new();
    let mut i: usize = 0;
    while i < game.entities.len()
        invariant
            i <= game.entities.len(),
            new_entities@.len() == i,
            forall|k: int|
                0 <= k < i ==> turn_outcome(
                    game.entities@[k],
                    #[trigger] new_entities@[k],
                    *commands,
                    game,
                ),
        decreases game.entities.len() - i,
    {
        let mut entity = game.entities[i].clone();
        match entity.mode {
            EntityMode::Player => {
                update_player(&mut entity, commands, game);
            },
            EntityMode::NPC => {
                let tried = move_random(&mut entity, game);
                assert(entity == moved_to(game.entities@[i as int], after_step(game.entities@[i as int].pos, tried, game)));
            },
            EntityMode::Mob => {
                let tried = move_random(&mut entity, game);
                assert(entity == moved_to(game.entities@[i as int], after_step(game.entities@[i as int].pos, tried, game)));
            },
            _ => {},
        }
        new_entities.push(entity);
        i += 1;
    }
    let buildings = game.buildings.clone();
    assert(buildings@ =~= game.buildings@);
    Game { entities: new_entities, settings: *settings, buildings }
}

/// The column of the `k`-th cell of a board whose columns run from 1 to
/// `width`, counted row by row from 0.
pub open spec fn nth_cell_x(k: int, width: int) -> int {
    1 + k % width
}

/// The row of the `k`-th cell of such a board.
pub open spec fn nth_cell_y(k: int, width: int) -> int {
    1 + k / width
}

/// If each of the first `count` cells of a board holds a character, there are
/// at least `count` characters: no character stands on two cells.
pub proof fn lemma_occupied_cells_need_characters(entities: Seq<Entity>, width: int, count: int)
    requires
        width > 0,
        count >= 0,
        forall|k: int|
            0 <= k < count ==> character_at(
                entities,
                #[trigger] nth_cell_x(k, width),
                nth_cell_y(k, width),
            ),
    ensures
        entities.len() >= count,
    decreases count,
{
    if count > 0 {
        let last = count - 1;
        let x = nth_cell_x(last, width);
        let y = nth_cell_y(last, width);
        assert(character_at(entities, x, y));
        let i = choose|i: int| 0 <= i < entities.len() && stands_at(#[trigger] entities[i], x, y);
        let rest = entities.remove(i);
        assert forall|k: int| 0 <= k < last implies character_at(
            rest,
            #[trigger] nth_cell_x(k, width),
            nth_cell_y(k, width),
        ) by {
            let kx = nth_cell_x(k, width);
            let ky = nth_cell_y(k, width);
            assert(character_at(entities, kx, ky));
            let j = choose|j: int|
                0 <= j < entities.len() && stands_at(#[trigger] entities[j], kx, ky);
            lemma_fundamental_div_mod(k, width);
            lemma_fundamental_div_mod(last, width);
            if j < i {
                assert(stands_at(rest[j], kx, ky));
            } else {
                assert(j != i);
                assert(stands_at(rest[j - 1], kx, ky));
            }
        }
        lemma_occupied_cells_need_characters(rest, width, last);
    }
}

/// A board with more cells than there are characters has a free cell.
pub proof fn lemma_free_cell_exists(entities: Seq<Entity>, max_cols: int, max_rows: int)
    requires
        max_cols >= 1,
        max_rows >= 1,
        (max_cols - 1) * (max_rows - 1) > entities.len(),
    ensures
        exists|x: int, y: int| is_free_cell(entities, max_cols, max_rows, x, y),
{
    let width = max_cols - 1;
    let height = max_rows - 1;
    assert(width > 0) by (nonlinear_arith)
        requires
            width >= 0,
            height >= 0,
            width * height > 0,
    ;
    if forall|x: int, y: int| !is_free_cell(entities, max_cols, max_rows, x, y) {
        let count = entities.len() + 1;
        assert forall|k: int| 0 <= k < count implies character_at(
            entities,
            #[trigger] nth_cell_x(k, width),
            nth_cell_y(k, width),
        ) by {
            lemma_mod_pos_bound(k, width);
            lemma_div_pos_is_pos(k, width);
            lemma_multiply_divide_lt(k, width, height);
            assert(!is_free_cell(
                entities,
                max_cols,
                max_rows,
                nth_cell_x(k, width),
                nth_cell_y(k, width),
            ));
        }
        lemma_occupied_cells_need_characters(entities, width, count as int);
    }
}

/// How many characters a game starts with: the player, five NPCs and five
/// mobs.
pub const CAST_SIZE: usize = 11;

/// Where the player starts.
pub open spec fn player_start() -> Position {
    Position { x: 1, y: 1 }
}

/// How many cells a board of the given settings has inside its walls.
pub open spec fn spawn_cells(settings: Settings) -> int {
    if settings.graphic.columns > 2 && settings.graphic.rows > 2 {
        (settings.graphic.columns - 2) * (settings.graphic.rows - 2)
    } else {
        0
    }
}

/// Whether a cell lies inside the walls of the board.
pub open spec fn in_spawn_range(settings: Settings, pos: Position) -> bool {
    1 <= pos.x < settings.graphic.columns - 1 && 1 <= pos.y < settings.graphic.rows - 1
}

/// The kind of the `index`-th character of the starting cast.
pub open spec fn cast_mode(index: int) -> EntityMode {
    if index == 0 {
        EntityMode::Player
    } else if index <= 5 {
        EntityMode::NPC
    } else {
        EntityMode::Mob
    }
}

/// How the `index`-th character of the starting cast stands towards the
/// player: the player is neutral, NPCs are friends, mobs are foes.
pub open spec fn cast_relationship(index: int) -> EntityRelationship {
    if index == 0 {
        EntityRelationship::Neutral
    } else if index <= 5 {
        EntityRelationship::Friendly
    } else {
        EntityRelationship::Foe
    }
}

/// The first `count` characters of a starting cast: the player on its
/// starting cell, then NPCs, then mobs, each of these inside the walls, and
/// no two characters on one cell.
pub open spec fn is_cast_prefix(list: Seq<Entity>, settings: Settings, count: int) -> bool {
    &&& list.len() == count
    &&& forall|i: int|
        0 <= i < count ==> is_spawn_of(
            #[trigger] list[i],
            cast_mode(i),
            cast_relationship(i),
            list[i].pos,
        )
    &&& count > 0 ==> list[0].pos == player_start()
    &&& forall|i: int| 1 <= i < count ==> in_spawn_range(settings, (#[trigger] list[i]).pos)
    &&& forall|i: int, j: int|
        0 <= i < j < count ==> (#[trigger] list[i]).pos != (#[trigger] list[j]).pos
}

/// The characters that a game starts with.
pub open spec fn is_starting_cast(list: Seq<Entity>, settings: Settings) -> bool {
    is_cast_prefix(list, settings, CAST_SIZE as int)
}

/// Adds `count` characters of one kind to the cast, each on a free cell drawn
/// at random.
fn spawn_characters(
    cast: &mut Vec<Entity>,
    settings: &Settings,
    mode: EntityMode,
    relationship: EntityRelationship,
    count: usize,
)
    requires
        spawn_cells(*settings) >= CAST_SIZE,
        1 <= old(cast)@.len(),
        old(cast)@.len() + count <= CAST_SIZE,
        is_cast_prefix(old(cast)@, *settings, old(cast)@.len() as int),
        forall|i: int|
            old(cast)@.len() <= i < old(cast)@.len() + count ==> cast_mode(i) == mode
                && cast_relationship(i) == relationship,
    ensures
        is_cast_prefix(final(cast)@, *settings, old(cast)@.len() + count),
{
    let max_cols = settings.graphic.columns - 1;
    let max_rows = settings.graphic.rows - 1;
    let ghost start = cast@.len();
    let mut made: usize = 0;
    while made < count
        invariant
            made <= count,
            start + count <= CAST_SIZE,
            1 <= start,
            spawn_cells(*settings) >= CAST_SIZE,
            max_cols == settings.graphic.columns - 1,
            max_rows == settings.graphic.rows - 1,
            is_cast_prefix(cast@, *settings, start + made),
            forall|i: int|
                start <= i < start + count ==> cast_mode(i) == mode && cast_relationship(i)
                    == relationship,
        decreases count - made,
    {
        proof {
            lemma_free_cell_exists(cast@, max_cols as int, max_rows as int);
        }
        let found = gen_random_position(cast, max_cols, max_rows);
        let position = found.unwrap();
        let character = gen_entity(mode, relationship, position);
        let ghost before = cast@;
        cast.push(character);
        proof {
            let len = before.len() as int;
            assert(cast@[len] == character);
            assert forall|i: int, j: int| 0 <= i < j < len + 1 implies (#[trigger] cast@[i]).pos != (
            #[trigger] cast@[j]).pos by {
                if j == len {
                    assert(!stands_at(before[i], position.x as int, position.y as int));
                } else {
                    assert(before[i].pos != before[j].pos);
                }
            }
        }
        made += 1;
    }
}

/// The characters that a game starts with: the player on cell (1, 1), then
/// five friendly NPCs and five hostile mobs, each on a cell inside the walls
/// drawn at random from those still free. `None` if the board has fewer than
/// eleven cells inside its walls.
pub fn get_starting_entities(settings: &Settings) -> (cast: Option<Vec<Entity>>)
    ensures
        cast is Some <==> spawn_cells(*settings) >= CAST_SIZE,
        cast matches Some(list) ==> is_starting_cast(list@, *settings),
{
    let columns = settings.graphic.columns;
    let rows = settings.graphic.rows;
    if columns < 3 || rows < 3 {
        return None;
    }
    let inner_columns: i64 = columns as i64 - 2;
    let inner_rows: i64 = rows as i64 - 2;
    assert(inner_columns * inner_rows <= 0x8000_0000 * 0x8000_0000) by (nonlinear_arith)
        requires
            0 <= inner_columns <= 0x8000_0000,
            0 <= inner_rows <= 0x8000_0000,
    ;
    assert(0 <= inner_columns * inner_rows) by (nonlinear_arith)
        requires
            0 <= inner_columns,
            0 <= inner_rows,
    ;
    if inner_columns * inner_rows < 11 {
        return None;
    }
    let mut to_return: Vec<Entity> = Vec::new();
    let player = gen_entity(EntityMode::Player, EntityRelationship::Neutral, Position { x: 1, y: 1 });
    to_return.push(player);
    spawn_characters(&mut to_return, settings, EntityMode::NPC, EntityRelationship::Friendly, 5);
    spawn_characters(&mut to_return, settings, EntityMode::Mob, EntityRelationship::Foe, 5);
    Some(to_return)
}

/// A count that a loop runs through: the number itself, or zero if it is
/// negative.
pub open spec fn span(n: int) -> int {
    if n > 0 {
        n
    } else {
        0
    }
}

/// How many structures a board starts with: two walls for each column, two
/// for each row, and one ground tile for each cell inside.
pub open spec fn layout_len(settings: Settings) -> int {
    2 * span(settings.graphic.columns as int) + 2 * span(settings.graphic.rows as int) + span(
        settings.graphic.rows - 2,
    ) * span(settings.graphic.columns - 2)
}

/// The kind of the `index`-th structure of the starting layout: the walls
/// come first, then the ground.
pub open spec fn layout_mode(settings: Settings, index: int) -> EntityMode {
    if index < 2 * span(settings.graphic.columns as int) + 2 * span(settings.graphic.rows as int) {
        EntityMode::BrickWall
    } else {
        EntityMode::Ground
    }
}

/// The cell of the `index`-th structure of the starting layout.
///
/// First, column by column, a wall in row 0 and one in row `columns - 1`;
/// then, row by row, a wall in column 0 and one in column `rows - 1`; then
/// the ground inside, row by row. On a square board the walls close a ring.
pub open spec fn layout_pos(settings: Settings, index: int) -> Position {
    let columns = settings.graphic.columns as int;
    let rows = settings.graphic.rows as int;
    let inner = span(columns - 2);
    if index < 2 * span(columns) {
        let n = index / 2;
        if index % 2 == 0 {
            Position { x: n as i32, y: 0 }
        } else {
            Position { x: n as i32, y: (columns - 1) as i32 }
        }
    } else if index < 2 * span(columns) + 2 * span(rows) {
        let k = index - 2 * span(columns);
        let n = k / 2;
        if k % 2 == 0 {
            Position { x: 0, y: n as i32 }
        } else {
            Position { x: (rows - 1) as i32, y: n as i32 }
        }
    } else {
        let k = index - 2 * span(columns) - 2 * span(rows);
        Position { x: (1 + k % inner) as i32, y: (1 + k / inner) as i32 }
    }
}

/// Whether a structure is what the starting layout has at `index`.
pub open spec fn is_layout_entry(entity: Entity, settings: Settings, index: int) -> bool {
    is_spawn_of(
        entity,
        layout_mode(settings, index),
        EntityRelationship::Unrelated,
        layout_pos(settings, index),
    )
}

/// The structures that a board starts with, in order.
pub open spec fn is_starting_layout(buildings: Seq<Entity>, settings: Settings) -> bool {
    &&& buildings.len() == layout_len(settings)
    &&& forall|i: int|
        0 <= i < buildings.len() ==> is_layout_entry(#[trigger] buildings[i], settings, i)
}

/// The structures that a game starts with: brick walls along the edges of the
/// board and ground on every cell inside.
pub fn get_starting_buildings(settings: &Settings) -> (buildings: Vec<Entity>)
    ensures
        is_starting_layout(buildings@, *settings),
{
    let columns = settings.graphic.columns;
    let rows = settings.graphic.rows;
    let mut buildings: Vec<Entity> = Vec::new();
    let mut n: i32 = 0;
    while n < columns
        invariant
            0 <= n,
            n <= span(columns as int),
            columns == settings.graphic.columns,
            rows == settings.graphic.rows,
            buildings@.len() == 2 * n,
            forall|i: int|
                0 <= i < buildings@.len() ==> is_layout_entry(#[trigger] buildings@[i], *settings, i),
        decreases columns - n,
    {
        buildings.push(
            gen_entity(EntityMode::BrickWall, EntityRelationship::Unrelated, Position { x: n, y: 0 }),
        );
        buildings.push(
            gen_entity(
                EntityMode::BrickWall,
                EntityRelationship::Unrelated,
                Position { x: n, y: columns - 1 },
            ),
        );
        n += 1;
    }
    let ghost after_columns = 2 * span(columns as int);
    let mut n: i32 = 0;
    while n < rows
        invariant
            0 <= n,
            n <= span(rows as int),
            columns == settings.graphic.columns,
            rows == settings.graphic.rows,
            after_columns == 2 * span(columns as int),
            buildings@.len() == after_columns + 2 * n,
            forall|i: int|
                0 <= i < buildings@.len() ==> is_layout_entry(#[trigger] buildings@[i], *settings, i),
        decreases rows - n,
    {
        buildings.push(
            gen_entity(EntityMode::BrickWall, EntityRelationship::Unrelated, Position { x: 0, y: n }),
        );
        buildings.push(
            gen_entity(
                EntityMode::BrickWall,
                EntityRelationship::Unrelated,
                Position { x: rows - 1, y: n },
            ),
        );
        n += 1;
    }
    let ghost after_walls = 2 * span(columns as int) + 2 * span(rows as int);
    if rows > 2 && columns > 2 {
        let ghost inner = columns - 2;
        let mut y: i32 = 1;
        while y < rows - 1
            invariant
                1 <= y <= rows - 1,
                rows > 2,
                columns > 2,
                inner == columns - 2,
                columns == settings.graphic.columns,
                rows == settings.graphic.rows,
                after_walls == 2 * span(columns as int) + 2 * span(rows as int),
                buildings@.len() == after_walls + (y - 1) * inner,
                forall|i: int|
                    0 <= i < buildings@.len() ==> is_layout_entry(
                        #[trigger] buildings@[i],
                        *settings,
                        i,
                    ),
            decreases rows - y,
        {
            let mut x: i32 = 1;
            while x < columns - 1
                invariant
                    1 <= y < rows - 1,
                    1 <= x <= columns - 1,
                    rows > 2,
                    columns > 2,
                    inner == columns - 2,
                    columns == settings.graphic.columns,
                    rows == settings.graphic.rows,
                    after_walls == 2 * span(columns as int) + 2 * span(rows as int),
                    buildings@.len() == after_walls + (y - 1) * inner + (x - 1),
                    forall|i: int|
                        0 <= i < buildings@.len() ==> is_layout_entry(
                            #[trigger] buildings@[i],
                            *settings,
                            i,
                        ),
                decreases columns - x,
            {
                proof {
                    let k = (y - 1) * inner + (x - 1);
                    lemma_fundamental_div_mod_converse(k, inner, y - 1, x - 1);
                    assert(0 <= (y - 1) * inner) by (nonlinear_arith)
                        requires
                            y >= 1,
                            inner > 0,
                    ;
                }
                buildings.push(
                    gen_entity(EntityMode::Ground, EntityRelationship::Unrelated, Position { x, y }),
                );
                x += 1;
            }
            proof {
                assert(y * inner == (y - 1) * inner + inner) by (nonlinear_arith);
            }
            y += 1;
        }
    } else {
        proof {
            assert(span(rows - 2) * span(columns - 2) == 0) by (nonlinear_arith)
                requires
                    span(rows - 2) == 0 || span(columns - 2) == 0,
            ;
        }
    }
    buildings
}

} // verus!

use crate::draw::TileNames;
use uuid::Uuid;
use vstd::prelude::*;

verus! {

/// `uuid::Uuid`, the identity of an entity. Opaque here: an entity carries
/// its id along unchanged, and nothing in this library looks inside one.
#[verifier::external_type_specification]
#[verifier::external_body]
pub struct ExUuid(Uuid);

/// `uuid::Uuid::new_v4`: a fresh random id. Nothing is claimed of the id that
/// comes back.
pub assume_specification[ Uuid::new_v4 ]() -> (id: Uuid)
;

/// How an entity stands towards the player. Static structures stand in no
/// relation to anyone: they are `Unrelated`.
#[derive(Debug, Clone, Copy, PartialEq, Eq, Structural)]
pub enum EntityRelationship {
    Foe,
    Friendly,
    Neutral,
    Unrelated,
}

/// What kind of thing an entity is: the two kinds of static structure, and
/// the three kinds of character.
#[derive(Debug, Clone, Copy, PartialEq, Eq, Structural)]
pub enum EntityMode {
    BrickWall,
    Ground,
    Player,
    NPC,
    Mob,
}

/// A colour as red, green, blue and opacity.
#[derive(Debug, Clone, Copy, PartialEq, Eq, Structural)]
pub struct Color {
    pub r: u8,
    pub g: u8,
    pub b: u8,
    pub a: u8,
}

/// How an entity looks, and whether others may step onto its cell.
#[derive(Debug, Clone, Copy, PartialEq, Eq, Structural)]
pub struct EntityCharacteristics {
    pub face: TileNames,
    pub color: Color,
    pub walkable: bool,
}

/// A cell of the board. The type sets no bounds: the board's size does.
#[derive(Debug, Clone, Copy, PartialEq, Eq, Structural)]
pub struct Position {
    pub x: i32,
    pub y: i32,
}

/// A character or a static structure on the board.
#[derive(Debug, PartialEq, Eq)]
pub struct Entity {
    pub id: Uuid,
    pub mode: EntityMode,
    pub relationship: EntityRelationship,
    pub characteristics: EntityCharacteristics,
    pub pos: Position,
}

#[derive(Debug, Clone, Copy, PartialEq, Eq, Structural)]
pub struct GraphicSettings {
    pub tile_height: i32,
    pub tile_width: i32,
    pub font_offset_x: i32,
    pub font_offset_y: i32,
    pub font_size: i32,
    pub rows: i32,
    pub columns: i32,
}

#[derive(Debug, Clone, Copy, PartialEq, Eq, Structural)]
pub struct WindowSettings {
    pub height: i32,
    pub width: i32,
}

#[derive(Debug, Clone, Copy, PartialEq, Eq, Structural)]
pub struct Settings {
    pub window: WindowSettings,
    pub graphic: GraphicSettings,
}

/// One snapshot of the board: the characters, the static structures, and the
/// settings they were laid out for.
#[derive(Debug, PartialEq, Eq)]
pub struct Game {
    pub entities: Vec<Entity>,
    pub buildings: Vec<Entity>,
    pub settings: Settings,
}

/// The four ways to step from one cell to a neighbour. `Up` is towards
/// smaller `y`.
#[derive(Debug, Clone, Copy, PartialEq, Eq, Structural)]
pub enum Direction {
    Left,
    Right,
    Up,
    Down,
}

/// Which of the four movement commands were given in one tick. More than one
/// may be set.
#[derive(Debug, Clone, Copy, PartialEq, Eq, Structural)]
pub struct MoveCommands {
    pub left: bool,
    pub right: bool,
    pub down: bool,
    pub up: bool,
}

impl Clone for Entity {
    fn clone(&self) -> (copy: Self)
        ensures
            copy == *self,
    {
        Entity {
            id: self.id,
            mode: self.mode,
            relationship: self.relationship,
            characteristics: self.characteristics,
            pos: self.pos,
        }
    }
}

impl Direction {
    /// The step along `x`.
    pub open spec fn dx(self) -> int {
        match self {
            Direction::Left => -1,
            Direction::Right => 1,
            _ => 0,
        }
    }

    /// The step along `y`.
    pub open spec fn dy(self) -> int {
        match self {
            Direction::Up => -1,
            Direction::Down => 1,
            _ => 0,
        }
    }
}

impl Position {
    /// Whether a pair of integers is a cell that a `Position` can name.
    pub open spec fn representable(x: int, y: int) -> bool {
        i32::MIN <= x <= i32::MAX && i32::MIN <= y <= i32::MAX
    }

    /// The neighbour one step away, where it is representable.
    pub open spec fn shifted(self, side: Direction) -> Position
        recommends
            Self::representable(self.x + side.dx(), self.y + side.dy()),
    {
        Position { x: (self.x + side.dx()) as i32, y: (self.y + side.dy()) as i32 }
    }

    /// The neighbour one step away, or `None` where the step would leave the
    /// range of the coordinates.
    pub fn neighbour(&self, side: Direction) -> (cell: Option<Position>)
        ensures
            cell is Some <==> Self::representable(self.x + side.dx(), self.y + side.dy()),
            cell matches Some(p) ==> p == self.shifted(side),
    {
        let (x, y) = match side {
            Direction::Left => (self.x.checked_sub(1), Some(self.y)),
            Direction::Right => (self.x.checked_add(1), Some(self.y)),
            Direction::Up => (Some(self.x), self.y.checked_sub(1)),
            Direction::Down => (Some(self.x), self.y.checked_add(1)),
        };
        match (x, y) {
            (Some(x), Some(y)) => Some(Position { x, y }),
            _ => None,
        }
    }
}

impl MoveCommands {
    /// No command at all.
    pub fn none() -> (commands: MoveCommands)
        ensures
            commands == (MoveCommands { left: false, right: false, down: false, up: false }),
    {
        MoveCommands { left: false, right: false, down: false, up: false }
    }

    /// The commands of a tick in which at most one direction was asked for.
    pub open spec fn spec_from_command(command: Option<Direction>) -> MoveCommands {
        MoveCommands {
            left: command == Some(Direction::Left),
            right: command == Some(Direction::Right),
            down: command == Some(Direction::Down),
            up: command == Some(Direction::Up),
        }
    }

    #[verifier::when_used_as_spec(spec_from_command)]
    pub fn from_command(command: Option<Direction>) -> (commands: MoveCommands)
        ensures
            commands == Self::spec_from_command(command),
    {
        match command {
            Some(Direction::Left) => MoveCommands { left: true, right: false, down: false, up: false },
            Some(Direction::Right) => MoveCommands {
                left: false,
                right: true,
                down: false,
                up: false,
            },
            Some(Direction::Down) => MoveCommands { left: false, right: false, down: true, up: false },
            Some(Direction::Up) => MoveCommands { left: false, right: false, down: false, up: true },
            None => MoveCommands { left: false, right: false, down: false, up: false },
        }
    }
}

} // verus!

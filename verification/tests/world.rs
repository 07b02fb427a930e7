use poorguelike::domain::map::{
    Room, RoomTile, StairsDirection, Terrain, TerrainName, TerrainVariant, UVec2D,
};
use poorguelike::tools::debug::{room_text, tile_face};
use poorguelike::world::generators::{
    make_room, pick_terrain, place_staircases, place_stairs_at, prepare_world,
    prepare_world_sized, stair_candidates, WorldError,
};

fn size(x: usize, y: usize) -> UVec2D {
    UVec2D { x, y }
}

fn count_stairs(room: &Room, direction: StairsDirection) -> usize {
    room.tiles.iter().filter(|tile| tile.stairs == Some(direction)).count()
}

fn stairs_cell(room: &Room, direction: StairsDirection) -> Option<usize> {
    room.tiles.iter().position(|tile| tile.stairs == Some(direction))
}

fn on_border(room: &Room, x: usize, y: usize) -> bool {
    x == 0 || x + 1 == room.size.x || y == 0 || y + 1 == room.size.y
}

fn assert_ring_of_wall(room: &Room) {
    assert_eq!(room.tiles.len(), room.size.x * room.size.y);
    for y in 0..room.size.y {
        for x in 0..room.size.x {
            let tile = room.tile_at(x, y).unwrap();
            assert_eq!(tile.terrain.is_wall(), on_border(room, x, y));
            assert_eq!(tile.terrain.terrain().traversable, !on_border(room, x, y));
            assert_eq!(tile.terrain, TerrainVariant::from_name(tile.terrain.name()));
        }
    }
}

fn plain_tile(name: TerrainName, stairs: Option<StairsDirection>) -> RoomTile {
    RoomTile {
        stairs,
        terrain: TerrainVariant::from_name(name),
        entities: Vec::new(),
        actors: Vec::new(),
    }
}

#[test]
fn catalog_has_four_grounds_and_two_walls() {
    let names = [
        TerrainName::Dirt1,
        TerrainName::Dirt2,
        TerrainName::Grass1,
        TerrainName::Grass2,
        TerrainName::BrickWall1,
        TerrainName::BrickWall2,
    ];
    let walls = names.iter().filter(|name| name.is_wall()).count();
    assert_eq!(walls, 2);
    for name in names {
        let variant = TerrainVariant::from_name(name);
        assert_eq!(variant.name(), name);
        assert_eq!(variant.is_wall(), name.is_wall());
        assert_eq!(variant.terrain().traversable, !name.is_wall());
    }
    assert_eq!(
        TerrainVariant::from_name(TerrainName::Grass2),
        TerrainVariant::Grass2(Terrain {
            traversable: true,
            face: poorguelike::domain::entities::Face {},
        })
    );
}

#[test]
fn a_wall_is_a_wall_by_its_name() {
    let odd = TerrainVariant::BrickWall1(Terrain {
        traversable: true,
        face: poorguelike::domain::entities::Face {},
    });
    assert!(odd.is_wall());
    assert!(odd.terrain().traversable);
}

#[test]
fn pick_terrain_counts_through_the_catalog() {
    assert_eq!(pick_terrain(true, 0), TerrainName::BrickWall1);
    assert_eq!(pick_terrain(true, 1), TerrainName::BrickWall2);
    assert_eq!(pick_terrain(false, 0), TerrainName::Dirt1);
    assert_eq!(pick_terrain(false, 1), TerrainName::Dirt2);
    assert_eq!(pick_terrain(false, 2), TerrainName::Grass1);
    assert_eq!(pick_terrain(false, 3), TerrainName::Grass2);
}

#[test]
fn generated_room_has_wall_border_and_ground_inside() {
    for (x, y) in [(10, 10), (3, 3), (4, 7), (7, 4), (3, 12)] {
        let room = make_room(size(x, y));
        assert_eq!(room.size, size(x, y));
        assert_ring_of_wall(&room);
    }
}

#[test]
fn generated_room_is_bare() {
    let room = make_room(size(6, 5));
    for tile in &room.tiles {
        assert_eq!(tile.stairs, None);
        assert!(tile.entities.is_empty());
        assert!(tile.actors.is_empty());
    }
}

#[test]
fn room_of_three_by_three_has_eight_walls_and_one_ground() {
    let room = make_room(size(3, 3));
    let walls = room.tiles.iter().filter(|tile| tile.terrain.is_wall()).count();
    assert_eq!(walls, 8);
    assert_eq!(room.tiles.len() - walls, 1);
    assert!(!room.tiles[4].terrain.is_wall());
    assert!(room.tiles[4].terrain.terrain().traversable);
}

#[test]
fn thin_rooms_are_all_wall() {
    for (x, y) in [(1, 1), (1, 5), (5, 1), (2, 2), (2, 6), (6, 2)] {
        let room = make_room(size(x, y));
        assert_eq!(room.tiles.len(), x * y);
        assert!(room.tiles.iter().all(|tile| tile.terrain.is_wall()));
    }
}

#[test]
fn rooms_without_width_or_height_have_no_tiles() {
    assert!(make_room(size(0, 0)).tiles.is_empty());
    assert!(make_room(size(0, 4)).tiles.is_empty());
    assert!(make_room(size(4, 0)).tiles.is_empty());
}

#[test]
fn terrain_draws_vary() {
    let room = make_room(size(10, 10));
    let first = room.tiles[11].terrain.name();
    let inside_varies = (1..9).any(|y| (1..9).any(|x| room.tiles[y * 10 + x].terrain.name() != first));
    assert!(inside_varies);
    let corner = room.tiles[0].terrain.name();
    assert!(room.tiles.iter().any(|t| t.terrain.is_wall() && t.terrain.name() != corner));
}

#[test]
fn tile_at_reads_rows_and_columns() {
    let room = Room {
        tiles: vec![
            plain_tile(TerrainName::BrickWall1, None),
            plain_tile(TerrainName::Dirt1, None),
            plain_tile(TerrainName::Dirt2, None),
            plain_tile(TerrainName::Grass1, None),
            plain_tile(TerrainName::Grass2, None),
            plain_tile(TerrainName::BrickWall2, None),
        ],
        size: size(3, 2),
    };
    assert_eq!(room.tile_at(0, 0).unwrap().terrain.name(), TerrainName::BrickWall1);
    assert_eq!(room.tile_at(2, 0).unwrap().terrain.name(), TerrainName::Dirt2);
    assert_eq!(room.tile_at(0, 1).unwrap().terrain.name(), TerrainName::Grass1);
    assert_eq!(room.tile_at(2, 1).unwrap().terrain.name(), TerrainName::BrickWall2);
    assert!(room.tile_at(3, 0).is_none());
    assert!(room.tile_at(0, 2).is_none());
    assert!(room.tile_at(usize::MAX, usize::MAX).is_none());
}

#[test]
fn tile_at_of_a_short_room_is_none_past_the_tiles() {
    let room = Room { tiles: vec![plain_tile(TerrainName::Dirt1, None)], size: size(2, 2) };
    assert!(room.tile_at(0, 0).is_some());
    assert!(room.tile_at(1, 0).is_none());
    assert!(room.tile_at(1, 1).is_none());
}

#[test]
fn stair_candidates_of_three_by_three_is_the_middle() {
    let room = make_room(size(3, 3));
    assert_eq!(stair_candidates(&room, StairsDirection::Up), vec![4]);
    assert_eq!(stair_candidates(&room, StairsDirection::Down), vec![4]);
}

#[test]
fn stair_candidates_are_the_inside_cells_in_order() {
    let room = make_room(size(4, 4));
    assert_eq!(stair_candidates(&room, StairsDirection::Up), vec![5, 6, 9, 10]);
    assert_eq!(stair_candidates(&room, StairsDirection::Down), vec![5, 6, 9, 10]);
}

#[test]
fn exit_candidates_leave_out_cells_with_stairs() {
    let mut room = make_room(size(4, 4));
    place_stairs_at(&mut room, 6, StairsDirection::Up);
    assert_eq!(stair_candidates(&room, StairsDirection::Up), vec![5, 6, 9, 10]);
    assert_eq!(stair_candidates(&room, StairsDirection::Down), vec![5, 9, 10]);
}

#[test]
fn place_stairs_at_marks_one_cell() {
    let mut room = make_room(size(4, 3));
    let names: Vec<TerrainName> = room.tiles.iter().map(|t| t.terrain.name()).collect();
    place_stairs_at(&mut room, 5, StairsDirection::Down);
    assert_eq!(room.size, size(4, 3));
    for (i, tile) in room.tiles.iter().enumerate() {
        assert_eq!(tile.stairs, if i == 5 { Some(StairsDirection::Down) } else { None });
        assert_eq!(tile.terrain.name(), names[i]);
    }
}

#[test]
fn place_staircases_without_flags_changes_nothing() {
    let mut room = make_room(size(1, 1));
    place_staircases(&mut room, false, false);
    assert_eq!(room.tiles.len(), 1);
    assert_eq!(room.tiles[0].stairs, None);
}

#[test]
fn place_staircases_places_what_is_wanted() {
    for (entrance, exit) in [(true, false), (false, true), (true, true)] {
        for _ in 0..20 {
            let mut room = make_room(size(5, 4));
            place_staircases(&mut room, entrance, exit);
            assert_ring_of_wall(&room);
            assert_eq!(count_stairs(&room, StairsDirection::Up), usize::from(entrance));
            assert_eq!(count_stairs(&room, StairsDirection::Down), usize::from(exit));
            for tile in &room.tiles {
                if tile.stairs.is_some() {
                    assert!(!tile.terrain.is_wall());
                    assert!(tile.terrain.terrain().traversable);
                }
            }
        }
    }
}

#[test]
fn entrance_and_exit_never_share_a_cell() {
    for _ in 0..50 {
        let mut room = make_room(size(4, 3));
        place_staircases(&mut room, true, true);
        let up = stairs_cell(&room, StairsDirection::Up).unwrap();
        let down = stairs_cell(&room, StairsDirection::Down).unwrap();
        assert_ne!(up, down);
        let mut both = vec![up, down];
        both.sort();
        assert_eq!(both, vec![5, 6]);
    }
}

#[test]
fn stair_draws_vary() {
    let mut seen = Vec::new();
    for _ in 0..200 {
        let mut room = make_room(size(10, 10));
        place_staircases(&mut room, true, false);
        let cell = stairs_cell(&room, StairsDirection::Up).unwrap();
        if !seen.contains(&cell) {
            seen.push(cell);
        }
    }
    assert!(seen.len() > 1);
}

#[test]
fn world_of_one_room_is_refused() {
    assert_eq!(prepare_world(1).unwrap_err(), WorldError::NotEnoughRooms);
    assert_eq!(prepare_world(0).unwrap_err(), WorldError::NotEnoughRooms);
    assert_eq!(prepare_world_sized(1, size(10, 10)).unwrap_err(), WorldError::NotEnoughRooms);
    assert_eq!(prepare_world_sized(1, size(0, 0)).unwrap_err(), WorldError::NotEnoughRooms);
}

#[test]
fn world_of_two_rooms_has_two_rooms() {
    let world = prepare_world(2).unwrap();
    assert_eq!(world.len(), 2);
    for room in &world {
        assert_eq!(room.size, size(10, 10));
        assert_eq!(room.tiles.len(), 100);
    }
}

#[test]
fn two_rooms_of_three_by_three_put_their_stairs_in_the_middle() {
    for _ in 0..10 {
        let world = prepare_world_sized(2, size(3, 3)).unwrap();
        assert_eq!(world.len(), 2);
        assert_eq!(count_stairs(&world[0], StairsDirection::Up), 0);
        assert_eq!(count_stairs(&world[0], StairsDirection::Down), 1);
        assert_eq!(world[0].tiles[4].stairs, Some(StairsDirection::Down));
        assert_eq!(count_stairs(&world[1], StairsDirection::Up), 1);
        assert_eq!(count_stairs(&world[1], StairsDirection::Down), 0);
        assert_eq!(world[1].tiles[4].stairs, Some(StairsDirection::Up));
    }
}

#[test]
fn world_rooms_get_stairs_by_their_place() {
    for rooms in [2usize, 3, 4, 7] {
        let world = prepare_world(rooms).unwrap();
        assert_eq!(world.len(), rooms);
        for (index, room) in world.iter().enumerate() {
            let entrances = count_stairs(room, StairsDirection::Up);
            let exits = count_stairs(room, StairsDirection::Down);
            assert_eq!(entrances, if index == 0 { 0 } else { 1 });
            assert_eq!(exits, if index == rooms - 1 { 0 } else { 1 });
            assert_ring_of_wall(room);
            for tile in &room.tiles {
                assert!(tile.entities.is_empty());
                assert!(tile.actors.is_empty());
                if tile.stairs.is_some() {
                    assert!(tile.terrain.terrain().traversable);
                }
            }
            if entrances == 1 && exits == 1 {
                assert_ne!(
                    stairs_cell(room, StairsDirection::Up),
                    stairs_cell(room, StairsDirection::Down)
                );
            }
        }
    }
}

#[test]
fn rooms_too_small_for_their_stairs_are_refused() {
    for (x, y) in [(0, 0), (1, 1), (2, 2), (2, 10), (10, 2), (0, 10)] {
        assert_eq!(prepare_world_sized(2, size(x, y)).unwrap_err(), WorldError::RoomTooSmall);
    }
    assert_eq!(prepare_world_sized(3, size(3, 3)).unwrap_err(), WorldError::RoomTooSmall);
    assert_eq!(prepare_world_sized(9, size(3, 3)).unwrap_err(), WorldError::RoomTooSmall);
}

#[test]
fn rooms_just_large_enough_are_accepted() {
    assert_eq!(prepare_world_sized(2, size(3, 3)).unwrap().len(), 2);
    let wide = prepare_world_sized(3, size(4, 3)).unwrap();
    assert_eq!(wide.len(), 3);
    let middle = &wide[1];
    let mut cells = vec![
        stairs_cell(middle, StairsDirection::Up).unwrap(),
        stairs_cell(middle, StairsDirection::Down).unwrap(),
    ];
    cells.sort();
    assert_eq!(cells, vec![5, 6]);
    let tall = prepare_world_sized(3, size(3, 4)).unwrap();
    let middle = &tall[1];
    let mut cells = vec![
        stairs_cell(middle, StairsDirection::Up).unwrap(),
        stairs_cell(middle, StairsDirection::Down).unwrap(),
    ];
    cells.sort();
    assert_eq!(cells, vec![4, 7]);
}

#[test]
fn tile_faces() {
    assert_eq!(tile_face(&plain_tile(TerrainName::BrickWall1, None)), '#');
    assert_eq!(tile_face(&plain_tile(TerrainName::BrickWall2, None)), '#');
    assert_eq!(tile_face(&plain_tile(TerrainName::Dirt1, None)), '.');
    assert_eq!(tile_face(&plain_tile(TerrainName::Dirt2, None)), ',');
    assert_eq!(tile_face(&plain_tile(TerrainName::Grass1, None)), '\'');
    assert_eq!(tile_face(&plain_tile(TerrainName::Grass2, None)), '"');
    assert_eq!(tile_face(&plain_tile(TerrainName::Dirt1, Some(StairsDirection::Up))), '▲');
    assert_eq!(tile_face(&plain_tile(TerrainName::Grass2, Some(StairsDirection::Down))), '▼');
}

#[test]
fn room_text_breaks_after_each_row() {
    let room = Room {
        tiles: vec![
            plain_tile(TerrainName::BrickWall1, None),
            plain_tile(TerrainName::Dirt1, None),
            plain_tile(TerrainName::Dirt2, Some(StairsDirection::Up)),
            plain_tile(TerrainName::Grass1, None),
            plain_tile(TerrainName::Grass2, Some(StairsDirection::Down)),
            plain_tile(TerrainName::BrickWall2, None),
        ],
        size: size(3, 2),
    };
    let text: String = room_text(&room).into_iter().collect();
    assert_eq!(text, "#.▲\n\t'▼#\n\t");
}

#[test]
fn room_text_of_a_room_without_tiles_is_empty() {
    assert!(room_text(&make_room(size(0, 0))).is_empty());
    assert!(room_text(&make_room(size(0, 3))).is_empty());
}

#[test]
fn room_text_of_a_generated_room() {
    let mut room = make_room(size(3, 3));
    place_staircases(&mut room, false, true);
    let text: String = room_text(&room).into_iter().collect();
    assert_eq!(text, "###\n\t#▼#\n\t###\n\t");
}

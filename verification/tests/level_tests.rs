use tile_walker::level::{character_step, is_within_bounds, Level};
use tile_walker::scene::{SceneColor, SceneGraph, ScreenObject};
use tile_walker::tilemap::{Tile, TileMap};
use tile_walker::{CHAR_SPEED_FP, SUBPIX, TILE_FP};

const SCREEN_W: i64 = 1200 * SUBPIX;
const SCREEN_H: i64 = 700 * SUBPIX;

fn wall_row(width: usize) -> Vec<Tile> {
    vec![Tile::Wall; width]
}

fn three_by_three_center_floor() -> TileMap {
    let mut tiles = vec![wall_row(3), wall_row(3), wall_row(3)];
    tiles[1][1] = Tile::Floor;
    TileMap {
        width: 3,
        height: 3,
        tiles,
    }
}

/// A 5x5 map whose floor is a corridor across row 2: cells (1,2), (2,2), (3,2).
fn corridor_map() -> TileMap {
    let mut tiles = vec![wall_row(5), wall_row(5), wall_row(5), wall_row(5), wall_row(5)];
    tiles[2][1] = Tile::Floor;
    tiles[2][2] = Tile::Floor;
    tiles[2][3] = Tile::Floor;
    TileMap {
        width: 5,
        height: 5,
        tiles,
    }
}

/// Places the character at a chosen cell after `prepare`, keeping the
/// container centered on it, so movement tests start from a known spot.
fn place_character(level: &mut Level, cell_x: i64, cell_y: i64) {
    let ci = level.scene.nodes.len() - 1;
    level.scene.nodes[ci].x = cell_x * TILE_FP;
    level.scene.nodes[ci].y = cell_y * TILE_FP;
    level.scene.nodes[1].x = SCREEN_W / 2 - cell_x * TILE_FP;
    level.scene.nodes[1].y = SCREEN_H / 2 - cell_y * TILE_FP;
}

#[test]
fn prepare_builds_the_expected_scene() {
    let map = three_by_three_center_floor();
    let mut level = Level::with_map(map, SCREEN_W, SCREEN_H);
    level.prepare(SCREEN_W, SCREEN_H);
    // 8 wall cells: root + container + 8 walls + character
    assert_eq!(level.scene.nodes.len(), 11);
    let root = &level.scene.nodes[0];
    assert_eq!((root.x, root.y), (0, 0));
    assert_eq!(root.children, vec![1]);
    let container = &level.scene.nodes[1];
    assert_eq!(container.parent, Some(0));
    assert_eq!(container.width, 3 * TILE_FP);
    assert_eq!(container.height, 3 * TILE_FP);
    assert_eq!(container.color, SceneColor::White);
    assert_eq!(container.children, vec![2, 3, 4, 5, 6, 7, 8, 9, 10]);
    // wall tiles in row-major order; the center cell is skipped
    let expected_cells = [
        (0, 0), (1, 0), (2, 0),
        (0, 1), (2, 1),
        (0, 2), (1, 2), (2, 2),
    ];
    for (j, (cx, cy)) in expected_cells.iter().enumerate() {
        let wall = &level.scene.nodes[j + 2];
        assert_eq!(wall.x, cx * TILE_FP);
        assert_eq!(wall.y, cy * TILE_FP);
        assert_eq!(wall.color, SceneColor::Gray);
        assert_eq!(wall.parent, Some(1));
    }
    // the character spawned on the only floor cell, and the container is
    // offset so its absolute position is the window center
    let character = &level.scene.nodes[10];
    assert_eq!((character.x, character.y), (TILE_FP, TILE_FP));
    assert_eq!(character.color, SceneColor::Yellow);
    assert_eq!(level.scene.nodes[1].x, SCREEN_W / 2 - TILE_FP);
    assert_eq!(level.scene.nodes[1].y, SCREEN_H / 2 - TILE_FP);
    let abs = level.scene.get_absolute_position(10);
    assert_eq!(abs, (SCREEN_W / 2, SCREEN_H / 2));
}

#[test]
fn absolute_position_composes_along_the_chain() {
    let chain = vec![
        ScreenObject {
            x: 10,
            y: 10,
            width: 100,
            height: 100,
            color: SceneColor::LightGray,
            parent: None,
            children: vec![1],
        },
        ScreenObject {
            x: 5,
            y: 5,
            width: 50,
            height: 50,
            color: SceneColor::White,
            parent: Some(0),
            children: vec![2],
        },
        ScreenObject {
            x: 2,
            y: 2,
            width: 10,
            height: 10,
            color: SceneColor::Yellow,
            parent: Some(1),
            children: vec![],
        },
    ];
    let scene = SceneGraph { nodes: chain };
    assert_eq!(scene.get_absolute_position(2), (17, 17));
    assert_eq!(scene.get_absolute_position(1), (15, 15));
    assert_eq!(scene.get_absolute_position(0), (10, 10));
}

#[test]
fn draw_list_paints_depth_first() {
    let map = three_by_three_center_floor();
    let mut level = Level::with_map(map, SCREEN_W, SCREEN_H);
    level.prepare(SCREEN_W, SCREEN_H);
    let rects = level.scene.draw_list(0);
    assert_eq!(rects.len(), 11);
    assert_eq!(rects[0].color, SceneColor::LightGray);
    assert_eq!(rects[1].color, SceneColor::White);
    for j in 2..10 {
        assert_eq!(rects[j].color, SceneColor::Gray);
    }
    assert_eq!(rects[10].color, SceneColor::Yellow);
    // the first wall tile, cell (0, 0), is painted at the container's offset
    assert_eq!(rects[2].x, level.scene.nodes[1].x);
    assert_eq!(rects[2].y, level.scene.nodes[1].y);
    // the character is painted at the window center
    assert_eq!((rects[10].x, rects[10].y), (SCREEN_W / 2, SCREEN_H / 2));
}

#[test]
fn character_step_divides_speed_by_fps() {
    assert_eq!(character_step(8), CHAR_SPEED_FP / 8);
    assert_eq!(character_step(60), CHAR_SPEED_FP / 60);
    assert_eq!(character_step(1), CHAR_SPEED_FP);
}

#[test]
fn walk_into_wall_leaves_position_unchanged() {
    let mut level = Level::with_map(corridor_map(), SCREEN_W, SCREEN_H);
    level.prepare(SCREEN_W, SCREEN_H);
    place_character(&mut level, 2, 2);
    let ci = level.scene.nodes.len() - 1;
    // north of the corridor is a wall; fps 8 gives a step of a quarter tile
    level.handle_walk_input(true, false, false, false, 8, SCREEN_W, SCREEN_H);
    assert_eq!(level.scene.nodes[ci].x, 2 * TILE_FP);
    assert_eq!(level.scene.nodes[ci].y, 2 * TILE_FP);
}

#[test]
fn walk_onto_floor_moves_exactly_one_step() {
    let mut level = Level::with_map(corridor_map(), SCREEN_W, SCREEN_H);
    level.prepare(SCREEN_W, SCREEN_H);
    place_character(&mut level, 2, 2);
    let ci = level.scene.nodes.len() - 1;
    let step = character_step(8);
    // east along the corridor is clear
    level.handle_walk_input(false, false, false, true, 8, SCREEN_W, SCREEN_H);
    assert_eq!(level.scene.nodes[ci].x, 2 * TILE_FP + step);
    assert_eq!(level.scene.nodes[ci].y, 2 * TILE_FP);
}

#[test]
fn held_keys_apply_independently() {
    let mut level = Level::with_map(corridor_map(), SCREEN_W, SCREEN_H);
    level.prepare(SCREEN_W, SCREEN_H);
    place_character(&mut level, 2, 2);
    let ci = level.scene.nodes.len() - 1;
    let step = character_step(8);
    // south is walled off, east is open: only the east move applies
    level.handle_walk_input(false, false, true, true, 8, SCREEN_W, SCREEN_H);
    assert_eq!(level.scene.nodes[ci].x, 2 * TILE_FP + step);
    assert_eq!(level.scene.nodes[ci].y, 2 * TILE_FP);
}

#[test]
fn camera_stays_put_inside_dead_zone_and_scrolls_outside() {
    let mut level = Level::with_map(corridor_map(), SCREEN_W, SCREEN_H);
    level.prepare(SCREEN_W, SCREEN_H);
    place_character(&mut level, 2, 2);
    let container_x = level.scene.nodes[1].x;
    let container_y = level.scene.nodes[1].y;
    // the character starts at the window center; one full-speed move east
    // stays inside the middle-half dead-zone, so the container holds still
    level.move_character(CHAR_SPEED_FP, 0, SCREEN_W, SCREEN_H);
    assert_eq!(level.scene.nodes[1].x, container_x);
    assert_eq!(level.scene.nodes[1].y, container_y);
    // the next move crosses the dead-zone's right edge: the container
    // shifts by exactly the negated displacement
    level.move_character(CHAR_SPEED_FP, 0, SCREEN_W, SCREEN_H);
    assert_eq!(level.scene.nodes[1].x, container_x - CHAR_SPEED_FP);
    assert_eq!(level.scene.nodes[1].y, container_y);
}

#[test]
fn centering_the_container_ignores_the_character() {
    let mut level = Level::with_map(corridor_map(), SCREEN_W, SCREEN_H);
    level.prepare(SCREEN_W, SCREEN_H);
    level.center_map_container(SCREEN_W, SCREEN_H);
    assert_eq!(level.scene.nodes[1].x, SCREEN_W / 2 - 5 * TILE_FP / 2);
    assert_eq!(level.scene.nodes[1].y, SCREEN_H / 2 - 5 * TILE_FP / 2);
    // centering again changes nothing: the framing has no memory
    level.center_map_container(SCREEN_W, SCREEN_H);
    assert_eq!(level.scene.nodes[1].x, SCREEN_W / 2 - 5 * TILE_FP / 2);
    assert_eq!(level.scene.nodes[1].y, SCREEN_H / 2 - 5 * TILE_FP / 2);
}

#[test]
fn generated_level_starts_centered_on_a_floor_cell() {
    let mut level = Level::new(SCREEN_W, SCREEN_H);
    // the root covers the whole window in the light-gray background tone
    let root = &level.scene.nodes[0];
    assert_eq!((root.width, root.height), (SCREEN_W, SCREEN_H));
    assert_eq!(root.color, SceneColor::LightGray);
    assert!(level.map.has_floor_cell());
    level.prepare(SCREEN_W, SCREEN_H);
    let ci = level.scene.nodes.len() - 1;
    let character = &level.scene.nodes[ci];
    let cell_x = (character.x / TILE_FP) as usize;
    let cell_y = (character.y / TILE_FP) as usize;
    assert_eq!(level.map.tiles[cell_y][cell_x], Tile::Floor);
    assert_eq!(level.scene.get_absolute_position(ci), (SCREEN_W / 2, SCREEN_H / 2));
}

#[test]
fn within_bounds_checks_the_whole_box() {
    let bounds = ((100, 100), (100 + 3 * TILE_FP, 100 + 3 * TILE_FP));
    assert!(is_within_bounds(100, 100, bounds));
    assert!(is_within_bounds(100 + 2 * TILE_FP, 100 + 2 * TILE_FP, bounds));
    assert!(!is_within_bounds(99, 100, bounds));
    assert!(!is_within_bounds(100 + 2 * TILE_FP + 1, 100, bounds));
}

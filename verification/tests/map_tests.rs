use tile_walker::tilemap::{generate_map, get_map_position, Tile, TileMap};
use tile_walker::{HITBOX_MARGIN_FP, TILE_FP};

fn wall_row(width: usize) -> Vec<Tile> {
    vec![Tile::Wall; width]
}

fn three_by_three_center_floor() -> TileMap {
    let mut tiles = vec![wall_row(3), wall_row(3), wall_row(3)];
    tiles[1][1] = Tile::Floor;
    TileMap {
        width: 3,
        height: 3,
        tiles,
    }
}

#[test]
fn border_cells_are_walls() {
    let m = generate_map(25, 25);
    assert_eq!(m.tiles.len(), 25);
    for y in 0..25 {
        assert_eq!(m.tiles[y].len(), 25);
        for x in 0..25 {
            if y == 0 || y == 24 || x == 0 || x == 24 {
                assert_eq!(m.tiles[y][x], Tile::Wall);
            }
        }
    }
}

#[test]
fn interior_wall_fraction_near_one_fifth() {
    let mut walls: u64 = 0;
    let mut cells: u64 = 0;
    for _ in 0..200 {
        let m = generate_map(25, 25);
        for y in 1..24 {
            for x in 1..24 {
                cells += 1;
                if m.tiles[y][x] == Tile::Wall {
                    walls += 1;
                }
            }
        }
    }
    let fraction = walls as f64 / cells as f64;
    assert!(
        fraction > 0.19 && fraction < 0.21,
        "interior wall fraction {} out of tolerance",
        fraction
    );
}

#[test]
fn spawn_lands_on_a_floor_cell() {
    for _ in 0..20 {
        let m = generate_map(25, 25);
        let (x, y) = m.spawn_cell().expect("a generated map always has floor cells");
        assert!(x < 25 && y < 25);
        assert_eq!(m.tiles[y][x], Tile::Floor);
    }
}

#[test]
fn spawn_on_all_wall_map_is_refused() {
    let m = TileMap {
        width: 3,
        height: 3,
        tiles: vec![wall_row(3), wall_row(3), wall_row(3)],
    };
    assert!(!m.has_floor_cell());
    assert_eq!(m.spawn_cell(), None);
}

#[test]
fn has_floor_cell_finds_the_center() {
    let m = three_by_three_center_floor();
    assert!(m.has_floor_cell());
    assert_eq!(m.spawn_cell(), Some((1, 1)));
}

#[test]
fn map_position_floors_subpixel_coordinates() {
    assert_eq!(get_map_position(0, 0), (0, 0));
    assert_eq!(get_map_position(TILE_FP - 1, TILE_FP), (0, 1));
    assert_eq!(get_map_position(2 * TILE_FP + 5, 3 * TILE_FP + TILE_FP - 1), (2, 3));
}

#[test]
fn collision_blocked_when_all_corners_in_border_cell() {
    let m = three_by_three_center_floor();
    // at (0, 0) all four inset corners stay inside cell (0, 0), a wall
    assert!(m.collides_with_a_wall(0, 0));
}

#[test]
fn collision_clear_at_exact_center_cell() {
    let m = three_by_three_center_floor();
    // at the center cell's pixel position all corners stay in the floor cell
    assert!(!m.collides_with_a_wall(TILE_FP, TILE_FP));
}

#[test]
fn collision_detects_partial_overlap() {
    let m = three_by_three_center_floor();
    // nudged left far enough that the left corners cross into column 0
    assert!(m.collides_with_a_wall(TILE_FP - HITBOX_MARGIN_FP - 1, TILE_FP));
    // a nudge within the hitbox margin is still clear
    assert!(!m.collides_with_a_wall(TILE_FP - HITBOX_MARGIN_FP, TILE_FP));
}

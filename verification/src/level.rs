use vstd::prelude::*;

use crate::scene::{abs_x, abs_y, node_wf, SceneColor, SceneGraph, ScreenObject, MAX_COORD};
use crate::tilemap::{
    collides_spec, generate_map, query_in_extent, wall_cells, wall_cells_row, wall_cells_rows,
    Tile, TileMap,
};
use crate::{CHAR_SPEED_FP, HITBOX_MARGIN_FP, MAP_HEIGHT, MAP_WIDTH, TILE_FP};

verus! {

/// The owner of one generated map and of the scene graph built from it.
/// After `prepare`, the scene holds the root at index 0, the map container
/// at index 1, one wall tile per wall cell in row-major order, and the
/// character as the container's last child.
pub struct Level {
    pub map: TileMap,
    pub scene: SceneGraph,
}

/// Node `n` is the wall tile of cell `c` (a `(column, row)` pair): a
/// gray, tile-sized child of the map container at the cell's pixel
/// position.
pub open spec fn wall_node_matches(n: ScreenObject, c: (int, int)) -> bool {
    &&& n.x == c.0 * TILE_FP
    &&& n.y == c.1 * TILE_FP
    &&& n.width == TILE_FP
    &&& n.height == TILE_FP
    &&& n.color == SceneColor::Gray
    &&& n.parent == Some(1usize)
    &&& n.children@.len() == 0
}

impl Level {
    /// Index of the character node: the last node of the arena.
    pub open spec fn char_idx(self) -> int {
        self.scene.nodes@.len() - 1
    }

    pub open spec fn char_node(self) -> ScreenObject {
        self.scene.nodes@[self.char_idx()]
    }

    pub open spec fn container_node(self) -> ScreenObject {
        self.scene.nodes@[1]
    }

    /// The scene graph has the shape that `prepare` builds; movement and
    /// camera updates keep it.
    pub open spec fn prepared(self) -> bool {
        let nodes = self.scene.nodes@;
        let walls = wall_cells(self.map);
        &&& self.map.wf()
        &&& self.scene.wf()
        &&& nodes.len() == 3 + walls.len()
        &&& nodes[0].parent is None
        &&& nodes[0].x == 0
        &&& nodes[0].y == 0
        &&& nodes[0].children@ =~= seq![1usize]
        &&& nodes[1].parent == Some(0usize)
        &&& nodes[1].width == self.map.width * TILE_FP
        &&& nodes[1].height == self.map.height * TILE_FP
        &&& nodes[1].color == SceneColor::White
        &&& nodes[1].children@.len() == walls.len() + 1
        &&& forall|k: int|
            0 <= k < nodes[1].children@.len() ==> #[trigger] nodes[1].children@[k] == k + 2
        &&& forall|j: int|
            0 <= j < walls.len() ==> wall_node_matches(#[trigger] nodes[j + 2], walls[j])
        &&& nodes[self.char_idx()].parent == Some(1usize)
        &&& nodes[self.char_idx()].width == TILE_FP
        &&& nodes[self.char_idx()].height == TILE_FP
        &&& nodes[self.char_idx()].color == SceneColor::Yellow
        &&& nodes[self.char_idx()].children@.len() == 0
    }

    /// Builds a level around a given map: the map plus a root node that
    /// covers the whole window.
    pub fn with_map(map: TileMap, screen_w: i64, screen_h: i64) -> (r: Level)
        requires
            map.wf(),
            0 <= screen_w <= 0x40000000,
            0 <= screen_h <= 0x40000000,
        ensures
            r.map == map,
            r.scene.wf(),
            r.scene.nodes@.len() == 1,
            r.scene.nodes@[0].x == 0,
            r.scene.nodes@[0].y == 0,
            r.scene.nodes@[0].width == screen_w,
            r.scene.nodes@[0].height == screen_h,
            r.scene.nodes@[0].color == SceneColor::LightGray,
            r.scene.nodes@[0].parent is None,
            r.scene.nodes@[0].children@.len() == 0,
    {
        let root = ScreenObject {
            x: 0,
            y: 0,
            width: screen_w,
            height: screen_h,
            color: SceneColor::LightGray,
            parent: None,
            children: Vec::new(),
        };
        let mut nodes: Vec<ScreenObject> = Vec::new();
        nodes.push(root);
        Level { map, scene: SceneGraph { nodes } }
    }

    /// Builds a level around a freshly generated map.
    pub fn new(screen_w: i64, screen_h: i64) -> (r: Level)
        requires
            0 <= screen_w <= 0x40000000,
            0 <= screen_h <= 0x40000000,
        ensures
            r.map.wf(),
            r.map.width == MAP_WIDTH,
            r.map.height == MAP_HEIGHT,
            forall|y: int, x: int|
                0 <= y < r.map.height && 0 <= x < r.map.width && r.map.is_border(y, x)
                    ==> r.map.tile_at(y, x) == Tile::Wall,
            r.scene.wf(),
            r.scene.nodes@.len() == 1,
            r.scene.nodes@[0].x == 0,
            r.scene.nodes@[0].y == 0,
            r.scene.nodes@[0].width == screen_w,
            r.scene.nodes@[0].height == screen_h,
            r.scene.nodes@[0].color == SceneColor::LightGray,
            r.scene.nodes@[0].parent is None,
            r.scene.nodes@[0].children@.len() == 0,
    {
        let map = generate_map(MAP_WIDTH, MAP_HEIGHT);
        Level::with_map(map, screen_w, screen_h)
    }

    /// Builds the scene graph: the map container centered on the spawned
    /// character, one wall tile per wall cell in row-major order, and the
    /// character, placed by rejection sampling on a floor cell. The
    /// container is then offset so that the character's absolute position
    /// is exactly the window center.
    pub fn prepare(&mut self, screen_w: i64, screen_h: i64)
        requires
            old(self).map.wf(),
            old(self).map.has_floor(),
            old(self).scene.nodes@.len() == 1,
            old(self).scene.nodes@[0].x == 0,
            old(self).scene.nodes@[0].y == 0,
            old(self).scene.nodes@[0].parent is None,
            old(self).scene.nodes@[0].children@.len() == 0,
            0 <= old(self).scene.nodes@[0].width <= MAX_COORD,
            0 <= old(self).scene.nodes@[0].height <= MAX_COORD,
            0 <= screen_w <= 0x40000000,
            0 <= screen_h <= 0x40000000,
        ensures
            final(self).prepared(),
            final(self).map == old(self).map,
            final(self).scene.nodes@[0].width == old(self).scene.nodes@[0].width,
            final(self).scene.nodes@[0].height == old(self).scene.nodes@[0].height,
            final(self).scene.nodes@[0].color == old(self).scene.nodes@[0].color,
            // the character spawned on a floor cell
            exists|cx: int, cy: int|
                0 <= cx < old(self).map.width && 0 <= cy < old(self).map.height && old(
                    self,
                ).map.tile_at(cy, cx) == Tile::Floor && final(self).char_node().x == cx * TILE_FP
                    && final(self).char_node().y == cy * TILE_FP,
            // the container is recentered on the character
            final(self).container_node().x == screen_w / 2 - final(self).char_node().x,
            final(self).container_node().y == screen_h / 2 - final(self).char_node().y,
    {
        let ghost m = self.map;
        let width = self.map.width;
        let height = self.map.height;

        // wall tiles, one per wall cell, in row-major order
        let mut walls_vec: Vec<ScreenObject> = Vec::new();
        let mut cc: Vec<usize> = Vec::new();
        let mut y: usize = 0;
        while y < height
            invariant
                self.map == m,
                m.wf(),
                width == m.width,
                height == m.height,
                y <= height,
                walls_vec@.len() == wall_cells_rows(m, y as int).len(),
                cc@.len() == walls_vec@.len(),
                walls_vec@.len() <= y * width,
                forall|k: int| 0 <= k < cc@.len() ==> #[trigger] cc@[k] == k + 2,
                forall|j: int|
                    0 <= j < walls_vec@.len() ==> wall_node_matches(
                        #[trigger] walls_vec@[j],
                        wall_cells_rows(m, y as int)[j],
                    ),
            decreases height - y,
        {
            let mut x: usize = 0;
            proof {
                assert(wall_cells_row(m, y as int, 0) =~= Seq::<(int, int)>::empty());
            }
            while x < width
                invariant
                    self.map == m,
                    m.wf(),
                    width == m.width,
                    height == m.height,
                    y < height,
                    x <= width,
                    walls_vec@.len() == wall_cells_rows(m, y as int).len() + wall_cells_row(
                        m,
                        y as int,
                        x as int,
                    ).len(),
                    cc@.len() == walls_vec@.len(),
                    walls_vec@.len() <= y * width + x,
                    forall|k: int| 0 <= k < cc@.len() ==> #[trigger] cc@[k] == k + 2,
                    forall|j: int|
                        0 <= j < walls_vec@.len() ==> wall_node_matches(
                            #[trigger] walls_vec@[j],
                            (wall_cells_rows(m, y as int) + wall_cells_row(m, y as int, x as int))[j],
                        ),
                decreases width - x,
            {
                let ghost pre = wall_cells_rows(m, y as int) + wall_cells_row(m, y as int, x as int);
                if self.map.at(y, x) == Tile::Wall {
                    let idx = walls_vec.len();
                    proof {
                        assert(idx + 2 + 1 <= usize::MAX) by {
                            assert(idx <= y * width + x);
                            assert(y * width + x < 4096 * 4096) by (nonlinear_arith)
                                requires y < height, x < width, width <= 4096, height <= 4096;
                        }
                    }
                    walls_vec.push(
                        ScreenObject {
                            x: (x as i64) * TILE_FP,
                            y: (y as i64) * TILE_FP,
                            width: TILE_FP,
                            height: TILE_FP,
                            color: SceneColor::Gray,
                            parent: Some(1usize),
                            children: Vec::new(),
                        },
                    );
                    cc.push(idx + 2);
                }
                proof {
                    assert(wall_cells_row(m, y as int, x as int + 1) == wall_cells_row(
                        m,
                        y as int,
                        x as int,
                    ) + (if m.tile_at(y as int, x as int) == Tile::Wall {
                        seq![(x as int, y as int)]
                    } else {
                        Seq::<(int, int)>::empty()
                    }));
                }
                x = x + 1;
            }
            proof {
                assert(wall_cells_rows(m, y as int + 1) == wall_cells_rows(m, y as int)
                    + wall_cells_row(m, y as int, width as int));
                assert(y * width + width == (y + 1) * width) by (nonlinear_arith);
            }
            y = y + 1;
        }
        proof {
            assert(walls_vec@.len() <= height * width);
            assert(height * width <= 4096 * 4096) by (nonlinear_arith)
                requires width <= 4096, height <= 4096, 0 <= width, 0 <= height;
        }

        // spawn the character on a floor cell
        let spawn = self.map.spawn_cell();
        let (char_map_x, char_map_y) = match spawn {
            Some(c) => c,
            None => {
                // unreachable: the map has a floor cell
                proof {
                    assert(false);
                }
                (0, 0)
            },
        };
        let char_x = (char_map_x as i64) * TILE_FP;
        let char_y = (char_map_y as i64) * TILE_FP;
        proof {
            assert(char_x <= 4096 * TILE_FP) by (nonlinear_arith)
                requires char_map_x <= 4096, char_x == char_map_x * TILE_FP;
            assert(char_y <= 4096 * TILE_FP) by (nonlinear_arith)
                requires char_map_y <= 4096, char_y == char_map_y * TILE_FP;
        }
        let character = ScreenObject {
            x: char_x,
            y: char_y,
            width: TILE_FP,
            height: TILE_FP,
            color: SceneColor::Yellow,
            parent: Some(1usize),
            children: Vec::new(),
        };

        // the map container, its children being the wall tiles then the
        // character; its offset centers the window on the character
        let n_walls = walls_vec.len();
        cc.push(n_walls + 2);
        let map_w_px = (width as i64) * TILE_FP;
        let map_h_px = (height as i64) * TILE_FP;
        proof {
            assert(map_w_px <= 4096 * TILE_FP) by (nonlinear_arith)
                requires width <= 4096, map_w_px == width * TILE_FP;
            assert(map_h_px <= 4096 * TILE_FP) by (nonlinear_arith)
                requires height <= 4096, map_h_px == height * TILE_FP;
        }
        let container = ScreenObject {
            x: screen_w / 2 - char_x,
            y: screen_h / 2 - char_y,
            width: map_w_px,
            height: map_h_px,
            color: SceneColor::White,
            parent: Some(0usize),
            children: cc,
        };

        // the root keeps its size and color; its only child is the container
        let r0 = &self.scene.nodes[0];
        let mut root_children: Vec<usize> = Vec::new();
        root_children.push(1);
        let root = ScreenObject {
            x: 0,
            y: 0,
            width: r0.width,
            height: r0.height,
            color: r0.color,
            parent: None,
            children: root_children,
        };

        let mut nodes: Vec<ScreenObject> = Vec::new();
        nodes.push(root);
        nodes.push(container);
        let ghost walls_seq = walls_vec@;
        nodes.append(&mut walls_vec);
        nodes.push(character);
        self.scene = SceneGraph { nodes };

        proof {
            let nodes_seq = self.scene.nodes@;
            let walls = wall_cells(m);
            assert(walls == wall_cells_rows(m, height as int));
            assert(nodes_seq.len() == 3 + walls.len());
            assert forall|i: int| 0 <= i < nodes_seq.len() implies node_wf(nodes_seq, i) by {
                if i >= 2 && i < nodes_seq.len() - 1 {
                    assert(nodes_seq[i] == walls_seq[i - 2]);
                    assert(wall_node_matches(walls_seq[i - 2], walls[i - 2]));
                    assert(0 <= walls[i - 2].0 * TILE_FP <= MAX_COORD && 0 <= walls[i - 2].1
                        * TILE_FP <= MAX_COORD) by {
                        lemma_wall_cells_in_grid(m, height as int);
                        assert(0 <= walls[i - 2].0 < m.width && 0 <= walls[i - 2].1 < m.height);
                        assert(walls[i - 2].0 * TILE_FP <= 4096 * TILE_FP && walls[i - 2].0
                            * TILE_FP >= 0) by (nonlinear_arith)
                            requires 0 <= walls[i - 2].0 <= 4096;
                        assert(walls[i - 2].1 * TILE_FP <= 4096 * TILE_FP && walls[i - 2].1
                            * TILE_FP >= 0) by (nonlinear_arith)
                            requires 0 <= walls[i - 2].1 <= 4096;
                    }
                }
            }
            lemma_wall_cells_in_grid(m, height as int);
            assert(self.prepared());
            assert(self.char_node().x == char_map_x * TILE_FP);
        }
    }
}

/// Per-frame movement step in subpixels: a fixed distance per second
/// divided by the instantaneous frame rate.
pub fn character_step(fps: i32) -> (r: i64)
    requires
        fps >= 1,
    ensures
        r == CHAR_SPEED_FP as int / fps as int,
        0 <= r <= CHAR_SPEED_FP,
{
    proof {
        vstd::arithmetic::div_mod::lemma_div_pos_is_pos(CHAR_SPEED_FP as int, fps as int);
        vstd::arithmetic::div_mod::lemma_div_nonincreasing(CHAR_SPEED_FP as int, fps as int);
    }
    CHAR_SPEED_FP / (fps as i64)
}

/// A tile-sized box at `(x, y)` lies wholly inside the rectangle from
/// `(x0, y0)` to `(x1, y1)`.
pub open spec fn within_bounds_spec(x: int, y: int, x0: int, y0: int, x1: int, y1: int) -> bool {
    &&& x >= x0
    &&& x + TILE_FP <= x1
    &&& y >= y0
    &&& y + TILE_FP <= y1
}

/// The camera dead-zone: the middle half of the screen in each axis.
pub open spec fn camera_bounds(screen_w: int, screen_h: int) -> ((int, int), (int, int)) {
    ((screen_w / 4, screen_h / 4), (screen_w * 3 / 4, screen_h * 3 / 4))
}

pub fn is_within_bounds(x: i64, y: i64, bounds: ((i64, i64), (i64, i64))) -> (r: bool)
    requires
        -0x1000000000000 <= x <= 0x1000000000000,
        -0x1000000000000 <= y <= 0x1000000000000,
    ensures
        r == within_bounds_spec(
            x as int,
            y as int,
            bounds.0.0 as int,
            bounds.0.1 as int,
            bounds.1.0 as int,
            bounds.1.1 as int,
        ),
{
    x >= bounds.0.0 && x + TILE_FP <= bounds.1.0 && y >= bounds.0.1 && y + TILE_FP <= bounds.1.1
}

/// Position after one frame of input: each held direction key tries its
/// axis move in the order north, west, south, east, each checked against
/// the map at the position reached so far.
pub open spec fn walk_target(
    m: TileMap,
    x: int,
    y: int,
    step: int,
    w: bool,
    a: bool,
    s: bool,
    d: bool,
) -> (int, int) {
    let y1 = if w && !collides_spec(m, x, y - step) {
        y - step
    } else {
        y
    };
    let x1 = if a && !collides_spec(m, x - step, y1) {
        x - step
    } else {
        x
    };
    let y2 = if s && !collides_spec(m, x1, y1 + step) {
        y1 + step
    } else {
        y1
    };
    let x2 = if d && !collides_spec(m, x1 + step, y2) {
        x1 + step
    } else {
        x1
    };
    (x2, y2)
}

impl Level {
    /// Would the character's hitbox, placed at map-relative `(x, y)`,
    /// overlap any wall tile?
    pub fn collides_with_a_wall(&self, x: i64, y: i64) -> (r: bool)
        requires
            self.map.wf(),
            query_in_extent(self.map, x as int, y as int),
        ensures
            r == collides_spec(self.map, x as int, y as int),
    {
        self.map.collides_with_a_wall(x, y)
    }

    /// Moves the character by one frame's displacement and tracks the
    /// camera: if the character's new absolute position leaves the
    /// dead-zone, the map container shifts by the negated displacement,
    /// so the world scrolls under the character instead.
    pub fn move_character(&mut self, x_diff: i64, y_diff: i64, screen_w: i64, screen_h: i64)
        requires
            old(self).prepared(),
            -CHAR_SPEED_FP <= x_diff <= CHAR_SPEED_FP,
            -CHAR_SPEED_FP <= y_diff <= CHAR_SPEED_FP,
            0 <= screen_w <= 0x40000000,
            0 <= screen_h <= 0x40000000,
            -MAX_COORD <= old(self).char_node().x + x_diff <= MAX_COORD,
            -MAX_COORD <= old(self).char_node().y + y_diff <= MAX_COORD,
            -MAX_COORD <= old(self).container_node().x - x_diff <= MAX_COORD,
            -MAX_COORD <= old(self).container_node().y - y_diff <= MAX_COORD,
        ensures
            final(self).prepared(),
            final(self).map == old(self).map,
            final(self).scene.nodes@.len() == old(self).scene.nodes@.len(),
            final(self).char_node().x == old(self).char_node().x + x_diff,
            final(self).char_node().y == old(self).char_node().y + y_diff,
            ({
                let nx = abs_x(old(self).scene.nodes@, old(self).char_idx()) + x_diff;
                let ny = abs_y(old(self).scene.nodes@, old(self).char_idx()) + y_diff;
                let b = camera_bounds(screen_w as int, screen_h as int);
                if within_bounds_spec(nx, ny, b.0.0, b.0.1, b.1.0, b.1.1) {
                    final(self).container_node().x == old(self).container_node().x
                        && final(self).container_node().y == old(self).container_node().y
                } else {
                    final(self).container_node().x == old(self).container_node().x - x_diff
                        && final(self).container_node().y == old(self).container_node().y - y_diff
                }
            }),
            forall|j: int|
                0 <= j < old(self).scene.nodes@.len() && j != 1 && j != old(self).char_idx()
                    ==> final(self).scene.nodes@[j] == old(self).scene.nodes@[j],
            final(self).char_node().width == old(self).char_node().width,
            final(self).char_node().height == old(self).char_node().height,
            final(self).char_node().color == old(self).char_node().color,
            final(self).char_node().parent == old(self).char_node().parent,
            final(self).char_node().children == old(self).char_node().children,
            final(self).container_node().width == old(self).container_node().width,
            final(self).container_node().height == old(self).container_node().height,
            final(self).container_node().color == old(self).container_node().color,
            final(self).container_node().parent == old(self).container_node().parent,
            final(self).container_node().children == old(self).container_node().children,
    {
        let ghost old_nodes = self.scene.nodes@;
        let ci = self.scene.nodes.len() - 1;
        proof {
            assert(node_wf(old_nodes, ci as int));
            assert(node_wf(old_nodes, 1));
            assert(node_wf(old_nodes, 0));
            // the character sits under the container, which sits under the root
            assert(old_nodes.len() >= 3);
            assert(abs_x(old_nodes, 0) == 0);
            assert(abs_y(old_nodes, 0) == 0);
            assert(abs_x(old_nodes, 1) == old_nodes[1].x);
            assert(abs_y(old_nodes, 1) == old_nodes[1].y);
            assert(abs_x(old_nodes, ci as int) == old_nodes[ci as int].x + old_nodes[1].x);
            assert(abs_y(old_nodes, ci as int) == old_nodes[ci as int].y + old_nodes[1].y);
        }
        let pos = self.scene.get_absolute_position(ci);
        let char_screen_x = pos.0 + x_diff;
        let char_screen_y = pos.1 + y_diff;

        let cx = self.scene.nodes[ci].x;
        let cy = self.scene.nodes[ci].y;
        self.scene.set_offset(ci, cx + x_diff, cy + y_diff);

        let camera_bounds = ((screen_w / 4, screen_h / 4), (screen_w * 3 / 4, screen_h * 3 / 4));
        if !is_within_bounds(char_screen_x, char_screen_y, camera_bounds) {
            let mx = self.scene.nodes[1].x;
            let my = self.scene.nodes[1].y;
            self.scene.set_offset(1, mx - x_diff, my - y_diff);
        }
        proof {
            let nodes = self.scene.nodes@;
            assert forall|i: int| 0 <= i < nodes.len() implies node_wf(nodes, i) by {
                assert(node_wf(old_nodes, i));
                assert(nodes[i].parent == old_nodes[i].parent);
                assert(nodes[i].children == old_nodes[i].children);
            }
            assert(self.prepared());
        }
    }

    /// Centers the map container in the window, with no memory of any
    /// earlier offset: the static camera framing of the build without
    /// dead-zone tracking, applied every game frame.
    pub fn center_map_container(&mut self, screen_w: i64, screen_h: i64)
        requires
            old(self).prepared(),
            0 <= screen_w <= 0x40000000,
            0 <= screen_h <= 0x40000000,
        ensures
            final(self).prepared(),
            final(self).map == old(self).map,
            final(self).container_node().x == screen_w / 2 - old(self).map.width * TILE_FP / 2,
            final(self).container_node().y == screen_h / 2 - old(self).map.height * TILE_FP / 2,
            forall|j: int|
                0 <= j < old(self).scene.nodes@.len() && j != 1 ==> final(self).scene.nodes@[j]
                    == old(self).scene.nodes@[j],
    {
        proof {
            assert(self.map.width * TILE_FP <= 4096 * TILE_FP) by (nonlinear_arith)
                requires self.map.width <= 4096;
            assert(self.map.height * TILE_FP <= 4096 * TILE_FP) by (nonlinear_arith)
                requires self.map.height <= 4096;
            assert(node_wf(self.scene.nodes@, 1));
        }
        let map_w_px = (self.map.width as i64) * TILE_FP;
        let map_h_px = (self.map.height as i64) * TILE_FP;
        let ghost old_nodes = self.scene.nodes@;
        self.scene.set_offset(1, screen_w / 2 - map_w_px / 2, screen_h / 2 - map_h_px / 2);
        proof {
            let nodes = self.scene.nodes@;
            assert forall|i: int| 0 <= i < nodes.len() implies node_wf(nodes, i) by {
                assert(node_wf(old_nodes, i));
                assert(nodes[i].parent == old_nodes[i].parent);
                assert(nodes[i].children == old_nodes[i].children);
            }
            assert(self.prepared());
        }
    }

    /// One frame of walking input: for each held movement key, the move
    /// along its axis is applied only where the collision check at the
    /// prospective position finds no wall; the net displacement is then
    /// committed through `move_character`.
    pub fn handle_walk_input(
        &mut self,
        w: bool,
        a: bool,
        s: bool,
        d: bool,
        fps: i32,
        screen_w: i64,
        screen_h: i64,
    )
        requires
            old(self).prepared(),
            fps >= 1,
            0 <= screen_w <= 0x40000000,
            0 <= screen_h <= 0x40000000,
            // every position that the held keys probe this frame stays
            // inside the map's pixel extent: the character's own cell, and
            // one step of headroom in each held direction
            ({
                let step = CHAR_SPEED_FP as int / fps as int;
                let cx = old(self).char_node().x as int;
                let cy = old(self).char_node().y as int;
                &&& (w || a || s || d) ==> query_in_extent(old(self).map, cx, cy)
                &&& w ==> cy - step + HITBOX_MARGIN_FP >= 0
                &&& a ==> cx - step + HITBOX_MARGIN_FP >= 0
                &&& s ==> cy + step + TILE_FP - HITBOX_MARGIN_FP < old(self).map.height * TILE_FP
                &&& d ==> cx + step + TILE_FP - HITBOX_MARGIN_FP < old(self).map.width * TILE_FP
            }),
            (w || a || s || d) ==> -MAX_COORD + CHAR_SPEED_FP <= old(self).container_node().x
                <= MAX_COORD - CHAR_SPEED_FP,
            (w || a || s || d) ==> -MAX_COORD + CHAR_SPEED_FP <= old(self).container_node().y
                <= MAX_COORD - CHAR_SPEED_FP,
        ensures
            final(self).prepared(),
            final(self).map == old(self).map,
            final(self).scene.nodes@.len() == old(self).scene.nodes@.len(),
            ({
                let step = CHAR_SPEED_FP as int / fps as int;
                let target = walk_target(
                    old(self).map,
                    old(self).char_node().x as int,
                    old(self).char_node().y as int,
                    step,
                    w,
                    a,
                    s,
                    d,
                );
                let x_diff = target.0 - old(self).char_node().x;
                let y_diff = target.1 - old(self).char_node().y;
                let nx = abs_x(old(self).scene.nodes@, old(self).char_idx()) + x_diff;
                let ny = abs_y(old(self).scene.nodes@, old(self).char_idx()) + y_diff;
                let b = camera_bounds(screen_w as int, screen_h as int);
                &&& final(self).char_node().x == target.0
                &&& final(self).char_node().y == target.1
                &&& if within_bounds_spec(nx, ny, b.0.0, b.0.1, b.1.0, b.1.1) {
                    final(self).container_node().x == old(self).container_node().x
                        && final(self).container_node().y == old(self).container_node().y
                } else {
                    final(self).container_node().x == old(self).container_node().x - x_diff
                        && final(self).container_node().y == old(self).container_node().y - y_diff
                }
            }),
            forall|j: int|
                0 <= j < old(self).scene.nodes@.len() && j != 1 && j != old(self).char_idx()
                    ==> final(self).scene.nodes@[j] == old(self).scene.nodes@[j],
    {
        let ci = self.scene.nodes.len() - 1;
        proof {
            assert(node_wf(self.scene.nodes@, ci as int));
        }
        let orig_x = self.scene.nodes[ci].x;
        let orig_y = self.scene.nodes[ci].y;
        let character_speed = character_step(fps);
        let mut new_x = orig_x;
        let mut new_y = orig_y;
        if w {
            if !self.collides_with_a_wall(new_x, new_y - character_speed) {
                new_y = new_y - character_speed;
            }
        }
        if a {
            if !self.collides_with_a_wall(new_x - character_speed, new_y) {
                new_x = new_x - character_speed;
            }
        }
        if s {
            if !self.collides_with_a_wall(new_x, new_y + character_speed) {
                new_y = new_y + character_speed;
            }
        }
        if d {
            if !self.collides_with_a_wall(new_x + character_speed, new_y) {
                new_x = new_x + character_speed;
            }
        }
        proof {
            assert(self.map.width * TILE_FP <= 4096 * TILE_FP) by (nonlinear_arith)
                requires self.map.width <= 4096;
            assert(self.map.height * TILE_FP <= 4096 * TILE_FP) by (nonlinear_arith)
                requires self.map.height <= 4096;
            assert(node_wf(self.scene.nodes@, 1));
        }
        self.move_character(new_x - orig_x, new_y - orig_y, screen_w, screen_h);
    }
}

/// Every cell that `wall_cells_rows` lists lies inside the grid.
proof fn lemma_wall_cells_row_in_grid(m: TileMap, y: int, x: int)
    ensures
        forall|j: int|
            0 <= j < wall_cells_row(m, y, x).len() ==> (#[trigger] wall_cells_row(m, y, x)[j]).0
                < x && 0 <= wall_cells_row(m, y, x)[j].0 && wall_cells_row(m, y, x)[j].1 == y,
    decreases x,
{
    if x > 0 {
        lemma_wall_cells_row_in_grid(m, y, x - 1);
        let s = wall_cells_row(m, y, x);
        let sp = wall_cells_row(m, y, x - 1);
        assert forall|j: int| 0 <= j < s.len() implies (#[trigger] s[j]).0 < x && 0 <= s[j].0
            && s[j].1 == y by {
            if j < sp.len() {
                assert(s[j] == sp[j]);
            } else {
                assert(s[j] == (x - 1, y));
            }
        }
    }
}

proof fn lemma_wall_cells_in_grid(m: TileMap, y: int)
    ensures
        forall|j: int|
            0 <= j < wall_cells_rows(m, y).len() ==> 0 <= (#[trigger] wall_cells_rows(m, y)[j]).0
                < m.width && 0 <= wall_cells_rows(m, y)[j].1 < y,
    decreases y,
{
    if y > 0 {
        lemma_wall_cells_in_grid(m, y - 1);
        lemma_wall_cells_row_in_grid(m, y - 1, m.width as int);
        let s = wall_cells_rows(m, y);
        let sp = wall_cells_rows(m, y - 1);
        let row = wall_cells_row(m, y - 1, m.width as int);
        assert forall|j: int| 0 <= j < s.len() implies 0 <= (#[trigger] s[j]).0 < m.width && 0
            <= s[j].1 < y by {
            if j < sp.len() {
                assert(s[j] == sp[j]);
            } else {
                assert(s[j] == row[j - sp.len()]);
            }
        }
    }
}

} // verus!

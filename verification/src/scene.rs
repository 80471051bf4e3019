use vstd::prelude::*;

verus! {

/// Coordinates and sizes of scene nodes are kept within this bound so that
/// sums along a parent chain never overflow an `i64`.
pub const MAX_COORD: i64 = 0x800000000;

/// Upper bound on the number of nodes a scene graph may hold.
pub const MAX_NODES: usize = 0x2000000;

#[derive(Clone, Copy, PartialEq, Eq, Structural, Debug)]
pub enum SceneColor {
    LightGray,
    White,
    Gray,
    Yellow,
}

/// One node of the scene graph: a filled rectangle placed relative to its
/// parent's coordinate frame. Nodes live in an arena and refer to each
/// other by index; the parent link of every node points at an earlier
/// index, so every parent chain reaches the root.
pub struct ScreenObject {
    pub x: i64,
    pub y: i64,
    pub width: i64,
    pub height: i64,
    pub color: SceneColor,
    pub parent: Option<usize>,
    pub children: Vec<usize>,
}

/// An arena of scene nodes; index 0 is the root.
pub struct SceneGraph {
    pub nodes: Vec<ScreenObject>,
}

pub open spec fn node_wf(nodes: Seq<ScreenObject>, i: int) -> bool {
    &&& -(MAX_COORD as int) <= nodes[i].x <= MAX_COORD as int
    &&& -(MAX_COORD as int) <= nodes[i].y <= MAX_COORD as int
    &&& 0 <= nodes[i].width <= MAX_COORD as int
    &&& 0 <= nodes[i].height <= MAX_COORD as int
    &&& (i == 0 ==> nodes[i].parent is None)
    &&& (i > 0 ==> (nodes[i].parent matches Some(p) && p < i))
    &&& forall|k: int|
        0 <= k < nodes[i].children@.len() ==> i < #[trigger] nodes[i].children@[k]
            < nodes.len() && nodes[nodes[i].children@[k] as int].parent == Some(i as usize)
}

impl SceneGraph {
    pub open spec fn wf(self) -> bool {
        &&& self.nodes@.len() <= MAX_NODES
        &&& forall|i: int| 0 <= i < self.nodes@.len() ==> node_wf(self.nodes@, i)
    }
}

/// Absolute horizontal position of node `i`: its own offset plus the
/// absolute position of its parent, recursively, ending at the root.
pub open spec fn abs_x(nodes: Seq<ScreenObject>, i: int) -> int
    decreases i,
{
    if 0 <= i < nodes.len() {
        match nodes[i].parent {
            None => nodes[i].x as int,
            Some(p) => if (p as int) < i {
                nodes[i].x + abs_x(nodes, p as int)
            } else {
                nodes[i].x as int
            },
        }
    } else {
        0
    }
}

/// Absolute vertical position of node `i`.
pub open spec fn abs_y(nodes: Seq<ScreenObject>, i: int) -> int
    decreases i,
{
    if 0 <= i < nodes.len() {
        match nodes[i].parent {
            None => nodes[i].y as int,
            Some(p) => if (p as int) < i {
                nodes[i].y + abs_y(nodes, p as int)
            } else {
                nodes[i].y as int
            },
        }
    } else {
        0
    }
}

pub proof fn lemma_abs_bound(nodes: Seq<ScreenObject>, i: int)
    requires
        forall|j: int| 0 <= j < nodes.len() ==> node_wf(nodes, j),
        0 <= i < nodes.len(),
    ensures
        -(i + 1) * (MAX_COORD as int) <= abs_x(nodes, i) <= (i + 1) * (MAX_COORD as int),
        -(i + 1) * (MAX_COORD as int) <= abs_y(nodes, i) <= (i + 1) * (MAX_COORD as int),
    decreases i,
{
    assert(node_wf(nodes, i));
    match nodes[i].parent {
        None => {
            assert((i + 1) * (MAX_COORD as int) >= 1 * (MAX_COORD as int)) by (nonlinear_arith)
                requires i >= 0;
        },
        Some(p) => {
            lemma_abs_bound(nodes, p as int);
            assert((p + 1) * (MAX_COORD as int) + MAX_COORD as int == (p + 2) * (
            MAX_COORD as int)) by (nonlinear_arith);
            assert((p + 2) * (MAX_COORD as int) <= (i + 1) * (MAX_COORD as int))
                by (nonlinear_arith)
                requires p as int + 1 <= i;
        },
    }
}

impl SceneGraph {
    /// Absolute screen position of node `i`, computed by walking the
    /// parent chain and summing the relative offsets.
    pub fn get_absolute_position(&self, i: usize) -> (r: (i64, i64))
        requires
            self.wf(),
            i < self.nodes@.len(),
        ensures
            r.0 == abs_x(self.nodes@, i as int),
            r.1 == abs_y(self.nodes@, i as int),
        decreases i,
    {
        proof {
            assert(node_wf(self.nodes@, i as int));
            lemma_abs_bound(self.nodes@, i as int);
            assert((i + 1) * (MAX_COORD as int) <= MAX_NODES * (MAX_COORD as int))
                by (nonlinear_arith)
                requires i as int + 1 <= MAX_NODES as int;
        }
        let node = &self.nodes[i];
        match node.parent {
            None => (node.x, node.y),
            Some(p) => {
                proof {
                    lemma_abs_bound(self.nodes@, p as int);
                    assert((p + 1) * (MAX_COORD as int) <= MAX_NODES * (MAX_COORD as int))
                        by (nonlinear_arith)
                        requires p as int + 1 <= MAX_NODES as int;
                }
                let pp = self.get_absolute_position(p);
                (node.x + pp.0, node.y + pp.1)
            },
        }
    }
}

impl SceneGraph {
    /// Moves node `i` to a new offset relative to its parent; everything
    /// else about the graph stays as it was.
    pub fn set_offset(&mut self, i: usize, x: i64, y: i64)
        requires
            i < old(self).nodes@.len(),
        ensures
            final(self).nodes@.len() == old(self).nodes@.len(),
            final(self).nodes@[i as int].x == x,
            final(self).nodes@[i as int].y == y,
            final(self).nodes@[i as int].width == old(self).nodes@[i as int].width,
            final(self).nodes@[i as int].height == old(self).nodes@[i as int].height,
            final(self).nodes@[i as int].color == old(self).nodes@[i as int].color,
            final(self).nodes@[i as int].parent == old(self).nodes@[i as int].parent,
            final(self).nodes@[i as int].children == old(self).nodes@[i as int].children,
            forall|j: int|
                0 <= j < old(self).nodes@.len() && j != i ==> final(self).nodes@[j] == old(
                    self,
                ).nodes@[j],
    {
        let node = &mut self.nodes[i];
        node.x = x;
        node.y = y;
    }
}

/// One rectangle of the flattened render list: an absolute position, a
/// size and a fill color.
#[derive(Clone, Copy, PartialEq, Eq, Structural, Debug)]
pub struct DrawRect {
    pub x: i64,
    pub y: i64,
    pub width: i64,
    pub height: i64,
    pub color: SceneColor,
}

/// Indices of the first `k` children of node `i` and their subtrees, in
/// depth-first order.
pub open spec fn draw_order_prefix(nodes: Seq<ScreenObject>, i: int, k: int) -> Seq<int>
    decreases nodes.len() - i, k,
{
    if 0 <= i < nodes.len() && 0 < k <= nodes[i].children@.len() {
        let c = nodes[i].children@[k - 1] as int;
        draw_order_prefix(nodes, i, k - 1) + (if i < c < nodes.len() {
            draw_order(nodes, c)
        } else {
            Seq::<int>::empty()
        })
    } else {
        Seq::<int>::empty()
    }
}

/// Depth-first order of the subtree rooted at node `i`: the node itself,
/// then each child's subtree in list order.
pub open spec fn draw_order(nodes: Seq<ScreenObject>, i: int) -> Seq<int>
    decreases nodes.len() - i, nodes[i].children@.len() + 1,
{
    if 0 <= i < nodes.len() {
        seq![i] + draw_order_prefix(nodes, i, nodes[i].children@.len() as int)
    } else {
        Seq::<int>::empty()
    }
}

/// Rectangle `r` renders node `i`: it sits at the node's absolute
/// position and carries its size and color.
pub open spec fn rect_matches(nodes: Seq<ScreenObject>, r: DrawRect, i: int) -> bool {
    &&& 0 <= i < nodes.len()
    &&& r.x == abs_x(nodes, i)
    &&& r.y == abs_y(nodes, i)
    &&& r.width == nodes[i].width
    &&& r.height == nodes[i].height
    &&& r.color == nodes[i].color
}

/// The rectangles `rs` render exactly the nodes listed in `order`, one
/// each, in the same order.
pub open spec fn rects_match(nodes: Seq<ScreenObject>, rs: Seq<DrawRect>, order: Seq<int>) -> bool {
    &&& rs.len() == order.len()
    &&& forall|k: int| 0 <= k < rs.len() ==> rect_matches(nodes, #[trigger] rs[k], order[k])
}

impl SceneGraph {
    /// Flattens the subtree rooted at node `i` into the list of filled
    /// rectangles that drawing it paints, in paint order: the node's own
    /// rectangle first, then each child's subtree in list order.
    pub fn draw_list(&self, i: usize) -> (r: Vec<DrawRect>)
        requires
            self.wf(),
            i < self.nodes@.len(),
        ensures
            rects_match(self.nodes@, r@, draw_order(self.nodes@, i as int)),
        decreases self.nodes@.len() - i,
    {
        let pos = self.get_absolute_position(i);
        let mut out: Vec<DrawRect> = Vec::new();
        let own = DrawRect {
            x: pos.0,
            y: pos.1,
            width: self.nodes[i].width,
            height: self.nodes[i].height,
            color: self.nodes[i].color,
        };
        out.push(own);
        let ghost nodes = self.nodes@;
        proof {
            assert(node_wf(nodes, i as int));
            assert(out@ =~= seq![own]);
        }
        let mut k: usize = 0;
        let n_children = self.nodes[i].children.len();
        while k < n_children
            invariant
                self.wf(),
                i < self.nodes@.len(),
                nodes == self.nodes@,
                n_children == nodes[i as int].children@.len(),
                k <= n_children,
                rects_match(nodes, out@, seq![i as int] + draw_order_prefix(nodes, i as int, k as int)),
            decreases n_children - k,
        {
            proof {
                assert(node_wf(nodes, i as int));
            }
            let c = self.nodes[i].children[k];
            let mut sub = self.draw_list(c);
            let ghost old_out = out@;
            let ghost sub_seq = sub@;
            out.append(&mut sub);
            proof {
                let ii = i as int;
                let kk = k as int;
                let cc = c as int;
                assert(draw_order_prefix(nodes, ii, kk + 1) == draw_order_prefix(nodes, ii, kk)
                    + draw_order(nodes, cc));
                let old_order = seq![ii] + draw_order_prefix(nodes, ii, kk);
                let new_order = seq![ii] + draw_order_prefix(nodes, ii, kk + 1);
                assert(rects_match(nodes, sub_seq, draw_order(nodes, cc)));
                assert forall|j: int| 0 <= j < out@.len() implies rect_matches(
                    nodes,
                    #[trigger] out@[j],
                    new_order[j],
                ) by {
                    if j < old_order.len() {
                        assert(out@[j] == old_out[j]);
                        assert(new_order[j] == old_order[j]);
                    } else {
                        assert(out@[j] == sub_seq[j - old_order.len()]);
                        assert(new_order[j] == draw_order(nodes, cc)[j - old_order.len()]);
                    }
                }
            }
            k = k + 1;
        }
        proof {
            assert(node_wf(nodes, i as int));
            assert(draw_order(nodes, i as int) == seq![i as int] + draw_order_prefix(
                nodes,
                i as int,
                nodes[i as int].children@.len() as int,
            ));
        }
        out
    }
}

} // verus!

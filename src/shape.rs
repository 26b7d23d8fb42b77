//! The bounding-box tree built over the cells of a composite body.
//!
//! Cells are unit squares centered on the points of the integer grid, so
//! boxes are kept exactly, in half-cell units: the cell at `(x, y)` spans
//! `2x - 1 ..= 2x + 1` and `2y - 1 ..= 2y + 1`.
use vstd::prelude::*;
use crate::tree::{Content, well_formed};

verus! {

/// Axis-aligned box in half-cell units. A box whose minimum exceeds its
/// maximum on an axis holds nothing.
#[derive(Clone, Copy, Debug, PartialEq, Eq, Structural)]
pub struct AABox {
    pub xmin: i64,
    pub xmax: i64,
    pub ymin: i64,
    pub ymax: i64,
}

/// The box of the unit cell centered at `c`.
pub open spec fn cell_box_spec(c: (i32, i32)) -> AABox {
    AABox {
        xmin: (2 * c.0 - 1) as i64,
        xmax: (2 * c.0 + 1) as i64,
        ymin: (2 * c.1 - 1) as i64,
        ymax: (2 * c.1 + 1) as i64,
    }
}

pub open spec fn min_i64(a: i64, b: i64) -> i64 {
    if a <= b {
        a
    } else {
        b
    }
}

pub open spec fn max_i64(a: i64, b: i64) -> i64 {
    if a >= b {
        a
    } else {
        b
    }
}

/// The smallest box holding both `a` and `b`.
pub open spec fn union_spec(a: AABox, b: AABox) -> AABox {
    AABox {
        xmin: min_i64(a.xmin, b.xmin),
        xmax: max_i64(a.xmax, b.xmax),
        ymin: min_i64(a.ymin, b.ymin),
        ymax: max_i64(a.ymax, b.ymax),
    }
}

/// The box of the unit cell centered at `c`.
pub fn cell_box(c: (i32, i32)) -> (r: AABox)
    ensures
        r == cell_box_spec(c),
{
    let x = c.0 as i64;
    let y = c.1 as i64;
    AABox { xmin: 2 * x - 1, xmax: 2 * x + 1, ymin: 2 * y - 1, ymax: 2 * y + 1 }
}

/// The smallest box holding both `a` and `b`.
pub fn union(a: &AABox, b: &AABox) -> (r: AABox)
    ensures
        r == union_spec(*a, *b),
{
    AABox {
        xmin: if a.xmin <= b.xmin { a.xmin } else { b.xmin },
        xmax: if a.xmax >= b.xmax { a.xmax } else { b.xmax },
        ymin: if a.ymin <= b.ymin { a.ymin } else { b.ymin },
        ymax: if a.ymax >= b.ymax { a.ymax } else { b.ymax },
    }
}

/// Square of the distance of a point from the origin.
pub open spec fn sq_len(p: (i64, i64)) -> int {
    p.0 * p.0 + p.1 * p.1
}

pub open spec fn max_int(a: int, b: int) -> int {
    if a >= b {
        a
    } else {
        b
    }
}

impl AABox {
    /// The box that holds nothing: its union with any box is that box.
    pub open spec fn empty_spec() -> AABox {
        AABox { xmin: i64::MAX, xmax: i64::MIN, ymin: i64::MAX, ymax: i64::MIN }
    }

    /// The four corners, counterclockwise from the lower left one.
    pub open spec fn corners_spec(self) -> Seq<(i64, i64)> {
        seq![
            (self.xmin, self.ymin),
            (self.xmax, self.ymin),
            (self.xmax, self.ymax),
            (self.xmin, self.ymax),
        ]
    }

    /// The largest squared distance of a corner from the origin.
    pub open spec fn sq_radius_spec(self) -> int {
        max_int(
            max_int(sq_len(self.corners_spec()[0]), sq_len(self.corners_spec()[1])),
            max_int(sq_len(self.corners_spec()[2]), sq_len(self.corners_spec()[3])),
        )
    }

    /// Creates a box that doesn't contain anything.
    pub fn empty() -> (r: AABox)
        ensures
            r == AABox::empty_spec(),
    {
        AABox { xmin: i64::MAX, xmax: i64::MIN, ymin: i64::MAX, ymax: i64::MIN }
    }

    /// Returns the 4 corners' coordinates.
    pub fn corners(&self) -> (r: [(i64, i64); 4])
        ensures
            r@ == self.corners_spec(),
    {
        [
            (self.xmin, self.ymin),
            (self.xmax, self.ymin),
            (self.xmax, self.ymax),
            (self.xmin, self.ymax),
        ]
    }

    /// The square of the smallest radius around the origin that holds the
    /// whole box: the largest squared distance of a corner.
    pub fn compute_sq_radius(&self) -> (r: u128)
        ensures
            r == self.sq_radius_spec(),
    {
        let x = max_u128(square(self.xmin), square(self.xmax));
        let y = max_u128(square(self.ymin), square(self.ymax));
        proof {
            assert(x <= 0x4000_0000_0000_0000_0000_0000_0000_0000u128);
            assert(y <= 0x4000_0000_0000_0000_0000_0000_0000_0000u128);
        }
        x + y
    }

    /// Grows the box to hold the unit cell centered at `point`.
    pub fn add_square1(&mut self, point: (i32, i32))
        ensures
            *final(self) == union_spec(*old(self), cell_box_spec(point)),
    {
        *self = union(self, &cell_box(point));
    }
}

fn max_u128(a: u128, b: u128) -> (r: u128)
    ensures
        r == if a >= b {
            a
        } else {
            b
        },
{
    if a >= b {
        a
    } else {
        b
    }
}

fn square(v: i64) -> (r: u128)
    ensures
        r == v * v,
        r <= 0x4000_0000_0000_0000_0000_0000_0000_0000u128,
{
    let m: u128 = if v < 0 {
        (0i128 - v as i128) as u128
    } else {
        v as u128
    };
    proof {
        assert(m <= 0x8000_0000_0000_0000u128);
        assert(m * m <= 0x8000_0000_0000_0000u128 * 0x8000_0000_0000_0000u128) by (nonlinear_arith)
            requires
                m <= 0x8000_0000_0000_0000u128,
        ;
        assert(m * m == v * v) by (nonlinear_arith)
            requires
                m == v || m == -v,
        ;
    }
    m * m
}

/// The smallest box holding the cells `lo .. hi`: the empty box, grown by
/// each of those cells in turn.
pub open spec fn cells_box(cells: Seq<(i32, i32)>, lo: int, hi: int) -> AABox
    decreases hi - lo,
{
    if hi <= lo {
        AABox::empty_spec()
    } else {
        union_spec(cells_box(cells, lo, hi - 1), cell_box_spec(cells[hi - 1]))
    }
}

proof fn lemma_cells_box_split(cells: Seq<(i32, i32)>, lo: int, mid: int, hi: int)
    requires
        lo <= mid <= hi,
    ensures
        union_spec(cells_box(cells, lo, mid), cells_box(cells, mid, hi)) == cells_box(
            cells,
            lo,
            hi,
        ),
    decreases hi - mid,
{
    if hi > mid {
        lemma_cells_box_split(cells, lo, mid, hi - 1);
    }
}

/// A node of a body's tree: its box in the body's frame, and its content.
#[derive(Clone, Copy, Debug, PartialEq, Eq, Structural)]
pub struct TreeNode {
    pub bounds: AABox,
    pub content: Content,
}

/// The shape of a tree, as its descent reads it.
pub open spec fn contents(t: Seq<TreeNode>) -> Seq<Content> {
    t.map_values(|n: TreeNode| n.content)
}

/// Each leaf names a cell and holds that cell's box; each internal node has
/// its children after it, and its box is the union of theirs.
pub open spec fn bounded(cells: Seq<(i32, i32)>, t: Seq<TreeNode>) -> bool {
    forall|k: int|
        #![trigger t[k]]
        0 <= k < t.len() ==> match t[k].content {
            Content::Leaf(c) => c < cells.len() && t[k].bounds == cell_box_spec(cells[c as int]),
            Content::Internal(l, r) => k < l < t.len() && k < r < t.len() && t[k].bounds
                == union_spec(t[l as int].bounds, t[r as int].bounds),
        }
}

/// Some leaf of `t` at `from` or after names cell `c`.
pub open spec fn has_leaf(t: Seq<TreeNode>, from: int, c: int) -> bool {
    exists|k: int| from <= k < t.len() && #[trigger] t[k].content == Content::Leaf(c as usize)
}

/// Appends the subtree over cells `lo .. hi` to `nodes` and returns the index
/// of its root, which is where `nodes` ended.
fn build_range(cells: &Vec<(i32, i32)>, lo: usize, hi: usize, nodes: &mut Vec<TreeNode>) -> (idx:
    usize)
    requires
        lo < hi <= cells@.len(),
        bounded(cells@, old(nodes)@),
    ensures
        idx == old(nodes)@.len(),
        idx < final(nodes)@.len(),
        forall|k: int| 0 <= k < old(nodes)@.len() ==> final(nodes)@[k] == old(nodes)@[k],
        bounded(cells@, final(nodes)@),
        forall|c: int| lo <= c < hi ==> has_leaf(final(nodes)@, idx as int, c),
        final(nodes)@[idx as int].bounds == cells_box(cells@, lo as int, hi as int),
    decreases hi - lo,
{
    let idx = nodes.len();
    nodes.push(TreeNode { bounds: cell_box(cells[lo]), content: Content::Leaf(lo) });
    if hi - lo == 1 {
        assert(nodes@[idx as int].content == Content::Leaf(lo));
        assert(cells_box(cells@, lo as int, lo as int) == AABox::empty_spec());
        return idx;
    }
    let mid = lo + (hi - lo) / 2;
    let l = build_range(cells, lo, mid, nodes);
    let ghost n2 = nodes@;
    let r = build_range(cells, mid, hi, nodes);
    let ghost n3 = nodes@;
    let bounds = union(&nodes[l].bounds, &nodes[r].bounds);
    nodes.set(idx, TreeNode { bounds, content: Content::Internal(l, r) });
    proof {
        lemma_cells_box_split(cells@, lo as int, mid as int, hi as int);
    }
    assert forall|k: int| 0 <= k < nodes@.len() implies #[trigger] nodes@[k] == if k == idx {
        TreeNode { bounds, content: Content::Internal(l, r) }
    } else {
        n3[k]
    } by {}
    assert forall|k: int|
        #![trigger nodes@[k]]
        0 <= k < nodes@.len() implies match nodes@[k].content {
        Content::Leaf(c) => c < cells@.len() && nodes@[k].bounds == cell_box_spec(cells@[c as int]),
        Content::Internal(a, b) => k < a < nodes@.len() && k < b < nodes@.len() && nodes@[k].bounds
            == union_spec(nodes@[a as int].bounds, nodes@[b as int].bounds),
    } by {
        if k != idx {
            assert(nodes@[k] == n3[k]);
            assert(bounded(cells@, n3));
            if k < idx {
                assert(n3[k] == old(nodes)@[k]);
                assert(bounded(cells@, old(nodes)@));
            }
            match n3[k].content {
                Content::Internal(a, b) => {
                    assert(a != idx && b != idx);
                },
                Content::Leaf(_) => {},
            }
        }
    }
    assert forall|c: int| lo <= c < hi implies has_leaf(nodes@, idx as int, c) by {
        if c < mid {
            assert(has_leaf(n2, l as int, c));
            let k = choose|k: int| l <= k < n2.len() && #[trigger] n2[k].content == Content::Leaf(
                c as usize,
            );
            assert(nodes@[k] == n2[k]);
        } else {
            assert(has_leaf(n3, r as int, c));
            let k = choose|k: int| r <= k < n3.len() && #[trigger] n3[k].content == Content::Leaf(
                c as usize,
            );
            assert(nodes@[k] == n3[k]);
        }
    }
    idx
}

/// Builds the tree over a body's cells, halving the cell list at each level:
/// the root is node 0 and holds the smallest box around all the cells, every
/// cell is a leaf of the tree, each leaf holds the box of its cell, and each
/// internal node holds the union of its children's boxes.
pub fn build_tree(cells: &Vec<(i32, i32)>) -> (t: Vec<TreeNode>)
    requires
        cells@.len() > 0,
    ensures
        well_formed(contents(t@)),
        bounded(cells@, t@),
        forall|c: int| 0 <= c < cells@.len() ==> has_leaf(t@, 0, c),
        t@[0].bounds == cells_box(cells@, 0, cells@.len() as int),
{
    let mut nodes: Vec<TreeNode> = Vec::new();
    build_range(cells, 0, cells.len(), &mut nodes);
    assert forall|k: int| 0 <= k < nodes@.len() implies #[trigger] contents(nodes@)[k]
        == nodes@[k].content by {}
    nodes
}

/// Box `a` lies inside box `b`.
pub open spec fn inside(a: AABox, b: AABox) -> bool {
    b.xmin <= a.xmin && a.xmax <= b.xmax && b.ymin <= a.ymin && a.ymax <= b.ymax
}

/// In a tree built over cells, each child's box lies inside its parent's
/// box, and a leaf's box is the box of its cell.
pub proof fn lemma_children_inside(cells: Seq<(i32, i32)>, t: Seq<TreeNode>, k: int)
    requires
        bounded(cells, t),
        0 <= k < t.len(),
    ensures
        match t[k].content {
            Content::Internal(l, r) => inside(t[l as int].bounds, t[k].bounds) && inside(
                t[r as int].bounds,
                t[k].bounds,
            ),
            Content::Leaf(c) => t[k].bounds == cell_box_spec(cells[c as int]),
        },
{
}

/// Every point of a box lies within the box's radius around the origin: its
/// squared distance is at most the box's squared radius.
pub proof fn lemma_radius_covers_box(b: AABox, p: (i64, i64))
    requires
        b.xmin <= p.0 <= b.xmax,
        b.ymin <= p.1 <= b.ymax,
    ensures
        sq_len(p) <= b.sq_radius_spec(),
{
    let (x, y) = (p.0 as int, p.1 as int);
    let (x0, x1, y0, y1) = (b.xmin as int, b.xmax as int, b.ymin as int, b.ymax as int);
    assert(x * x <= x0 * x0 || x * x <= x1 * x1) by (nonlinear_arith)
        requires
            x0 <= x <= x1,
    ;
    assert(y * y <= y0 * y0 || y * y <= y1 * y1) by (nonlinear_arith)
        requires
            y0 <= y <= y1,
    ;
}

} // verus!

use blockgame::shape::{build_tree, cell_box, union, AABox, TreeNode};
use blockgame::tree::Content;

fn gb(xmin: i64, xmax: i64, ymin: i64, ymax: i64) -> AABox {
    AABox { xmin, xmax, ymin, ymax }
}

#[test]
fn cell_box_in_half_units() {
    assert_eq!(cell_box((0, 0)), gb(-1, 1, -1, 1));
    assert_eq!(cell_box((3, -2)), gb(5, 7, -5, -3));
}

#[test]
fn union_of_boxes() {
    assert_eq!(union(&gb(-1, 1, -1, 1), &gb(5, 7, -5, -3)), gb(-1, 7, -5, 1));
    assert_eq!(union(&gb(0, 2, 0, 2), &gb(0, 2, 0, 2)), gb(0, 2, 0, 2));
}

#[test]
fn single_cell_tree() {
    let t = build_tree(&vec![(0, 0)]);
    assert_eq!(t, vec![TreeNode { bounds: gb(-1, 1, -1, 1), content: Content::Leaf(0) }]);
}

#[test]
fn three_cell_tree() {
    let t = build_tree(&vec![(0, 0), (1, 0), (2, 0)]);
    assert_eq!(
        t,
        vec![
            TreeNode { bounds: gb(-1, 5, -1, 1), content: Content::Internal(1, 2) },
            TreeNode { bounds: gb(-1, 1, -1, 1), content: Content::Leaf(0) },
            TreeNode { bounds: gb(1, 5, -1, 1), content: Content::Internal(3, 4) },
            TreeNode { bounds: gb(1, 3, -1, 1), content: Content::Leaf(1) },
            TreeNode { bounds: gb(3, 5, -1, 1), content: Content::Leaf(2) },
        ]
    );
}

#[test]
fn every_parent_bounds_its_children() {
    let cells = vec![(0, 0), (4, 1), (-3, 2), (1, -5), (2, 2)];
    let t = build_tree(&cells);
    let mut leaves = Vec::new();
    for (k, n) in t.iter().enumerate() {
        match n.content {
            Content::Internal(l, r) => {
                assert!(k < l && k < r);
                assert_eq!(n.bounds, union(&t[l].bounds, &t[r].bounds));
            }
            Content::Leaf(c) => {
                assert_eq!(n.bounds, cell_box(cells[c]));
                leaves.push(c);
            }
        }
    }
    leaves.sort();
    assert_eq!(leaves, vec![0, 1, 2, 3, 4]);
    assert_eq!(t[0].bounds, gb(-7, 9, -11, 5));
}

#[test]
fn empty_box_is_union_identity() {
    let e = AABox::empty();
    assert_eq!(union(&e, &gb(-3, 5, 2, 4)), gb(-3, 5, 2, 4));
    let mut grown = AABox::empty();
    grown.add_square1((2, -1));
    assert_eq!(grown, gb(3, 5, -3, -1));
}

#[test]
fn add_square1_grows_box() {
    let mut b = cell_box((0, 0));
    b.add_square1((3, 1));
    assert_eq!(b, gb(-1, 7, -1, 3));
    b.add_square1((1, 0));
    assert_eq!(b, gb(-1, 7, -1, 3));
}

#[test]
fn box_corners() {
    assert_eq!(gb(-1, 3, -2, 4).corners(), [(-1, -2), (3, -2), (3, 4), (-1, 4)]);
}

#[test]
fn sq_radius_is_farthest_corner() {
    // The unit cell at the origin reaches (1, 1) half-units away
    assert_eq!(cell_box((0, 0)).compute_sq_radius(), 2);
    assert_eq!(gb(-1, 3, -2, 4).compute_sq_radius(), 25);
    assert_eq!(gb(-5, 1, 0, 2).compute_sq_radius(), 29);
    let huge = gb(i64::MIN, i64::MAX, i64::MIN, 0);
    assert_eq!(huge.compute_sq_radius(), 1u128 << 127);
}

use blockgame::tree::{descend, Content};

/// Runs the descent from the roots, answering each test with `overlap`,
/// and returns the hit and the node pairs tested, in order.
fn search(
    a: &Vec<Content>,
    b: &Vec<Content>,
    overlap: impl Fn(usize, usize) -> bool,
) -> (Option<(usize, usize)>, Vec<(usize, usize)>) {
    let mut pending = vec![(0, 0)];
    let mut tested = Vec::new();
    while let Some(&(i, j)) = pending.last() {
        tested.push((i, j));
        if let Some(hit) = descend(a, b, &mut pending, overlap(i, j)) {
            return (Some(hit), tested);
        }
    }
    (None, tested)
}

fn three_nodes() -> Vec<Content> {
    vec![Content::Internal(1, 2), Content::Leaf(0), Content::Leaf(1)]
}

#[test]
fn single_cells_hit_when_they_overlap() {
    let leaf = vec![Content::Leaf(0)];
    assert_eq!(search(&leaf, &leaf, |_, _| true), (Some((0, 0)), vec![(0, 0)]));
    assert_eq!(search(&leaf, &leaf, |_, _| false), (None, vec![(0, 0)]));
}

#[test]
fn descends_first_tree_before_second() {
    let a = three_nodes();
    let b = three_nodes();
    let (hit, tested) = search(&a, &b, |i, j| !(i == 1 && j == 1));
    assert_eq!(hit, Some((1, 2)));
    assert_eq!(tested, vec![(0, 0), (1, 0), (1, 1), (1, 2)]);
}

#[test]
fn second_child_tried_after_first_fails() {
    let a = three_nodes();
    let b = vec![Content::Leaf(0)];
    let (hit, tested) = search(&a, &b, |i, _| i != 1);
    assert_eq!(hit, Some((2, 0)));
    assert_eq!(tested, vec![(0, 0), (1, 0), (2, 0)]);
}

#[test]
fn rejected_roots_end_the_search() {
    let a = three_nodes();
    let b = three_nodes();
    assert_eq!(search(&a, &b, |i, j| i + j > 0), (None, vec![(0, 0)]));
}

#[test]
fn descend_pops_and_pushes_children() {
    let a = three_nodes();
    let b = vec![Content::Leaf(0)];
    let mut pending = vec![(0, 0)];
    assert_eq!(descend(&a, &b, &mut pending, true), None);
    assert_eq!(pending, vec![(2, 0), (1, 0)]);
    assert_eq!(descend(&a, &b, &mut pending, false), None);
    assert_eq!(pending, vec![(2, 0)]);
    assert_eq!(descend(&a, &b, &mut pending, true), Some((2, 0)));
    assert!(pending.is_empty());
}

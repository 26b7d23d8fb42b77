//! Shape of a spatial tree, and the simultaneous descent of two trees.
//!
//! A tree is stored as an array of nodes with its root at index 0; an
//! internal node names its two children, which come after it in the array.
//! The bounding boxes of the nodes live beside this shape: whether the boxes
//! of two nodes overlap is answered by the narrow-phase test, outside this
//! module, and fed to the descent one node pair at a time.
use vstd::prelude::*;

verus! {

/// What a tree node holds.
#[derive(Clone, Copy, Debug, PartialEq, Eq, Structural)]
pub enum Content {
    /// A single cell of the composite shape, by its index in the cell list.
    Leaf(usize),
    /// An internal node and the indices of its two children.
    Internal(usize, usize),
}

/// Every child comes after its parent and lies inside the array, and the
/// root exists.
pub open spec fn well_formed(t: Seq<Content>) -> bool {
    &&& t.len() > 0
    &&& forall|k: int|
        #![trigger t[k]]
        0 <= k < t.len() ==> match t[k] {
            Content::Internal(l, r) => k < l < t.len() && k < r < t.len(),
            Content::Leaf(_) => true,
        }
}

/// The first pair of leaves found by descending trees `a` and `b` from nodes
/// `i` and `j`, where `overlap` says which node pairs pass the overlap test.
/// A failing pair ends its branch; on a passing pair the descent goes into
/// the children of `a`'s node if it has any, else into those of `b`'s node,
/// trying the first child before the second and stopping at the first
/// success; a passing pair of leaves is the result.
pub open spec fn first_hit(
    a: Seq<Content>,
    b: Seq<Content>,
    overlap: spec_fn(int, int) -> bool,
    i: int,
    j: int,
) -> Option<(int, int)>
    decreases a.len() - i + b.len() - j,
{
    if !(0 <= i < a.len() && 0 <= j < b.len()) || !overlap(i, j) {
        None
    } else {
        match a[i] {
            Content::Internal(l, r) => {
                if i < l < a.len() && i < r < a.len() {
                    match first_hit(a, b, overlap, l as int, j) {
                        None => first_hit(a, b, overlap, r as int, j),
                        found => found,
                    }
                } else {
                    None
                }
            },
            Content::Leaf(_) => match b[j] {
                Content::Internal(l, r) => {
                    if j < l < b.len() && j < r < b.len() {
                        match first_hit(a, b, overlap, i, l as int) {
                            None => first_hit(a, b, overlap, i, r as int),
                            found => found,
                        }
                    } else {
                        None
                    }
                },
                Content::Leaf(_) => Some((i, j)),
            },
        }
    }
}

/// The first hit of a stack of pending node pairs, taken from the top.
pub open spec fn stack_hit(
    a: Seq<Content>,
    b: Seq<Content>,
    overlap: spec_fn(int, int) -> bool,
    s: Seq<(usize, usize)>,
) -> Option<(int, int)>
    decreases s.len(),
{
    if s.len() == 0 {
        None
    } else {
        let top = s.last();
        match first_hit(a, b, overlap, top.0 as int, top.1 as int) {
            None => stack_hit(a, b, overlap, s.drop_last()),
            found => found,
        }
    }
}

/// Every pending pair names a node of each tree.
pub open spec fn in_range(a: Seq<Content>, b: Seq<Content>, s: Seq<(usize, usize)>) -> bool {
    forall|k: int| #![trigger s[k]] 0 <= k < s.len() ==> s[k].0 < a.len() && s[k].1 < b.len()
}

/// The descent's next state, given the overlap answer for the top pair of
/// stack `s`: the stack without that pair, with the children to try pushed
/// (the first child on top), and the pair itself when it is a hit.
pub open spec fn descend_spec(
    a: Seq<Content>,
    b: Seq<Content>,
    s: Seq<(usize, usize)>,
    overlap: bool,
) -> (Seq<(usize, usize)>, Option<(usize, usize)>) {
    let (i, j) = s.last();
    let rest = s.drop_last();
    if !overlap {
        (rest, None)
    } else {
        match a[i as int] {
            Content::Internal(l, r) => (rest.push((r, j)).push((l, j)), None),
            Content::Leaf(_) => match b[j as int] {
                Content::Internal(l, r) => (rest.push((i, r)).push((i, l)), None),
                Content::Leaf(_) => (rest, Some((i, j))),
            },
        }
    }
}

/// One step of the descent of trees `a` and `b`: takes the top pair of
/// `pending` together with whether its boxes overlap, and returns the pair
/// when it is an overlapping pair of leaves, which ends the search. The
/// search starts from the single pair of roots and is over, with no hit,
/// once `pending` is empty.
pub fn descend(
    a: &Vec<Content>,
    b: &Vec<Content>,
    pending: &mut Vec<(usize, usize)>,
    overlap: bool,
) -> (r: Option<(usize, usize)>)
    requires
        well_formed(a@),
        well_formed(b@),
        old(pending)@.len() > 0,
        in_range(a@, b@, old(pending)@),
    ensures
        (final(pending)@, r) == descend_spec(a@, b@, old(pending)@, overlap),
        in_range(a@, b@, final(pending)@),
{
    let (i, j) = pending.pop().unwrap();
    proof {
        assert(pending@ == old(pending)@.drop_last());
    }
    if !overlap {
        return None;
    }
    match a[i] {
        Content::Internal(l, r) => {
            pending.push((r, j));
            pending.push((l, j));
            None
        },
        Content::Leaf(_) => match b[j] {
            Content::Internal(l, r) => {
                pending.push((i, r));
                pending.push((i, l));
                None
            },
            Content::Leaf(_) => Some((i, j)),
        },
    }
}

/// The stepwise descent finds what the recursive search finds: when a step
/// is given the true overlap answer for the top pair, either it returns the
/// first hit of the whole stack of pending pairs, or the stack it leaves has
/// the same first hit as the stack it was given. Started from the pair of
/// roots, the descent therefore ends on `first_hit` from the roots.
pub proof fn lemma_descend_keeps_hit(
    a: Seq<Content>,
    b: Seq<Content>,
    overlap: spec_fn(int, int) -> bool,
    s: Seq<(usize, usize)>,
)
    requires
        well_formed(a),
        well_formed(b),
        s.len() > 0,
        in_range(a, b, s),
    ensures
        ({
            let (s2, r) = descend_spec(a, b, s, overlap(s.last().0 as int, s.last().1 as int));
            match r {
                Some(p) => stack_hit(a, b, overlap, s) == Some((p.0 as int, p.1 as int)),
                None => stack_hit(a, b, overlap, s) == stack_hit(a, b, overlap, s2),
            }
        }),
{
    let (i, j) = s.last();
    let rest = s.drop_last();
    assert(s[s.len() - 1] == s.last());
    assert(i < a.len() && j < b.len());
    if overlap(i as int, j as int) {
        match a[i as int] {
            Content::Internal(l, r) => {
                assert(i < l < a.len() && i < r < a.len());
                let s1 = rest.push((r, j));
                let s2 = s1.push((l, j));
                assert(s2.drop_last() =~= s1);
                assert(s1.drop_last() =~= rest);
                assert(s2.last() == (l, j));
                assert(s1.last() == (r, j));
                let h1 = first_hit(a, b, overlap, r as int, j as int);
                assert(stack_hit(a, b, overlap, s1) == match h1 {
                    None => stack_hit(a, b, overlap, rest),
                    found => found,
                });
                let h2 = first_hit(a, b, overlap, l as int, j as int);
                assert(stack_hit(a, b, overlap, s2) == match h2 {
                    None => stack_hit(a, b, overlap, s1),
                    found => found,
                });
            },
            Content::Leaf(_) => match b[j as int] {
                Content::Internal(l, r) => {
                    assert(j < l < b.len() && j < r < b.len());
                    let s1 = rest.push((i, r));
                    let s2 = s1.push((i, l));
                    assert(s2.drop_last() =~= s1);
                    assert(s1.drop_last() =~= rest);
                    assert(s2.last() == (i, l));
                    assert(s1.last() == (i, r));
                    let h1 = first_hit(a, b, overlap, i as int, r as int);
                    assert(stack_hit(a, b, overlap, s1) == match h1 {
                        None => stack_hit(a, b, overlap, rest),
                        found => found,
                    });
                    let h2 = first_hit(a, b, overlap, i as int, l as int);
                    assert(stack_hit(a, b, overlap, s2) == match h2 {
                        None => stack_hit(a, b, overlap, s1),
                        found => found,
                    });
                },
                Content::Leaf(_) => {},
            },
        }
    }
}

pub open spec fn pow3(e: nat) -> nat
    decreases e,
{
    if e == 0 {
        1
    } else {
        3 * pow3((e - 1) as nat)
    }
}

/// Bound on the work left below a pending pair: the deeper the pair sits in
/// the arrays, the less.
pub open spec fn pair_weight(a: Seq<Content>, b: Seq<Content>, p: (usize, usize)) -> nat {
    pow3((a.len() - p.0 + b.len() - p.1) as nat)
}

/// Bound on the work left for a stack of pending pairs.
pub open spec fn stack_weight(a: Seq<Content>, b: Seq<Content>, s: Seq<(usize, usize)>) -> nat
    decreases s.len(),
{
    if s.len() == 0 {
        0
    } else {
        stack_weight(a, b, s.drop_last()) + pair_weight(a, b, s.last())
    }
}

proof fn lemma_pow3_grows(e1: nat, e2: nat)
    requires
        e1 <= e2,
    ensures
        1 <= pow3(e1) <= pow3(e2),
    decreases e2,
{
    if e2 > 0 {
        if e1 < e2 {
            lemma_pow3_grows(e1, (e2 - 1) as nat);
        } else {
            lemma_pow3_grows((e1 - 1) as nat, (e2 - 1) as nat);
        }
    }
}

/// Each step of the descent lowers the weight of the pending stack, which
/// never drops below zero: from any start the search ends.
pub proof fn lemma_descend_ends(
    a: Seq<Content>,
    b: Seq<Content>,
    s: Seq<(usize, usize)>,
    overlap: bool,
)
    requires
        well_formed(a),
        well_formed(b),
        s.len() > 0,
        in_range(a, b, s),
    ensures
        stack_weight(a, b, descend_spec(a, b, s, overlap).0) < stack_weight(a, b, s),
{
    let (i, j) = s.last();
    let rest = s.drop_last();
    assert(s[s.len() - 1] == s.last());
    let m = (a.len() - i + b.len() - j) as nat;
    lemma_pow3_grows(0, m);
    if overlap {
        match a[i as int] {
            Content::Internal(l, r) => {
                let s1 = rest.push((r, j));
                let s2 = s1.push((l, j));
                assert(s2.drop_last() =~= s1);
                assert(s1.drop_last() =~= rest);
                assert(m >= 1);
                lemma_pow3_grows((a.len() - l + b.len() - j) as nat, (m - 1) as nat);
                lemma_pow3_grows((a.len() - r + b.len() - j) as nat, (m - 1) as nat);
                assert(pow3(m) == 3 * pow3((m - 1) as nat));
                assert(stack_weight(a, b, s) == stack_weight(a, b, rest) + pow3(m));
                assert(stack_weight(a, b, s1) == stack_weight(a, b, rest)
                    + pair_weight(a, b, s1.last()));
                assert(stack_weight(a, b, s2) == stack_weight(a, b, rest)
                    + pair_weight(a, b, s1.last())
                    + pair_weight(a, b, s2.last()));
            },
            Content::Leaf(_) => match b[j as int] {
                Content::Internal(l, r) => {
                    let s1 = rest.push((i, r));
                    let s2 = s1.push((i, l));
                    assert(s2.drop_last() =~= s1);
                    assert(s1.drop_last() =~= rest);
                    assert(m >= 1);
                    lemma_pow3_grows((a.len() - i + b.len() - l) as nat, (m - 1) as nat);
                    lemma_pow3_grows((a.len() - i + b.len() - r) as nat, (m - 1) as nat);
                    assert(pow3(m) == 3 * pow3((m - 1) as nat));
                    assert(stack_weight(a, b, s) == stack_weight(a, b, rest) + pow3(m));
                    assert(stack_weight(a, b, s1) == stack_weight(a, b, rest)
                        + pair_weight(a, b, s1.last()));
                    assert(stack_weight(a, b, s2) == stack_weight(a, b, rest)
                        + pair_weight(a, b, s1.last())
                        + pair_weight(a, b, s2.last()));
                },
                Content::Leaf(_) => {},
            },
        }
    }
}

/// Two single-cell trees: the descent tests the pair of roots once and
/// reports it exactly when the narrow-phase test finds their cells overlap.
pub proof fn lemma_single_cells(overlap: bool)
    ensures
        descend_spec(
            seq![Content::Leaf(0)],
            seq![Content::Leaf(0)],
            seq![(0usize, 0usize)],
            overlap,
        ) == (Seq::<(usize, usize)>::empty(), if overlap {
            Some((0usize, 0usize))
        } else {
            None::<(usize, usize)>
        }),
{
    assert(seq![(0usize, 0usize)].drop_last() =~= Seq::<(usize, usize)>::empty());
}

} // verus!

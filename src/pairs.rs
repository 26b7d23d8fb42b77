//! Which entity pairs a collision pass examines, and in what order.
//!
//! A pass first pairs composite bodies with each other, each unordered pair
//! once, then pairs every composite body with every simple collider that does
//! not ignore it. Pairs are given by position in the input lists, in the order
//! the pass must examine them, which is also the order its contacts resolve in.
use vstd::prelude::*;
use crate::authority::EntityId;

verus! {

/// A composite body as the pair schedule sees it.
#[derive(Clone, Copy, Debug, PartialEq, Eq, Structural)]
pub struct BodyRef {
    pub entity: EntityId,
    /// The body has no cells, and so collides with nothing.
    pub empty: bool,
}

/// A simple collider as the pair schedule sees it.
#[derive(Clone, Copy, Debug, PartialEq, Eq, Structural)]
pub struct ColliderRef {
    pub entity: EntityId,
    /// A composite body this collider never hits (the one that fired it).
    pub ignore: Option<EntityId>,
}

/// Body `j` is paired with body `i`: both have cells and `j` comes before `i`,
/// so that each unordered pair is met once and no body meets itself.
pub open spec fn body_pair(b: Seq<BodyRef>, i: int, j: int) -> bool {
    b[j].entity.precedes(b[i].entity) && !b[i].empty && !b[j].empty
}

/// The pairs `(i, j)` with `j < n`, in increasing `j`.
pub open spec fn body_row(b: Seq<BodyRef>, i: int, n: int) -> Seq<(usize, usize)>
    decreases n,
{
    if n <= 0 {
        seq![]
    } else if body_pair(b, i, n - 1) {
        body_row(b, i, n - 1).push((i as usize, (n - 1) as usize))
    } else {
        body_row(b, i, n - 1)
    }
}

/// The body pairs whose first member is among the first `n` bodies.
pub open spec fn body_schedule(b: Seq<BodyRef>, n: int) -> Seq<(usize, usize)>
    decreases n,
{
    if n <= 0 {
        seq![]
    } else {
        body_schedule(b, n - 1) + body_row(b, n - 1, b.len() as int)
    }
}

/// Collider `j` is paired with body `i`: the body has cells and the collider
/// does not ignore it.
pub open spec fn collider_pair(b: Seq<BodyRef>, c: Seq<ColliderRef>, i: int, j: int) -> bool {
    !b[i].empty && c[j].ignore != Some(b[i].entity)
}

pub open spec fn collider_row(b: Seq<BodyRef>, c: Seq<ColliderRef>, i: int, n: int) -> Seq<
    (usize, usize),
>
    decreases n,
{
    if n <= 0 {
        seq![]
    } else if collider_pair(b, c, i, n - 1) {
        collider_row(b, c, i, n - 1).push((i as usize, (n - 1) as usize))
    } else {
        collider_row(b, c, i, n - 1)
    }
}

pub open spec fn collider_schedule(b: Seq<BodyRef>, c: Seq<ColliderRef>, n: int) -> Seq<
    (usize, usize),
>
    decreases n,
{
    if n <= 0 {
        seq![]
    } else {
        collider_schedule(b, c, n - 1) + collider_row(b, c, n - 1, c.len() as int)
    }
}

/// The composite-against-composite pairs, as `(i, j)` with body `j` before
/// body `i`, grouped by `i` and then ordered by `j`.
pub fn body_pairs(bodies: &Vec<BodyRef>) -> (r: Vec<(usize, usize)>)
    ensures
        r@ == body_schedule(bodies@, bodies@.len() as int),
{
    let mut r: Vec<(usize, usize)> = Vec::new();
    let n = bodies.len();
    let mut i: usize = 0;
    while i < n
        invariant
            n == bodies@.len(),
            i <= n,
            r@ == body_schedule(bodies@, i as int),
        decreases n - i,
    {
        let mut j: usize = 0;
        while j < n
            invariant
                n == bodies@.len(),
                i < n,
                j <= n,
                r@ == body_schedule(bodies@, i as int) + body_row(bodies@, i as int, j as int),
            decreases n - j,
        {
            let a = &bodies[i];
            let b = &bodies[j];
            if b.entity.before(&a.entity) && !a.empty && !b.empty {
                r.push((i, j));
            }
            j += 1;
        }
        i += 1;
    }
    r
}

/// The composite-against-collider pairs, as `(i, j)` for body `i` and
/// collider `j`, grouped by body and then ordered by collider.
pub fn collider_pairs(bodies: &Vec<BodyRef>, colliders: &Vec<ColliderRef>) -> (r: Vec<
    (usize, usize),
>)
    ensures
        r@ == collider_schedule(bodies@, colliders@, bodies@.len() as int),
{
    let mut r: Vec<(usize, usize)> = Vec::new();
    let n = bodies.len();
    let m = colliders.len();
    let mut i: usize = 0;
    while i < n
        invariant
            n == bodies@.len(),
            m == colliders@.len(),
            i <= n,
            r@ == collider_schedule(bodies@, colliders@, i as int),
        decreases n - i,
    {
        let mut j: usize = 0;
        while j < m
            invariant
                n == bodies@.len(),
                m == colliders@.len(),
                i < n,
                j <= m,
                r@ == collider_schedule(bodies@, colliders@, i as int) + collider_row(
                    bodies@,
                    colliders@,
                    i as int,
                    j as int,
                ),
            decreases m - j,
        {
            let b = &bodies[i];
            let c = &colliders[j];
            let ignored = match c.ignore {
                Some(e) => e == b.entity,
                None => false,
            };
            if !b.empty && !ignored {
                r.push((i, j));
            }
            j += 1;
        }
        i += 1;
    }
    r
}

/// Pairs come in strictly increasing order, first by body then by partner,
/// so none is repeated.
pub open spec fn strictly_ordered(s: Seq<(usize, usize)>) -> bool {
    forall|p: int, q: int|
        0 <= p < q < s.len() ==> (s[p].0 < s[q].0 || (s[p].0 == s[q].0 && s[p].1 < s[q].1))
}

proof fn lemma_row(b: Seq<BodyRef>, i: int, n: int)
    requires
        0 <= i < b.len(),
        0 <= n <= b.len(),
        b.len() <= usize::MAX,
    ensures
        strictly_ordered(body_row(b, i, n)),
        forall|k: int|
            0 <= k < body_row(b, i, n).len() ==> body_row(b, i, n)[k].0 == i && body_row(
                b,
                i,
                n,
            )[k].1 < n,
        forall|j: int|
            0 <= j < b.len() ==> (body_row(b, i, n).contains((i as usize, j as usize)) <==> (j
                < n && body_pair(b, i, j))),
    decreases n,
{
    if n > 0 {
        lemma_row(b, i, n - 1);
        let prev = body_row(b, i, n - 1);
        if body_pair(b, i, n - 1) {
            let x = (i as usize, (n - 1) as usize);
            assert forall|j: int| 0 <= j < b.len() implies (prev.push(x).contains(
                (i as usize, j as usize),
            ) <==> (j < n && body_pair(b, i, j))) by {
                if prev.push(x).contains((i as usize, j as usize)) {
                    let k = choose|k: int|
                        0 <= k < prev.push(x).len() && prev.push(x)[k] == (i as usize, j as usize);
                    if k < prev.len() {
                        assert(prev.contains((i as usize, j as usize)));
                    }
                }
                if j < n && body_pair(b, i, j) {
                    if j == n - 1 {
                        assert(prev.push(x)[prev.len() as int] == x);
                    } else {
                        let k = choose|k: int|
                            0 <= k < prev.len() && prev[k] == (i as usize, j as usize);
                        assert(prev.push(x)[k] == prev[k]);
                    }
                }
            }
        } else {
            assert forall|j: int| 0 <= j < b.len() implies (prev.contains(
                (i as usize, j as usize),
            ) <==> (j < n && body_pair(b, i, j))) by {
                if prev.contains((i as usize, j as usize)) {
                    let k = choose|k: int|
                        0 <= k < prev.len() && prev[k] == (i as usize, j as usize);
                    assert(prev[k].1 < n - 1);
                }
            }
        }
    }
}

proof fn lemma_schedule(b: Seq<BodyRef>, n: int)
    requires
        0 <= n <= b.len(),
        b.len() <= usize::MAX,
    ensures
        strictly_ordered(body_schedule(b, n)),
        forall|k: int| 0 <= k < body_schedule(b, n).len() ==> body_schedule(b, n)[k].0 < n,
        forall|i: int, j: int|
            0 <= i < b.len() && 0 <= j < b.len() ==> (body_schedule(b, n).contains(
                (i as usize, j as usize),
            ) <==> (i < n && body_pair(b, i, j))),
    decreases n,
{
    if n > 0 {
        lemma_schedule(b, n - 1);
        lemma_row(b, n - 1, b.len() as int);
        let prev = body_schedule(b, n - 1);
        let row = body_row(b, n - 1, b.len() as int);
        let all = prev + row;
        assert(body_schedule(b, n) == all);
        assert forall|p: int, q: int| 0 <= p < q < all.len() implies (all[p].0 < all[q].0 || (
        all[p].0 == all[q].0 && all[p].1 < all[q].1)) by {
            if q >= prev.len() && p >= prev.len() {
                assert(all[p] == row[p - prev.len()]);
                assert(all[q] == row[q - prev.len()]);
            } else if q >= prev.len() {
                assert(all[q] == row[q - prev.len()]);
            }
        }
        assert forall|i: int, j: int| 0 <= i < b.len() && 0 <= j < b.len() implies (all.contains(
            (i as usize, j as usize),
        ) <==> (i < n && body_pair(b, i, j))) by {
            let x = (i as usize, j as usize);
            if all.contains(x) {
                let k = choose|k: int| 0 <= k < all.len() && all[k] == x;
                if k < prev.len() {
                    assert(prev[k] == x);
                } else {
                    assert(row[k - prev.len()] == x);
                }
            }
            if i < n && body_pair(b, i, j) {
                if i < n - 1 {
                    let k = choose|k: int| 0 <= k < prev.len() && prev[k] == x;
                    assert(all[k] == x);
                } else {
                    let k = choose|k: int| 0 <= k < row.len() && row[k] == x;
                    assert(all[prev.len() + k] == x);
                }
            }
        }
    }
}

/// The composite-against-composite schedule examines each unordered pair of
/// distinct bodies that both have cells exactly once: it names no pair twice,
/// `(i, j)` is in it exactly when both bodies have cells and body `j` comes
/// before body `i`, and so of two distinct bodies with cells exactly one of
/// `(i, j)` and `(j, i)` is in it. No entity is paired with itself.
pub proof fn lemma_each_pair_once(b: Seq<BodyRef>)
    requires
        b.len() <= usize::MAX,
    ensures
        strictly_ordered(body_schedule(b, b.len() as int)),
        forall|i: int, j: int|
            0 <= i < b.len() && 0 <= j < b.len() ==> (body_schedule(b, b.len() as int).contains(
                (i as usize, j as usize),
            ) <==> body_pair(b, i, j)),
        forall|i: int, j: int|
            0 <= i < b.len() && 0 <= j < b.len() && b[i].entity != b[j].entity && !b[i].empty
                && !b[j].empty ==> (body_schedule(b, b.len() as int).contains(
                (i as usize, j as usize),
            ) != body_schedule(b, b.len() as int).contains((j as usize, i as usize))),
        forall|i: int, j: int|
            0 <= i < b.len() && 0 <= j < b.len() && body_schedule(b, b.len() as int).contains(
                (i as usize, j as usize),
            ) ==> b[i].entity != b[j].entity,
{
    lemma_schedule(b, b.len() as int);
    let s = body_schedule(b, b.len() as int);
    assert forall|i: int, j: int|
        0 <= i < b.len() && 0 <= j < b.len() && s.contains(
            (i as usize, j as usize),
        ) implies b[i].entity != b[j].entity by {
        assert(body_pair(b, i, j));
    }
    assert forall|i: int, j: int|
        0 <= i < b.len() && 0 <= j < b.len() && b[i].entity != b[j].entity && !b[i].empty
            && !b[j].empty implies (s.contains((i as usize, j as usize)) != s.contains(
        (j as usize, i as usize),
    )) by {
        assert(s.contains((i as usize, j as usize)) <==> body_pair(b, i, j));
        assert(s.contains((j as usize, i as usize)) <==> body_pair(b, j, i));
    }
}

} // verus!

//! What a polygon reduces to at one level of the build, judged by the point
//! counts of its rings (closed rings: the first point is repeated at the end).
use vstd::prelude::*;

verus! {

/// What one level of the build does with a polygon.
#[derive(Clone, Copy, Debug, PartialEq, Eq, Structural)]
pub enum Level {
    /// Nothing of the polygon is left: the node is empty.
    Empty,
    /// A single triangle is left, as the ring of this index.
    Triangle(usize),
    /// The polygon must be split further.
    General,
}

/// A ring is kept when it has more than three points, that is, more than the
/// two distinct vertices of a degenerate ring.
pub open spec fn is_kept(size: usize) -> bool {
    size > 3
}

/// Indices of the kept rings, in order.
pub open spec fn kept_indices(sizes: Seq<usize>) -> Seq<usize>
    decreases sizes.len(),
{
    if sizes.len() == 0 {
        seq![]
    } else {
        let rest = kept_indices(sizes.drop_last());
        if is_kept(sizes.last()) {
            rest.push((sizes.len() - 1) as usize)
        } else {
            rest
        }
    }
}

/// Total number of points in the kept rings.
pub open spec fn kept_points(sizes: Seq<usize>) -> nat
    decreases sizes.len(),
{
    if sizes.len() == 0 {
        0
    } else {
        kept_points(sizes.drop_last()) + if is_kept(sizes.last()) {
            sizes.last() as nat
        } else {
            0
        }
    }
}

pub open spec fn level_of(sizes: Seq<usize>) -> Level {
    let kept = kept_indices(sizes);
    if kept.len() == 0 {
        Level::Empty
    } else if kept.len() == 1 && sizes[kept[0] as int] == 4 {
        Level::Triangle(kept[0])
    } else {
        Level::General
    }
}

proof fn lemma_kept_indices_bounded(sizes: Seq<usize>)
    ensures
        forall|k: int| 0 <= k < kept_indices(sizes).len() ==> kept_indices(sizes)[k] < sizes.len(),
    decreases sizes.len(),
{
    if sizes.len() > 0 {
        let rest = kept_indices(sizes.drop_last());
        lemma_kept_indices_bounded(sizes.drop_last());
        assert forall|k: int| 0 <= k < kept_indices(sizes).len() implies kept_indices(sizes)[k]
            < sizes.len() by {
            if k < rest.len() {
                assert(kept_indices(sizes)[k] == rest[k]);
            }
        }
    }
}

/// Indices of the rings with more than three points.
pub fn keep_rings(sizes: &Vec<usize>) -> (r: Vec<usize>)
    ensures
        r@ == kept_indices(sizes@),
{
    let mut r: Vec<usize> = Vec::new();
    let mut k: usize = 0;
    while k < sizes.len()
        invariant
            k <= sizes@.len(),
            r@ == kept_indices(sizes@.take(k as int)),
        decreases sizes@.len() - k,
    {
        assert(sizes@.take(k + 1).drop_last() =~= sizes@.take(k as int));
        if sizes[k] > 3 {
            r.push(k);
        }
        k = k + 1;
    }
    assert(sizes@.take(k as int) =~= sizes@);
    r
}

/// Number of points in the rings with more than three points; `None` when
/// that number does not fit in a `usize`.
pub fn count_kept_points(sizes: &Vec<usize>) -> (r: Option<usize>)
    ensures
        r == (if kept_points(sizes@) <= usize::MAX {
            Some(kept_points(sizes@) as usize)
        } else {
            None::<usize>
        }),
{
    let mut r: usize = 0;
    let mut k: usize = 0;
    while k < sizes.len()
        invariant
            k <= sizes@.len(),
            r == kept_points(sizes@.take(k as int)),
        decreases sizes@.len() - k,
    {
        assert(sizes@.take(k + 1).drop_last() =~= sizes@.take(k as int));
        if sizes[k] > 3 {
            if r > usize::MAX - sizes[k] {
                proof {
                    lemma_kept_points_prefix(sizes@, k as int + 1);
                }
                return None;
            }
            r = r + sizes[k];
        }
        k = k + 1;
    }
    assert(sizes@.take(k as int) =~= sizes@);
    Some(r)
}

proof fn lemma_kept_points_prefix(sizes: Seq<usize>, n: int)
    requires
        0 <= n <= sizes.len(),
    ensures
        kept_points(sizes.take(n)) <= kept_points(sizes),
    decreases sizes.len(),
{
    if n < sizes.len() {
        assert(sizes.drop_last().take(n) =~= sizes.take(n));
        lemma_kept_points_prefix(sizes.drop_last(), n);
    } else {
        assert(sizes.take(n) =~= sizes);
    }
}

/// Decides what one level of the build does with a polygon whose rings, after
/// simplification, have `sizes[i]` points each.
pub fn classify_level(sizes: &Vec<usize>) -> (r: Level)
    ensures
        r == level_of(sizes@),
        r matches Level::Triangle(i) ==> i < sizes@.len(),
{
    let kept = keep_rings(sizes);
    proof {
        lemma_kept_indices_bounded(sizes@);
    }
    if kept.len() == 0 {
        Level::Empty
    } else if kept.len() == 1 && sizes[kept[0]] == 4 {
        Level::Triangle(kept[0])
    } else {
        Level::General
    }
}

} // verus!

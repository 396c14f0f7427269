//! Cutting the convex frame around a polygon into two pieces along a candidate
//! line, and the order in which candidate lines are tried.
use vstd::prelude::*;

verus! {

/// A vertex of a frame piece, named by the frame edge it comes from.
#[derive(Clone, Copy, Debug, PartialEq, Eq, Structural)]
pub enum FramePoint {
    /// Where the cutting line crosses frame edge `i`.
    Crossing(usize),
    /// The end point of frame edge `i`.
    Corner(usize),
}

/// Indices of the crossed edges, in order.
pub open spec fn crossed_edges(crossed: Seq<bool>) -> Seq<int>
    decreases crossed.len(),
{
    if crossed.len() == 0 {
        seq![]
    } else {
        let rest = crossed_edges(crossed.drop_last());
        if crossed.last() {
            rest.push(crossed.len() - 1)
        } else {
            rest
        }
    }
}

/// The corners of the uncrossed edges `i` with `lo <= i < hi`, in order.
pub open spec fn corners(crossed: Seq<bool>, lo: int, hi: int) -> Seq<FramePoint>
    decreases hi - lo,
{
    if hi <= lo {
        seq![]
    } else if crossed[hi - 1] {
        corners(crossed, lo, hi - 1)
    } else {
        corners(crossed, lo, hi - 1).push(FramePoint::Corner((hi - 1) as usize))
    }
}

/// The two pieces of the frame. With `c1 < c2` the first two crossed edges,
/// the first piece holds the corners before `c1`, the crossings on `c1` and
/// `c2`, the corner of `c2` and the uncrossed corners after `c2`; the second
/// holds the crossing on `c1`, the corner of `c1`, the corners between `c1`
/// and `c2`, and the crossing on `c2`. With one crossed edge the second piece
/// runs from it to the end; with none, every corner is in the first piece.
pub open spec fn pieces(crossed: Seq<bool>) -> (Seq<FramePoint>, Seq<FramePoint>) {
    let cs = crossed_edges(crossed);
    let n = crossed.len() as int;
    if cs.len() == 0 {
        (corners(crossed, 0, n), seq![])
    } else if cs.len() == 1 {
        let c1 = cs[0];
        (
            corners(crossed, 0, c1).push(FramePoint::Crossing(c1 as usize)),
            seq![FramePoint::Crossing(c1 as usize), FramePoint::Corner(c1 as usize)] + corners(crossed, c1 + 1, n),
        )
    } else {
        let (c1, c2) = (cs[0], cs[1]);
        (
            corners(crossed, 0, c1) + seq![
                FramePoint::Crossing(c1 as usize),
                FramePoint::Crossing(c2 as usize),
                FramePoint::Corner(c2 as usize),
            ] + corners(crossed, c2 + 1, n),
            seq![FramePoint::Crossing(c1 as usize), FramePoint::Corner(c1 as usize)] + corners(crossed, c1 + 1, c2)
                + seq![FramePoint::Crossing(c2 as usize)],
        )
    }
}

proof fn lemma_corners_prefix(crossed: Seq<bool>, k: int, lo: int, hi: int)
    requires
        0 <= lo,
        hi <= k <= crossed.len(),
    ensures
        corners(crossed.take(k), lo, hi) == corners(crossed, lo, hi),
    decreases hi - lo,
{
    if hi > lo {
        lemma_corners_prefix(crossed, k, lo, hi - 1);
    }
}

proof fn lemma_crossed_edges_facts(crossed: Seq<bool>)
    ensures
        forall|j: int| 0 <= j < crossed_edges(crossed).len() ==> 0 <= #[trigger] crossed_edges(crossed)[j] < crossed.len()
            && crossed[crossed_edges(crossed)[j]],
        forall|j: int, l: int| 0 <= j < l < crossed_edges(crossed).len() ==> crossed_edges(crossed)[j] < crossed_edges(crossed)[l],
        crossed_edges(crossed).len() == 0 ==> forall|i: int| 0 <= i < crossed.len() ==> !crossed[i],
        crossed_edges(crossed).len() >= 1 ==> forall|i: int| 0 <= i < crossed_edges(crossed)[0] ==> !crossed[i],
        crossed_edges(crossed).len() == 1 ==> forall|i: int| crossed_edges(crossed)[0] < i < crossed.len() ==> !crossed[i],
        crossed_edges(crossed).len() >= 2 ==> forall|i: int| crossed_edges(crossed)[0] < i < crossed_edges(crossed)[1] ==> !crossed[i],
    decreases crossed.len(),
{
    if crossed.len() > 0 {
        let d = crossed.drop_last();
        let n = crossed.len() - 1;
        lemma_crossed_edges_facts(d);
        let rest = crossed_edges(d);
        let cs = crossed_edges(crossed);
        assert forall|i: int| 0 <= i < n implies d[i] == crossed[i] by {}
        assert forall|j: int| 0 <= j < rest.len() implies crossed[rest[j]] by {
            assert(d[rest[j]] == crossed[rest[j]]);
        }
        if crossed.last() {
            assert(cs == rest.push(n));
        } else {
            assert(cs == rest);
        }
        assert forall|j: int| 0 <= j < cs.len() implies 0 <= #[trigger] cs[j] < crossed.len() && crossed[cs[j]] by {
            if j < rest.len() {
                assert(cs[j] == rest[j]);
            }
        }
        assert forall|j: int, l: int| 0 <= j < l < cs.len() implies cs[j] < cs[l] by {
            if l < rest.len() {
                assert(cs[j] == rest[j] && cs[l] == rest[l]);
            } else {
                assert(cs[j] == rest[j]);
            }
        }
        if cs.len() >= 1 {
            assert forall|i: int| 0 <= i < cs[0] implies !crossed[i] by {
                assert(!d[i]);
            }
        }
        if cs.len() == 1 {
            assert forall|i: int| cs[0] < i < crossed.len() implies !crossed[i] by {
                if i < n {
                    assert(!d[i]);
                }
            }
        }
        if cs.len() >= 2 {
            assert forall|i: int| cs[0] < i < cs[1] implies !crossed[i] by {
                assert(!d[i]);
            }
        }
    }
}

/// Cuts the frame along a line; `crossed[i]` tells whether the line crosses
/// frame edge `i` at a single point.
pub fn split_frame(crossed: &Vec<bool>) -> (r: (Vec<FramePoint>, Vec<FramePoint>))
    ensures
        (r.0@, r.1@) == pieces(crossed@),
{
    let mut first: Vec<FramePoint> = Vec::new();
    let mut second: Vec<FramePoint> = Vec::new();
    let mut count: usize = 0;
    let mut i: usize = 0;
    while i < crossed.len()
        invariant
            i <= crossed@.len(),
            pieces(crossed@.take(i as int)) == (first@, second@),
            count == (if crossed_edges(crossed@.take(i as int)).len() < 2 {
                crossed_edges(crossed@.take(i as int)).len()
            } else {
                2
            }),
        decreases crossed@.len() - i,
    {
        let ghost pre = crossed@.take(i as int);
        let ghost post = crossed@.take(i + 1);
        assert(post.drop_last() =~= pre);
        proof {
            lemma_crossed_edges_facts(pre);
            lemma_crossed_edges_facts(post);
            let cs = crossed_edges(pre);
            lemma_corners_prefix(post, i as int, 0, i as int);
            if cs.len() >= 1 {
                lemma_corners_prefix(post, i as int, 0, cs[0]);
                lemma_corners_prefix(post, i as int, cs[0] + 1, i as int);
            }
            if cs.len() >= 2 {
                lemma_corners_prefix(post, i as int, cs[0] + 1, cs[1]);
                lemma_corners_prefix(post, i as int, cs[1] + 1, i as int);
            }
            assert(post.take(i as int) =~= pre);
        }
        if crossed[i] {
            if count == 0 {
                first.push(FramePoint::Crossing(i));
                second.push(FramePoint::Crossing(i));
                second.push(FramePoint::Corner(i));
                count = 1;
            } else if count == 1 {
                second.push(FramePoint::Crossing(i));
                first.push(FramePoint::Crossing(i));
                first.push(FramePoint::Corner(i));
                count = 2;
            }
        } else if count == 1 {
            second.push(FramePoint::Corner(i));
        } else {
            first.push(FramePoint::Corner(i));
        }
        i = i + 1;
    }
    assert(crossed@.take(i as int) =~= crossed@);
    (first, second)
}

/// Every ordered pair of point indices below `n`, the first index varying
/// slowest; each pair names a candidate line from one point to the other.
pub fn candidate_pairs(n: usize) -> (r: Vec<(usize, usize)>)
    requires
        n * n <= usize::MAX,
    ensures
        r@.len() == n * n,
        forall|k: int| 0 <= k < n * n ==> r@[k] == ((k / n as int) as usize, (k % n as int) as usize),
{
    let mut r: Vec<(usize, usize)> = Vec::new();
    let total: usize = n * n;
    let mut k: usize = 0;
    while k < total
        invariant
            total == n * n,
            k <= total,
            r@.len() == k,
            forall|m: int| 0 <= m < k ==> r@[m] == ((m / n as int) as usize, (m % n as int) as usize),
        decreases total - k,
    {
        r.push((k / n, k % n));
        k = k + 1;
    }
    r
}

} // verus!

//! Choosing the line that splits a polygon: candidates are scored by how
//! evenly they share the vertices between the two sides.
use vstd::prelude::*;

verus! {

/// The score of an admissible split; lower is better.
#[derive(Clone, Copy, Debug, PartialEq, Eq, Structural)]
pub enum SplitScore {
    /// Both sides keep vertices: the ratio `larger / smaller` (at least 1).
    Balanced { larger: usize, smaller: usize },
    /// One side is empty but the split still sheds vertices: worse than any
    /// balanced split.
    LastResort,
}

impl SplitScore {
    pub open spec fn wf(self) -> bool {
        match self {
            SplitScore::Balanced { larger, smaller } => 0 < smaller <= larger,
            SplitScore::LastResort => true,
        }
    }

    /// `self` is strictly better than `other`.
    pub open spec fn better(self, other: SplitScore) -> bool {
        match (self, other) {
            (SplitScore::Balanced { larger: p, smaller: q }, SplitScore::Balanced { larger: r, smaller: s }) =>
                p * s < r * q,
            (SplitScore::Balanced { .. }, SplitScore::LastResort) => true,
            (SplitScore::LastResort, _) => false,
        }
    }

    /// Whether `self` scores strictly better than `other`.
    pub fn is_better(&self, other: &SplitScore) -> (r: bool)
        ensures
            r == self.better(*other),
    {
        match (self, other) {
            (SplitScore::Balanced { larger: p, smaller: q }, SplitScore::Balanced { larger: r, smaller: s }) => {
                proof {
                    lemma_product_fits(*p, *s);
                    lemma_product_fits(*r, *q);
                }
                (*p as u128) * (*s as u128) < (*r as u128) * (*q as u128)
            },
            (SplitScore::Balanced { .. }, SplitScore::LastResort) => true,
            (SplitScore::LastResort, _) => false,
        }
    }
}

proof fn lemma_product_fits(a: usize, b: usize)
    ensures
        (a as int) * (b as int) <= u128::MAX,
{
    assert((a as int) * (b as int) <= u128::MAX) by (nonlinear_arith)
        requires
            0 <= a <= u64::MAX,
            0 <= b <= u64::MAX,
            u64::MAX * u64::MAX <= u128::MAX,
    {}
}

/// The score of a split whose sides keep `a1` and `a2` vertices, cut from a
/// polygon of `total` vertices. A split that keeps vertices on both sides is
/// admitted when each side has fewer vertices than the polygon; one that
/// empties exactly one side, when the other keeps fewer vertices than the
/// polygon. Every other split makes no progress and is rejected (`None`).
pub open spec fn score_of(a1: nat, a2: nat, total: nat) -> Option<SplitScore> {
    if a1 != 0 && a2 != 0 {
        if a1 >= total || a2 >= total {
            None
        } else if a1 < a2 {
            Some(SplitScore::Balanced { larger: a2 as usize, smaller: a1 as usize })
        } else {
            Some(SplitScore::Balanced { larger: a1 as usize, smaller: a2 as usize })
        }
    } else if a1 + a2 != 0 && a1 + a2 < total {
        Some(SplitScore::LastResort)
    } else {
        None
    }
}

/// Scores one candidate split.
pub fn score_split(a1: usize, a2: usize, total: usize) -> (r: Option<SplitScore>)
    ensures
        r == score_of(a1 as nat, a2 as nat, total as nat),
        r matches Some(s) ==> s.wf(),
{
    if a1 != 0 && a2 != 0 {
        if a1 >= total || a2 >= total {
            None
        } else if a1 < a2 {
            Some(SplitScore::Balanced { larger: a2, smaller: a1 })
        } else {
            Some(SplitScore::Balanced { larger: a1, smaller: a2 })
        }
    } else if (a1 != 0 || a2 != 0) && (a1 as u128) + (a2 as u128) < total as u128 {
        Some(SplitScore::LastResort)
    } else {
        None
    }
}

proof fn lemma_better_transitive(x: SplitScore, y: SplitScore, z: SplitScore)
    requires
        x.wf(),
        y.wf(),
        z.wf(),
        x.better(y),
        y.better(z),
    ensures
        x.better(z),
{
    if let (SplitScore::Balanced { larger: p, smaller: q }, SplitScore::Balanced { larger: r, smaller: s }, SplitScore::Balanced { larger: t, smaller: u }) = (x, y, z) {
        let (p, q, r, s, t, u) = (p as int, q as int, r as int, s as int, t as int, u as int);
        assert(p * u < t * q) by (nonlinear_arith)
            requires
                p * s < r * q,
                r * u < t * s,
                q > 0,
                s > 0,
                u > 0,
                r > 0,
        {
            assert(p * s * u < r * q * u);
            assert(r * u * q < t * s * q);
        }
    }
}

/// If `x` beats `z`, then `x` beats `y` or `y` beats `z`.
proof fn lemma_better_splits(x: SplitScore, y: SplitScore, z: SplitScore)
    requires
        x.wf(),
        y.wf(),
        z.wf(),
        x.better(z),
    ensures
        x.better(y) || y.better(z),
{
    if let (SplitScore::Balanced { larger: p, smaller: q }, SplitScore::Balanced { larger: r, smaller: s }, SplitScore::Balanced { larger: t, smaller: u }) = (x, y, z) {
        let (p, q, r, s, t, u) = (p as int, q as int, r as int, s as int, t as int, u as int);
        if !(p * s < r * q) && !(r * u < t * s) {
            assert(false) by (nonlinear_arith)
                requires
                    p * u < t * q,
                    p * s >= r * q,
                    r * u >= t * s,
                    q > 0,
                    s > 0,
                    u > 0,
            {
                assert(p * s * u >= r * q * u);
                assert(r * u * q >= t * s * q);
            }
        }
    }
}

/// The score of candidate `i`, given the vertex counts of both sides of each
/// candidate.
pub open spec fn candidate_score(results: Seq<(usize, usize)>, total: nat, i: int) -> Option<SplitScore> {
    score_of(results[i].0 as nat, results[i].1 as nat, total)
}

/// Candidate `i` is the first one with the best score.
pub open spec fn is_first_best(results: Seq<(usize, usize)>, total: nat, i: int) -> bool {
    &&& 0 <= i < results.len()
    &&& candidate_score(results, total, i) is Some
    &&& forall|j: int| 0 <= j < results.len() && candidate_score(results, total, j) is Some
        ==> !candidate_score(results, total, j).unwrap().better(candidate_score(results, total, i).unwrap())
    &&& forall|j: int| 0 <= j < i && candidate_score(results, total, j) is Some
        ==> candidate_score(results, total, i).unwrap().better(candidate_score(results, total, j).unwrap())
}

/// Picks the split to make among candidates whose sides keep
/// `results[i].0` and `results[i].1` vertices: the first one with the best
/// score, or `None` when no candidate makes progress.
pub fn select_split(results: &Vec<(usize, usize)>, total: usize) -> (r: Option<usize>)
    ensures
        r is None <==> forall|j: int| 0 <= j < results@.len() ==> candidate_score(results@, total as nat, j) is None,
        r matches Some(i) ==> is_first_best(results@, total as nat, i as int),
{
    let mut best: Option<(usize, SplitScore)> = None;
    let mut k: usize = 0;
    while k < results.len()
        invariant
            k <= results@.len(),
            best is None <==> forall|j: int| 0 <= j < k ==> candidate_score(results@, total as nat, j) is None,
            best matches Some((i, s)) ==> {
                &&& i < k
                &&& candidate_score(results@, total as nat, i as int) == Some(s)
                &&& s.wf()
                &&& forall|j: int| 0 <= j < k && candidate_score(results@, total as nat, j) is Some
                    ==> !candidate_score(results@, total as nat, j).unwrap().better(s)
                &&& forall|j: int| 0 <= j < i && candidate_score(results@, total as nat, j) is Some
                    ==> s.better(candidate_score(results@, total as nat, j).unwrap())
            },
        decreases results@.len() - k,
    {
        let (a1, a2) = results[k];
        if let Some(s) = score_split(a1, a2, total) {
            match best {
                None => {
                    best = Some((k, s));
                },
                Some((i, b)) => {
                    if s.is_better(&b) {
                        proof {
                            assert forall|j: int| 0 <= j < k && candidate_score(results@, total as nat, j) is Some
                                implies !candidate_score(results@, total as nat, j).unwrap().better(s) by {
                                let sj = candidate_score(results@, total as nat, j).unwrap();
                                if sj.better(s) {
                                    lemma_better_transitive(sj, s, b);
                                }
                            }
                            assert forall|j: int| 0 <= j < k && candidate_score(results@, total as nat, j) is Some
                                implies s.better(candidate_score(results@, total as nat, j).unwrap()) by {
                                let sj = candidate_score(results@, total as nat, j).unwrap();
                                lemma_better_splits(s, sj, b);
                            }
                        }
                        best = Some((k, s));
                    }
                },
            }
        }
        k = k + 1;
    }
    match best {
        Some((i, _)) => Some(i),
        None => None,
    }
}

/// Every chosen split makes progress: each side keeps fewer vertices than
/// the polygon had, and not both sides are empty. A split that keeps vertices
/// on both sides is chosen whenever some admissible candidate does.
pub proof fn lemma_chosen_split_progress(results: Seq<(usize, usize)>, total: nat, i: int)
    requires
        is_first_best(results, total, i),
    ensures
        results[i].0 < total,
        results[i].1 < total,
        results[i].0 != 0 || results[i].1 != 0,
        (exists|j: int|
            0 <= j < results.len() && results[j].0 != 0 && results[j].1 != 0 && results[j].0 < total
                && results[j].1 < total) ==> (results[i].0 != 0 && results[i].1 != 0),
{
    if exists|j: int|
        0 <= j < results.len() && results[j].0 != 0 && results[j].1 != 0 && results[j].0 < total
            && results[j].1 < total {
        let j = choose|j: int|
            0 <= j < results.len() && results[j].0 != 0 && results[j].1 != 0 && results[j].0 < total
                && results[j].1 < total;
        assert(candidate_score(results, total, j) is Some);
        assert(candidate_score(results, total, j).unwrap() is Balanced);
    }
}

} // verus!

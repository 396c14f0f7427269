//! The partition tree. Separators are referenced by their index in a table
//! that the caller keeps; a query is answered from the side of each separator.
use vstd::prelude::*;

verus! {

/// A separator together with the side on which it accepts a point.
#[derive(Clone, Copy, Debug, PartialEq, Eq, Structural)]
pub enum LineSplitCheckGeneralized {
    /// Accepts the points that lie on the "less" side of the separator.
    Less(usize),
    /// Accepts the points that do not lie on the "less" side.
    Greater(usize),
}

impl LineSplitCheckGeneralized {
    /// Index of the separator in the table.
    pub open spec fn index(self) -> nat {
        match self {
            LineSplitCheckGeneralized::Less(i) => i as nat,
            LineSplitCheckGeneralized::Greater(i) => i as nat,
        }
    }

    /// Whether a point is accepted, given for each separator whether the
    /// point lies on its "less" side.
    pub open spec fn accepts(self, sides: Seq<bool>) -> bool {
        match self {
            LineSplitCheckGeneralized::Less(i) => sides[i as int],
            LineSplitCheckGeneralized::Greater(i) => !sides[i as int],
        }
    }

    pub fn index_below(&self, n: usize) -> (r: bool)
        ensures
            r == (self.index() < n),
    {
        match self {
            LineSplitCheckGeneralized::Less(i) => *i < n,
            LineSplitCheckGeneralized::Greater(i) => *i < n,
        }
    }

    pub fn check(&self, sides: &Vec<bool>) -> (r: bool)
        requires
            self.index() < sides@.len(),
        ensures
            r == self.accepts(sides@),
    {
        match self {
            LineSplitCheckGeneralized::Less(i) => sides[*i],
            LineSplitCheckGeneralized::Greater(i) => !sides[*i],
        }
    }
}

/// A node of the partition tree.
#[derive(Debug)]
pub enum PolygonFastPrecalculatorPart {
    /// Points on the "less" side of separator `check` go to `less`, the others
    /// to `greater`.
    LineSplit {
        check: usize,
        less: Box<PolygonFastPrecalculatorPart>,
        greater: Box<PolygonFastPrecalculatorPart>,
    },
    /// A point is inside when all three checks accept it.
    Triangle { checks: [LineSplitCheckGeneralized; 3] },
    /// No point is inside.
    Empty,
}

impl PolygonFastPrecalculatorPart {
    /// Every separator index in the tree is below `n`.
    pub open spec fn refs_below(self, n: nat) -> bool
        decreases self,
    {
        match self {
            PolygonFastPrecalculatorPart::LineSplit { check, less, greater } => check < n
                && less.refs_below(n) && greater.refs_below(n),
            PolygonFastPrecalculatorPart::Triangle { checks } => checks[0].index() < n
                && checks[1].index() < n && checks[2].index() < n,
            PolygonFastPrecalculatorPart::Empty => true,
        }
    }

    /// Number of splits on the longest path from this node to a leaf.
    pub open spec fn depth(self) -> nat
        decreases self,
    {
        match self {
            PolygonFastPrecalculatorPart::LineSplit { less, greater, .. } => {
                let a = less.depth();
                let b = greater.depth();
                1 + if a < b { b } else { a }
            },
            _ => 0,
        }
    }

    /// The answer of the tree for a point, given for each separator whether the
    /// point lies on its "less" side.
    pub open spec fn eval(self, sides: Seq<bool>) -> bool
        decreases self,
    {
        match self {
            PolygonFastPrecalculatorPart::LineSplit { check, less, greater } => if sides[check as int] {
                less.eval(sides)
            } else {
                greater.eval(sides)
            },
            PolygonFastPrecalculatorPart::Triangle { checks } => checks[0].accepts(sides)
                && checks[1].accepts(sides) && checks[2].accepts(sides),
            PolygonFastPrecalculatorPart::Empty => false,
        }
    }

    /// Whether every separator index in the tree is below `n`.
    pub fn refers_below(&self, n: usize) -> (r: bool)
        ensures
            r == self.refs_below(n as nat),
        decreases self,
    {
        match self {
            PolygonFastPrecalculatorPart::LineSplit { check, less, greater } => *check < n
                && less.refers_below(n) && greater.refers_below(n),
            PolygonFastPrecalculatorPart::Triangle { checks } => checks[0].index_below(n)
                && checks[1].index_below(n) && checks[2].index_below(n),
            PolygonFastPrecalculatorPart::Empty => true,
        }
    }

    /// Descends from this node along one path and answers the query.
    pub fn decide(&self, sides: &Vec<bool>) -> (r: bool)
        requires
            self.refs_below(sides@.len()),
        ensures
            r == self.eval(sides@),
        decreases self,
    {
        match self {
            PolygonFastPrecalculatorPart::LineSplit { check, less, greater } => {
                if sides[*check] {
                    less.decide(sides)
                } else {
                    greater.decide(sides)
                }
            },
            PolygonFastPrecalculatorPart::Triangle { checks } => {
                checks[0].check(sides) && checks[1].check(sides) && checks[2].check(sides)
            },
            PolygonFastPrecalculatorPart::Empty => false,
        }
    }
}

/// One step of a query that evaluates separators lazily.
#[derive(Clone, Copy, Debug, PartialEq, Eq, Structural)]
pub enum Query {
    /// The side of this separator is needed next.
    Ask(usize),
    /// The query is answered.
    Answer(bool),
}

impl LineSplitCheckGeneralized {
    /// Whether a point is accepted, given whether it lies on the "less" side.
    pub open spec fn accepts_side(self, is_less: bool) -> bool {
        match self {
            LineSplitCheckGeneralized::Less(_) => is_less,
            LineSplitCheckGeneralized::Greater(_) => !is_less,
        }
    }

    pub fn accepts_answer(&self, is_less: bool) -> (r: bool)
        ensures
            r == self.accepts_side(is_less),
    {
        match self {
            LineSplitCheckGeneralized::Less(_) => is_less,
            LineSplitCheckGeneralized::Greater(_) => !is_less,
        }
    }

    pub fn separator(&self) -> (r: usize)
        ensures
            r == self.index(),
    {
        match self {
            LineSplitCheckGeneralized::Less(i) => *i,
            LineSplitCheckGeneralized::Greater(i) => *i,
        }
    }
}

/// The step after the checks of a triangle leaf have been answered by
/// `answers`, in order; the first rejection answers the query.
pub open spec fn triangle_query(checks: [LineSplitCheckGeneralized; 3], answers: Seq<bool>) -> Query {
    if answers.len() == 0 {
        Query::Ask(checks[0].index() as usize)
    } else if !checks[0].accepts_side(answers[0]) {
        Query::Answer(false)
    } else if answers.len() == 1 {
        Query::Ask(checks[1].index() as usize)
    } else if !checks[1].accepts_side(answers[1]) {
        Query::Answer(false)
    } else if answers.len() == 2 {
        Query::Ask(checks[2].index() as usize)
    } else {
        Query::Answer(checks[2].accepts_side(answers[2]))
    }
}

impl PolygonFastPrecalculatorPart {
    /// The step of a query after the separators asked so far were answered
    /// by `answers`, in order.
    pub open spec fn query(self, answers: Seq<bool>) -> Query
        decreases self,
    {
        match self {
            PolygonFastPrecalculatorPart::LineSplit { check, less, greater } => if answers.len() == 0 {
                Query::Ask(check)
            } else if answers[0] {
                less.query(answers.skip(1))
            } else {
                greater.query(answers.skip(1))
            },
            PolygonFastPrecalculatorPart::Triangle { checks } => triangle_query(checks, answers),
            PolygonFastPrecalculatorPart::Empty => Query::Answer(false),
        }
    }

    /// The answers that a point with the given sides gives, in the order in
    /// which a query asks for them.
    pub open spec fn path(self, sides: Seq<bool>) -> Seq<bool>
        decreases self,
    {
        match self {
            PolygonFastPrecalculatorPart::LineSplit { check, less, greater } => {
                let s = sides[check as int];
                seq![s] + if s {
                    less.path(sides)
                } else {
                    greater.path(sides)
                }
            },
            PolygonFastPrecalculatorPart::Triangle { checks } => {
                let a = sides[checks[0].index() as int];
                let b = sides[checks[1].index() as int];
                let c = sides[checks[2].index() as int];
                if !checks[0].accepts_side(a) {
                    seq![a]
                } else if !checks[1].accepts_side(b) {
                    seq![a, b]
                } else {
                    seq![a, b, c]
                }
            },
            PolygonFastPrecalculatorPart::Empty => seq![],
        }
    }

    /// The step of a query whose answers so far are `answers[from..]`.
    pub fn next_query(&self, answers: &Vec<bool>, from: usize) -> (r: Query)
        requires
            from <= answers@.len(),
        ensures
            r == self.query(answers@.skip(from as int)),
        decreases self,
    {
        match self {
            PolygonFastPrecalculatorPart::LineSplit { check, less, greater } => {
                if from == answers.len() {
                    Query::Ask(*check)
                } else {
                    assert(answers@.skip(from as int).skip(1) =~= answers@.skip(from + 1));
                    if answers[from] {
                        less.next_query(answers, from + 1)
                    } else {
                        greater.next_query(answers, from + 1)
                    }
                }
            },
            PolygonFastPrecalculatorPart::Triangle { checks } => {
                let n = answers.len() - from;
                if n == 0 {
                    Query::Ask(checks[0].separator())
                } else if !checks[0].accepts_answer(answers[from]) {
                    Query::Answer(false)
                } else if n == 1 {
                    Query::Ask(checks[1].separator())
                } else if !checks[1].accepts_answer(answers[from + 1]) {
                    Query::Answer(false)
                } else if n == 2 {
                    Query::Ask(checks[2].separator())
                } else {
                    Query::Answer(checks[2].accepts_answer(answers[from + 2]))
                }
            },
            PolygonFastPrecalculatorPart::Empty => Query::Answer(false),
        }
    }
}

/// A query answered honestly gives the tree's answer: for a point whose
/// sides are `sides`, each step before the end asks for a separator whose
/// side is the next answer given, and after all of them the query is
/// answered with `eval`.
pub proof fn lemma_query_answers_eval(node: PolygonFastPrecalculatorPart, sides: Seq<bool>)
    requires
        node.refs_below(sides.len()),
    ensures
        forall|k: int| 0 <= k < node.path(sides).len() ==> (#[trigger] node.query(node.path(sides).take(k))
            matches Query::Ask(i) && sides[i as int] == node.path(sides)[k]),
        node.query(node.path(sides)) == Query::Answer(node.eval(sides)),
    decreases node,
{
    let p = node.path(sides);
    match node {
        PolygonFastPrecalculatorPart::LineSplit { check, less, greater } => {
            let child = if sides[check as int] { *less } else { *greater };
            lemma_query_answers_eval(child, sides);
            let cp = child.path(sides);
            assert(p.skip(1) =~= cp);
            assert forall|k: int| 0 <= k < p.len() implies (#[trigger] node.query(p.take(k))
                matches Query::Ask(i) && sides[i as int] == p[k]) by {
                if k > 0 {
                    assert(p.take(k).skip(1) =~= cp.take(k - 1));
                    assert(child.query(cp.take(k - 1)) matches Query::Ask(_));
                }
            }
        },
        PolygonFastPrecalculatorPart::Triangle { checks } => {
            assert forall|k: int| 0 <= k < p.len() implies (#[trigger] node.query(p.take(k))
                matches Query::Ask(i) && sides[i as int] == p[k]) by {
                assert(p.take(k).len() == k);
            }
        },
        PolygonFastPrecalculatorPart::Empty => {},
    }
}

/// Orients separator `index` so that it accepts the side on which an interior
/// point lies; `interior_is_less` tells whether that point is on the "less" side.
pub fn orient(index: usize, interior_is_less: bool) -> (r: LineSplitCheckGeneralized)
    ensures
        r.index() == index,
        r.accepts_side(interior_is_less),
{
    if interior_is_less {
        LineSplitCheckGeneralized::Less(index)
    } else {
        LineSplitCheckGeneralized::Greater(index)
    }
}

/// One step of a query at a single node.
pub enum Step<'a> {
    /// The side of this separator is needed next.
    Ask(usize),
    /// The query goes on at this child, with no answers yet.
    Child(&'a PolygonFastPrecalculatorPart),
    /// The query is answered.
    Answer(bool),
}

impl PolygonFastPrecalculatorPart {
    /// The step of a query at this node, given the answers already given at
    /// this node. Following `Child` and restarting the answers there yields,
    /// step by step, the answers and asks of `query` for the whole sequence.
    pub fn step(&self, answers: &Vec<bool>) -> (r: Step<'_>)
        ensures
            match r {
                Step::Ask(i) => self.query(answers@) == Query::Ask(i),
                Step::Answer(b) => self.query(answers@) == Query::Answer(b),
                Step::Child(c) => answers@.len() >= 1 && forall|more: Seq<bool>|
                    #[trigger] self.query(answers@.take(1) + more) == c.query(more),
            },
    {
        match self {
            PolygonFastPrecalculatorPart::LineSplit { check, less, greater } => {
                if answers.len() == 0 {
                    Step::Ask(*check)
                } else {
                    proof {
                        assert forall|more: Seq<bool>| #![trigger self.query(answers@.take(1) + more)]
                            true implies self.query(answers@.take(1) + more)
                            == (if answers@[0] { less.query(more) } else { greater.query(more) }) by {
                            assert((answers@.take(1) + more).skip(1) =~= more);
                            assert((answers@.take(1) + more)[0] == answers@[0]);
                        }
                    }
                    if answers[0] {
                        Step::Child(&**less)
                    } else {
                        Step::Child(&**greater)
                    }
                }
            },
            _ => match self.next_query(answers, 0) {
                Query::Ask(i) => {
                    assert(answers@.skip(0) =~= answers@);
                    Step::Ask(i)
                },
                Query::Answer(b) => {
                    assert(answers@.skip(0) =~= answers@);
                    Step::Answer(b)
                },
            },
        }
    }
}

} // verus!

//! The bounding rectangle of the points seen so far.

use vstd::prelude::*;
use crate::single::Single;

verus! {

/// An axis-aligned rectangle between the corners `(x1, y1)` and `(x2, y2)`.
#[derive(Clone, Copy, Debug, PartialEq, Eq, Structural)]
pub struct Bounds {
    pub x1: Single,
    pub y1: Single,
    pub x2: Single,
    pub y2: Single,
}

impl Bounds {
    /// No corner holds a NaN.
    pub open spec fn is_defined(self) -> bool {
        &&& !self.x1.spec_is_nan()
        &&& !self.y1.spec_is_nan()
        &&& !self.x2.spec_is_nan()
        &&& !self.y2.spec_is_nan()
    }

    /// No corner holds a NaN and the first corner is not beyond the second.
    pub open spec fn well_formed(self) -> bool {
        &&& self.x1.spec_le(self.x2)
        &&& self.y1.spec_le(self.y2)
    }

    /// The point `(x, y)` lies in the rectangle, its edges included.
    pub open spec fn contains(self, x: Single, y: Single) -> bool {
        &&& self.x1.spec_le(x)
        &&& x.spec_le(self.x2)
        &&& self.y1.spec_le(y)
        &&& y.spec_le(self.y2)
    }

    /// The rectangle `inner` lies in this one: neither of its lower edges is
    /// below, neither of its upper edges above.
    pub open spec fn encloses(self, inner: Bounds) -> bool {
        &&& self.x1.spec_le(inner.x1)
        &&& self.y1.spec_le(inner.y1)
        &&& inner.x2.spec_le(self.x2)
        &&& inner.y2.spec_le(self.y2)
    }

    /// The rectangle after it has seen `(x, y)`.  A NaN coordinate moves no
    /// edge.
    pub open spec fn grown(self, x: Single, y: Single) -> Bounds {
        Bounds {
            x1: self.x1.spec_min(x),
            y1: self.y1.spec_min(y),
            x2: self.x2.spec_max(x),
            y2: self.y2.spec_max(y),
        }
    }

    /// The rectangle after it has seen every point of `points` in turn.
    pub open spec fn observed(self, points: Seq<(Single, Single)>) -> Bounds
        decreases points.len(),
    {
        if points.len() == 0 {
            self
        } else {
            self.observed(points.drop_last()).grown(points.last().0, points.last().1)
        }
    }

    /// The empty rectangle at the origin.
    pub open spec fn spec_new() -> Bounds {
        Bounds { x1: Single::zero(), y1: Single::zero(), x2: Single::zero(), y2: Single::zero() }
    }

    /// The empty rectangle at the origin.
    #[verifier::when_used_as_spec(spec_new)]
    pub fn new() -> (b: Bounds)
        ensures
            b == Bounds::spec_new(),
            b.well_formed(),
    {
        Bounds { x1: Single::zero(), y1: Single::zero(), x2: Single::zero(), y2: Single::zero() }
    }

    /// The rectangle from the origin to `(width, height)`.
    pub fn from_dimensions(width: Single, height: Single) -> (b: Bounds)
        ensures
            b.x1 == Single::zero(),
            b.y1 == Single::zero(),
            b.x2 == width,
            b.y2 == height,
            b.well_formed() <==> Single::zero().spec_le(width) && Single::zero().spec_le(height),
    {
        Bounds { x1: Single::zero(), y1: Single::zero(), x2: width, y2: height }
    }

    /// Grows the rectangle so that it holds `(x, y)`: each lower edge becomes
    /// the minimum of itself and the coordinate, each upper edge the maximum.
    ///
    /// The rectangle never shrinks: no lower edge rises and no upper edge
    /// falls.  It holds the point from then on, and stays well formed if it
    /// was.
    pub fn update(&mut self, x: Single, y: Single)
        ensures
            *final(self) == old(self).grown(x, y),
            old(self).is_defined() ==> final(self).is_defined() && final(self).encloses(*old(self)),
            old(self).well_formed() ==> final(self).well_formed(),
            !x.spec_is_nan() && !y.spec_is_nan() ==> final(self).contains(x, y),
    {
        self.x1 = self.x1.min(x);
        self.y1 = self.y1.min(y);
        self.x2 = self.x2.max(x);
        self.y2 = self.y2.max(y);
    }
}

/// Monotonic growth over a whole run: of the rectangles that a rectangle
/// passes through while it sees `points` one after another, each encloses
/// every earlier one.  Being well formed is kept too.
pub proof fn lemma_observed_grows(start: Bounds, points: Seq<(Single, Single)>, i: int, j: int)
    requires
        start.is_defined(),
        0 <= i <= j <= points.len(),
    ensures
        start.observed(points.take(j)).is_defined(),
        start.observed(points.take(j)).encloses(start.observed(points.take(i))),
        start.well_formed() ==> start.observed(points.take(j)).well_formed(),
    decreases j,
{
    if j == 0 {
        assert(points.take(0).len() == 0);
    } else {
        let before = points.take(j - 1);
        assert(points.take(j).drop_last() =~= before);
        if i == j {
            lemma_observed_grows(start, points, j - 1, j - 1);
        } else {
            lemma_observed_grows(start, points, i, j - 1);
        }
    }
}

/// Every coordinate seen lies between the edges of its axis from then on,
/// unless it is a NaN.
pub proof fn lemma_observed_contains(start: Bounds, points: Seq<(Single, Single)>, i: int)
    requires
        start.is_defined(),
        0 <= i < points.len(),
    ensures
        ({
            let b = start.observed(points);
            let (x, y) = points[i];
            &&& !x.spec_is_nan() ==> b.x1.spec_le(x) && x.spec_le(b.x2)
            &&& !y.spec_is_nan() ==> b.y1.spec_le(y) && y.spec_le(b.y2)
            &&& !x.spec_is_nan() && !y.spec_is_nan() ==> b.contains(x, y)
        }),
{
    lemma_observed_grows(start, points, i, i + 1);
    lemma_observed_grows(start, points, i + 1, points.len() as int);
    assert(points.take(points.len() as int) =~= points);
    assert(points.take(i + 1).drop_last() =~= points.take(i));
    assert(points.take(i + 1).last() == points[i]);
}

/// The rectangle is no larger than it must be: each edge is where it started
/// or runs through one of the points seen.
pub proof fn lemma_observed_tight(start: Bounds, points: Seq<(Single, Single)>)
    ensures
        ({
            let b = start.observed(points);
            &&& b.x1 == start.x1 || exists|i: int| 0 <= i < points.len() && b.x1 == points[i].0
            &&& b.y1 == start.y1 || exists|i: int| 0 <= i < points.len() && b.y1 == points[i].1
            &&& b.x2 == start.x2 || exists|i: int| 0 <= i < points.len() && b.x2 == points[i].0
            &&& b.y2 == start.y2 || exists|i: int| 0 <= i < points.len() && b.y2 == points[i].1
        }),
    decreases points.len(),
{
    if points.len() > 0 {
        let rest = points.drop_last();
        let last = points.len() - 1;
        lemma_observed_tight(start, rest);
        let before = start.observed(rest);
        let b = start.observed(points);
        assert(forall|i: int| 0 <= i < rest.len() ==> rest[i] == points[i]);
        assert(b.x1 == before.x1 || b.x1 == points[last].0);
        assert(b.y1 == before.y1 || b.y1 == points[last].1);
        assert(b.x2 == before.x2 || b.x2 == points[last].0);
        assert(b.y2 == before.y2 || b.y2 == points[last].1);
    }
}

} // verus!

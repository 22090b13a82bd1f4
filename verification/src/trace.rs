//! The points plotted so far, and the rectangle they lie in.
//!
//! Each step of the iteration yields a position in single precision.  The
//! trace keeps its truncation to whole numbers for drawing and grows a
//! bounding rectangle by the position itself.  Positions arrive frame by
//! frame; once the buffer holds its cap, further frames add nothing.

use vstd::prelude::*;
use crate::bounds::{lemma_observed_contains, lemma_observed_grows, Bounds};
use crate::single::{lemma_truncate_keeps_order, Single};

verus! {

/// The number of points from which on a frame adds none.
pub const POINT_CAP: usize = 1_000_000;

/// The number of positions that a frame adds while the cap is not reached.
pub const STEPS_PER_FRAME: usize = 9_999;

/// The point that is kept of a position: both coordinates truncated.
pub open spec fn plotted(position: (Single, Single)) -> (i32, i32) {
    (position.0.spec_truncate() as i32, position.1.spec_truncate() as i32)
}

/// The positions held after a frame has come in: the frame follows what was
/// there, unless the cap had been reached.
pub open spec fn after_frame(seen: Seq<(Single, Single)>, frame: Seq<(Single, Single)>) -> Seq<
    (Single, Single),
> {
    if seen.len() < POINT_CAP {
        seen + frame
    } else {
        seen
    }
}

/// The positions held after a run of frames.
pub open spec fn after_frames(
    seen: Seq<(Single, Single)>,
    frames: Seq<Seq<(Single, Single)>>,
) -> Seq<(Single, Single)>
    decreases frames.len(),
{
    if frames.len() == 0 {
        seen
    } else {
        after_frame(after_frames(seen, frames.drop_last()), frames.last())
    }
}

/// The buffer of plotted points with the bounding rectangle of the positions
/// they came from.  Its view is the sequence of those positions.
pub struct Trace {
    points: Vec<(i32, i32)>,
    bounds: Bounds,
    seen: Ghost<Seq<(Single, Single)>>,
}

impl View for Trace {
    type V = Seq<(Single, Single)>;

    closed spec fn view(&self) -> Seq<(Single, Single)> {
        self.seen@
    }
}

impl Trace {
    /// The buffer holds the truncation of every position seen, in order, and
    /// the rectangle is the one that has grown from the origin by all of them.
    pub closed spec fn well_formed(&self) -> bool {
        &&& self.points@ == self.spec_points()
        &&& self.bounds == self.spec_bounds()
    }

    /// The plotted points: the positions seen, each truncated.
    pub open spec fn spec_points(&self) -> Seq<(i32, i32)> {
        self@.map_values(|p: (Single, Single)| plotted(p))
    }

    /// The rectangle grown from the origin by every position seen.
    pub open spec fn spec_bounds(&self) -> Bounds {
        Bounds::spec_new().observed(self@)
    }

    /// The number of positions that the coming frame is to add: none once the
    /// cap is reached.
    pub open spec fn spec_steps_due(&self) -> usize {
        if self@.len() < POINT_CAP {
            STEPS_PER_FRAME
        } else {
            0
        }
    }

    /// An empty trace around the origin.
    pub fn new() -> (t: Trace)
        ensures
            t.well_formed(),
            t@ == Seq::<(Single, Single)>::empty(),
    {
        let t = Trace { points: Vec::new(), bounds: Bounds::new(), seen: Ghost(Seq::empty()) };
        assert(t.points@ =~= t.spec_points());
        t
    }

    /// The number of points plotted.
    pub fn len(&self) -> (n: usize)
        requires
            self.well_formed(),
        ensures
            n == self@.len(),
    {
        self.points.len()
    }

    #[verifier::when_used_as_spec(spec_steps_due)]
    pub fn steps_due(&self) -> (n: usize)
        requires
            self.well_formed(),
        ensures
            n == self.spec_steps_due(),
    {
        if self.points.len() < POINT_CAP {
            STEPS_PER_FRAME
        } else {
            0
        }
    }

    /// The plotted points, oldest first.
    pub fn points(&self) -> (points: &Vec<(i32, i32)>)
        requires
            self.well_formed(),
        ensures
            points@ == self.spec_points(),
    {
        &self.points
    }

    /// The bounding rectangle of the positions seen.
    pub fn bounds(&self) -> (bounds: Bounds)
        requires
            self.well_formed(),
        ensures
            bounds == self.spec_bounds(),
    {
        self.bounds
    }

    /// Takes in one position: its truncation joins the buffer and the
    /// rectangle grows by the position as it is.
    pub fn record(&mut self, x: Single, y: Single)
        requires
            old(self).well_formed(),
        ensures
            final(self).well_formed(),
            final(self)@ == old(self)@.push((x, y)),
    {
        self.points.push((x.truncate(), y.truncate()));
        self.bounds.update(x, y);
        proof {
            let before = self.seen@;
            self.seen@ = before.push((x, y));
            assert(self.seen@.drop_last() =~= before);
            assert(self.points@ =~= self.spec_points());
        }
    }

    /// Takes in the positions of one frame, in order.  Once the cap is
    /// reached the frame is dropped and the trace stays as it is.
    pub fn absorb(&mut self, batch: &[(Single, Single)])
        requires
            old(self).well_formed(),
        ensures
            final(self).well_formed(),
            final(self)@ == after_frame(old(self)@, batch@),
    {
        if self.points.len() >= POINT_CAP {
            return ;
        }
        let mut i: usize = 0;
        while i < batch.len()
            invariant
                i <= batch.len(),
                self.well_formed(),
                self@ == old(self)@ + batch@.take(i as int),
            decreases batch.len() - i,
        {
            let (x, y) = batch[i];
            self.record(x, y);
            assert(batch@.take(i + 1) =~= batch@.take(i as int).push(batch@[i as int]));
            i += 1;
        }
        assert(batch@.take(i as int) =~= batch@);
    }
}

/// Every plotted point lies in the bounding rectangle, taken to whole
/// numbers: each coordinate between the truncated edges of its axis.
pub proof fn lemma_plotted_within_bounds(seen: Seq<(Single, Single)>, i: int)
    requires
        0 <= i < seen.len(),
    ensures
        ({
            let b = Bounds::spec_new().observed(seen);
            let p = plotted(seen[i]);
            &&& b.x1.spec_truncate() <= p.0 <= b.x2.spec_truncate()
            &&& b.y1.spec_truncate() <= p.1 <= b.y2.spec_truncate()
        }),
{
    let origin = Bounds::spec_new();
    let b = origin.observed(seen);
    let (x, y) = seen[i];
    lemma_observed_grows(origin, seen, 0, seen.len() as int);
    assert(seen.take(0).len() == 0);
    assert(seen.take(seen.len() as int) =~= seen);
    lemma_observed_contains(origin, seen, i);
    lemma_truncate_keeps_order(b.x1, Single::zero());
    lemma_truncate_keeps_order(Single::zero(), b.x2);
    lemma_truncate_keeps_order(b.y1, Single::zero());
    lemma_truncate_keeps_order(Single::zero(), b.y2);
    assert(Single::zero().spec_truncate() == 0) by {
        crate::single::lemma_whole_part(Single::zero());
    }
    if !x.spec_is_nan() {
        lemma_truncate_keeps_order(b.x1, x);
        lemma_truncate_keeps_order(x, b.x2);
    }
    if !y.spec_is_nan() {
        lemma_truncate_keeps_order(b.y1, y);
        lemma_truncate_keeps_order(y, b.y2);
    }
}

/// Once the cap is reached no frame adds a point: the trace stays as it is
/// through any run of frames.
pub proof fn lemma_full_trace_stays(seen: Seq<(Single, Single)>, frames: Seq<Seq<(Single, Single)>>)
    requires
        seen.len() >= POINT_CAP,
    ensures
        after_frames(seen, frames) == seen,
    decreases frames.len(),
{
    if frames.len() > 0 {
        lemma_full_trace_stays(seen, frames.drop_last());
    }
}

/// Frames only append: what was held before a run of frames is held after
/// it, in the same places.
pub proof fn lemma_frames_append(seen: Seq<(Single, Single)>, frames: Seq<Seq<(Single, Single)>>)
    ensures
        seen.is_prefix_of(after_frames(seen, frames)),
    decreases frames.len(),
{
    if frames.len() > 0 {
        lemma_frames_append(seen, frames.drop_last());
    }
}

/// With frames of at most `STEPS_PER_FRAME` positions the trace ends less
/// than one frame beyond the cap.
pub proof fn lemma_frames_bounded(seen: Seq<(Single, Single)>, frames: Seq<Seq<(Single, Single)>>)
    requires
        seen.len() < POINT_CAP + STEPS_PER_FRAME,
        forall|i: int| 0 <= i < frames.len() ==> (#[trigger] frames[i]).len() <= STEPS_PER_FRAME,
    ensures
        after_frames(seen, frames).len() < POINT_CAP + STEPS_PER_FRAME,
    decreases frames.len(),
{
    if frames.len() > 0 {
        let rest = frames.drop_last();
        assert(forall|i: int| 0 <= i < rest.len() ==> rest[i] == frames[i]);
        lemma_frames_bounded(seen, rest);
    }
}

} // verus!

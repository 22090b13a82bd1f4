//! The choice of the next transform of an iterated function system.
//!
//! A system is a list of affine transforms, each with a probability.  The
//! probabilities are kept as their running sums, so that a draw from the unit
//! interval picks the transform whose range it falls into.  The sums and the
//! transforms' arithmetic are single-precision work and are done elsewhere;
//! here the table is searched.

use vstd::prelude::*;
use crate::single::Single;

verus! {

/// The six coefficients of the affine map
/// `(x, y) -> (a*x + b*y + e, c*x + d*y + f)`.
#[derive(Clone, Copy, Debug, PartialEq, Eq, Structural)]
pub struct Transform {
    pub a: Single,
    pub b: Single,
    pub c: Single,
    pub d: Single,
    pub e: Single,
    pub f: Single,
}

/// A weighted system of affine transforms: the transforms in order, and for
/// each the sum of the probabilities up to and including its own.
///
/// The two lists are meant to be of one length; nothing enforces it.
#[derive(Debug)]
pub struct BarnsleyIFS {
    pub coefficients: Vec<Transform>,
    pub probabilities: Vec<Single>,
}

/// What a [`BarnsleyIFS`] holds, as two sequences.
pub struct System {
    pub transforms: Seq<Transform>,
    pub sums: Seq<Single>,
}

impl View for BarnsleyIFS {
    type V = System;

    open spec fn view(&self) -> System {
        System { transforms: self.coefficients@, sums: self.probabilities@ }
    }
}

/// The number of entries of `table` that `draw` exceeds.
pub open spec fn slot_of(table: Seq<Single>, draw: Single) -> nat
    decreases table.len(),
{
    if table.len() == 0 {
        0
    } else {
        slot_of(table.drop_last(), draw) + if draw.spec_gt(table.last()) {
            1nat
        } else {
            0nat
        }
    }
}

/// No entry is a NaN and none is below an earlier one.
pub open spec fn ascending(table: Seq<Single>) -> bool {
    forall|i: int, j: int|
        0 <= i <= j < table.len() ==> (#[trigger] table[i]).spec_le(#[trigger] table[j])
}

impl Transform {
    /// The transform with the given bit patterns for coefficients.
    pub open spec fn spec_from_bits(a: u32, b: u32, c: u32, d: u32, e: u32, f: u32) -> Transform {
        Transform {
            a: Single { bits: a },
            b: Single { bits: b },
            c: Single { bits: c },
            d: Single { bits: d },
            e: Single { bits: e },
            f: Single { bits: f },
        }
    }

    /// The transform with the given bit patterns for coefficients.
    #[verifier::when_used_as_spec(spec_from_bits)]
    pub fn from_bits(a: u32, b: u32, c: u32, d: u32, e: u32, f: u32) -> (t: Transform)
        ensures
            t == Transform::spec_from_bits(a, b, c, d, e, f),
    {
        Transform {
            a: Single::from_bits(a),
            b: Single::from_bits(b),
            c: Single::from_bits(c),
            d: Single::from_bits(d),
            e: Single::from_bits(e),
            f: Single::from_bits(f),
        }
    }
}

impl System {
    /// There is a transform to each running sum, and the sums ascend.
    pub open spec fn well_formed(self) -> bool {
        self.transforms.len() == self.sums.len() && ascending(self.sums)
    }

    /// The transform that `draw` selects, if there is one.
    pub open spec fn selected(self, draw: Single) -> Option<Transform> {
        let slot = slot_of(self.sums, draw);
        if slot < self.transforms.len() {
            Some(self.transforms[slot as int])
        } else {
            None
        }
    }
}

impl BarnsleyIFS {
    /// A system of the given transforms and running sums.
    pub fn from_cumulative(coefficients: Vec<Transform>, cumulative: Vec<Single>) -> (ifs:
        BarnsleyIFS)
        ensures
            ifs@ == (System { transforms: coefficients@, sums: cumulative@ }),
    {
        BarnsleyIFS { coefficients, probabilities: cumulative }
    }

    /// The index that `draw` selects: the number of running sums that it
    /// exceeds.
    pub fn slot(&self, draw: Single) -> (slot: usize)
        ensures
            slot == slot_of(self@.sums, draw),
    {
        let mut slot: usize = 0;
        let mut i: usize = 0;
        while i < self.probabilities.len()
            invariant
                i <= self.probabilities.len(),
                slot <= i,
                slot == slot_of(self.probabilities@.take(i as int), draw),
            decreases self.probabilities.len() - i,
        {
            assert(self.probabilities@.take(i + 1).drop_last() =~= self.probabilities@.take(
                i as int,
            ));
            if draw.gt(self.probabilities[i]) {
                slot += 1;
            }
            i += 1;
        }
        assert(self.probabilities@.take(i as int) =~= self.probabilities@);
        slot
    }

    /// The transform that `draw` selects.  There is none where the index
    /// falls outside the list of transforms, as it does when the draw exceeds
    /// every running sum.
    pub fn select(&self, draw: Single) -> (t: Option<Transform>)
        ensures
            t == self@.selected(draw),
    {
        let slot = self.slot(draw);
        if slot < self.coefficients.len() {
            Some(self.coefficients[slot])
        } else {
            None
        }
    }
}

/// The index never passes the end of the table.
pub proof fn lemma_slot_bounded(table: Seq<Single>, draw: Single)
    ensures
        slot_of(table, draw) <= table.len(),
    decreases table.len(),
{
    if table.len() > 0 {
        lemma_slot_bounded(table.drop_last(), draw);
    }
}

/// An ascending table cuts the line into ranges, and the index names the range
/// of the draw: it is the one `k` such that the draw exceeds every entry
/// before `k` and none from `k` on.
pub proof fn lemma_slot_names_range(table: Seq<Single>, draw: Single, k: int)
    requires
        ascending(table),
        0 <= k <= table.len(),
        forall|i: int| 0 <= i < k ==> draw.spec_gt(#[trigger] table[i]),
        k < table.len() ==> !draw.spec_gt(table[k]),
    ensures
        slot_of(table, draw) == k,
    decreases table.len(),
{
    if table.len() > 0 {
        let rest = table.drop_last();
        let last = table.len() - 1;
        assert(forall|i: int| 0 <= i < rest.len() ==> rest[i] == table[i]);
        if k == table.len() {
            lemma_slot_names_range(rest, draw, k - 1);
        } else {
            assert(table[k].spec_le(table[last]));
            lemma_slot_names_range(rest, draw, k);
        }
    }
}

/// A draw that exceeds every running sum selects no transform of a system
/// whose lists are of one length.
pub proof fn lemma_overrun_selects_none(system: System, draw: Single)
    requires
        system.transforms.len() == system.sums.len(),
        forall|i: int| 0 <= i < system.sums.len() ==> draw.spec_gt(#[trigger] system.sums[i]),
    ensures
        system.selected(draw) is None,
{
    lemma_all_exceeded(system.sums, draw);
}

/// Of a well-formed system a draw selects a transform unless it exceeds the
/// last running sum, the total of the probabilities.
pub proof fn lemma_selects_up_to_total(system: System, draw: Single)
    requires
        system.well_formed(),
        system.sums.len() > 0,
    ensures
        system.selected(draw) is Some <==> !draw.spec_gt(system.sums.last()),
{
    let table = system.sums;
    lemma_slot_bounded(table, draw);
    if draw.spec_gt(table.last()) {
        assert forall|i: int| 0 <= i < table.len() implies draw.spec_gt(#[trigger] table[i]) by {
            assert(table[i].spec_le(table[table.len() - 1]));
        }
        lemma_all_exceeded(table, draw);
    } else {
        lemma_slot_skips(table, draw, table.len() - 1);
    }
}

/// An entry that the draw does not exceed is not counted.
proof fn lemma_slot_skips(table: Seq<Single>, draw: Single, i: int)
    requires
        0 <= i < table.len(),
        !draw.spec_gt(table[i]),
    ensures
        slot_of(table, draw) < table.len(),
    decreases table.len(),
{
    let rest = table.drop_last();
    lemma_slot_bounded(rest, draw);
    if i < table.len() - 1 {
        lemma_slot_skips(rest, draw, i);
    }
}

/// A draw that exceeds every entry gets the length of the table.
proof fn lemma_all_exceeded(table: Seq<Single>, draw: Single)
    requires
        forall|i: int| 0 <= i < table.len() ==> draw.spec_gt(#[trigger] table[i]),
    ensures
        slot_of(table, draw) == table.len(),
    decreases table.len(),
{
    if table.len() > 0 {
        let rest = table.drop_last();
        assert(forall|i: int| 0 <= i < rest.len() ==> rest[i] == table[i]);
        lemma_all_exceeded(rest, draw);
    }
}

} // verus!

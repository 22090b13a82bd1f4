//! The built-in systems: Barnsley's fern, a maple leaf and the Sierpinski
//! triangle.
//!
//! Each is a table of coefficients with the running sums of its
//! probabilities, all as bit patterns; the comments give the numbers they
//! stand for.  The sums are those of single-precision addition, added up from
//! the first probability on.

use vstd::prelude::*;
use crate::ifs::{lemma_selects_up_to_total, BarnsleyIFS, System, Transform};
use crate::single::Single;

verus! {

/// The bit pattern of 1.0, the upper end of the interval that draws come
/// from.
pub const ONE: u32 = 0x3F80_0000;

/// The fern: its stem, the next smaller leaflet, and the largest leaflet on
/// the left and on the right, with probabilities 0.01, 0.85, 0.07 and 0.07.
pub open spec fn fern_system() -> System {
    System {
        transforms: seq![
            // 0, 0, 0, 0.16, 0, 0
            Transform::from_bits(0, 0, 0, 0x3E23_D70A, 0, 0),
            // 0.85, 0.04, -0.04, 0.85, 0, 1.6
            Transform::from_bits(0x3F59_999A, 0x3D23_D70A, 0xBD23_D70A, 0x3F59_999A, 0, 0x3FCC_CCCD),
            // 0.2, -0.26, 0.23, 0.22, 0, 1.6
            Transform::from_bits(0x3E4C_CCCD, 0xBE85_1EB8, 0x3E6B_851F, 0x3E61_47AE, 0, 0x3FCC_CCCD),
            // -0.15, 0.28, 0.26, 0.24, 0, 0.44
            Transform::from_bits(0xBE19_999A, 0x3E8F_5C29, 0x3E85_1EB8, 0x3E75_C28F, 0, 0x3EE1_47AE),
        ],
        // 0.01, 0.86, 0.93, 1
        sums: seq![
            Single { bits: 0x3C23_D70A },
            Single { bits: 0x3F5C_28F6 },
            Single { bits: 0x3F6E_147B },
            Single { bits: 0x3F80_0000 },
        ],
    }
}

/// The maple leaf, with probabilities 0.1, 0.35, 0.35 and 0.2.
pub open spec fn maple_leaf_system() -> System {
    System {
        transforms: seq![
            // 0.14, 0.01, 0, 0.51, -0.08, -1.31
            Transform::from_bits(0x3E0F_5C29, 0x3C23_D70A, 0, 0x3F02_8F5C, 0xBDA3_D70A, 0xBFA7_AE14),
            // 0.43, 0.52, -0.45, 0.50, 1.49, -0.75
            Transform::from_bits(
                0x3EDC_28F6,
                0x3F05_1EB8,
                0xBEE6_6666,
                0x3F00_0000,
                0x3FBE_B852,
                0xBF40_0000,
            ),
            // 0.45, -0.49, 0.47, 0.47, -1.62, -0.74
            Transform::from_bits(
                0x3EE6_6666,
                0xBEFA_E148,
                0x3EF0_A3D7,
                0x3EF0_A3D7,
                0xBFCF_5C29,
                0xBF3D_70A4,
            ),
            // 0.49, 0, 0, 0.51, 0.02, 1.62
            Transform::from_bits(0x3EFA_E148, 0, 0, 0x3F02_8F5C, 0x3CA3_D70A, 0x3FCF_5C29),
        ],
        // 0.1, 0.45, 0.8 and the last single-precision number below 1
        sums: seq![
            Single { bits: 0x3DCC_CCCD },
            Single { bits: 0x3EE6_6666 },
            Single { bits: 0x3F4C_CCCC },
            Single { bits: 0x3F7F_FFFF },
        ],
    }
}

/// The Sierpinski triangle, with probabilities 0.33, 0.34 and 0.33.
pub open spec fn sierpenski_system() -> System {
    System {
        transforms: seq![
            // 0.5, 0, 0, 0.5, 0, 0
            Transform::from_bits(0x3F00_0000, 0, 0, 0x3F00_0000, 0, 0),
            // 0.5, 0, 0, 0.5, 0.25, 0.5 * sqrt(3) / 2
            Transform::from_bits(0x3F00_0000, 0, 0, 0x3F00_0000, 0x3E80_0000, 0x3EDD_B3D7),
            // 0.5, 0, 0, 0.5, 0, 0.5
            Transform::from_bits(0x3F00_0000, 0, 0, 0x3F00_0000, 0, 0x3F00_0000),
        ],
        // 0.33, 0.67, 1
        sums: seq![
            Single { bits: 0x3EA8_F5C3 },
            Single { bits: 0x3F2B_851F },
            Single { bits: 0x3F80_0000 },
        ],
    }
}

impl BarnsleyIFS {
    /// Barnsley's fern.
    pub fn fern() -> (ifs: BarnsleyIFS)
        ensures
            ifs@ == fern_system(),
    {
        let mut c: Vec<Transform> = Vec::new();
        c.push(Transform::from_bits(0, 0, 0, 0x3E23_D70A, 0, 0));
        c.push(
            Transform::from_bits(0x3F59_999A, 0x3D23_D70A, 0xBD23_D70A, 0x3F59_999A, 0, 0x3FCC_CCCD),
        );
        c.push(
            Transform::from_bits(0x3E4C_CCCD, 0xBE85_1EB8, 0x3E6B_851F, 0x3E61_47AE, 0, 0x3FCC_CCCD),
        );
        c.push(
            Transform::from_bits(0xBE19_999A, 0x3E8F_5C29, 0x3E85_1EB8, 0x3E75_C28F, 0, 0x3EE1_47AE),
        );
        let mut p: Vec<Single> = Vec::new();
        p.push(Single::from_bits(0x3C23_D70A));
        p.push(Single::from_bits(0x3F5C_28F6));
        p.push(Single::from_bits(0x3F6E_147B));
        p.push(Single::from_bits(0x3F80_0000));
        let ifs = BarnsleyIFS::from_cumulative(c, p);
        assert(ifs@.transforms =~= fern_system().transforms);
        assert(ifs@.sums =~= fern_system().sums);
        ifs
    }

    /// A maple leaf.
    pub fn maple_leaf() -> (ifs: BarnsleyIFS)
        ensures
            ifs@ == maple_leaf_system(),
    {
        let mut c: Vec<Transform> = Vec::new();
        c.push(
            Transform::from_bits(0x3E0F_5C29, 0x3C23_D70A, 0, 0x3F02_8F5C, 0xBDA3_D70A, 0xBFA7_AE14),
        );
        c.push(
            Transform::from_bits(
                0x3EDC_28F6,
                0x3F05_1EB8,
                0xBEE6_6666,
                0x3F00_0000,
                0x3FBE_B852,
                0xBF40_0000,
            ),
        );
        c.push(
            Transform::from_bits(
                0x3EE6_6666,
                0xBEFA_E148,
                0x3EF0_A3D7,
                0x3EF0_A3D7,
                0xBFCF_5C29,
                0xBF3D_70A4,
            ),
        );
        c.push(Transform::from_bits(0x3EFA_E148, 0, 0, 0x3F02_8F5C, 0x3CA3_D70A, 0x3FCF_5C29));
        let mut p: Vec<Single> = Vec::new();
        p.push(Single::from_bits(0x3DCC_CCCD));
        p.push(Single::from_bits(0x3EE6_6666));
        p.push(Single::from_bits(0x3F4C_CCCC));
        p.push(Single::from_bits(0x3F7F_FFFF));
        let ifs = BarnsleyIFS::from_cumulative(c, p);
        assert(ifs@.transforms =~= maple_leaf_system().transforms);
        assert(ifs@.sums =~= maple_leaf_system().sums);
        ifs
    }

    /// The Sierpinski triangle.
    pub fn sierpenski() -> (ifs: BarnsleyIFS)
        ensures
            ifs@ == sierpenski_system(),
    {
        let mut c: Vec<Transform> = Vec::new();
        c.push(Transform::from_bits(0x3F00_0000, 0, 0, 0x3F00_0000, 0, 0));
        c.push(Transform::from_bits(0x3F00_0000, 0, 0, 0x3F00_0000, 0x3E80_0000, 0x3EDD_B3D7));
        c.push(Transform::from_bits(0x3F00_0000, 0, 0, 0x3F00_0000, 0, 0x3F00_0000));
        let mut p: Vec<Single> = Vec::new();
        p.push(Single::from_bits(0x3EA8_F5C3));
        p.push(Single::from_bits(0x3F2B_851F));
        p.push(Single::from_bits(0x3F80_0000));
        let ifs = BarnsleyIFS::from_cumulative(c, p);
        assert(ifs@.transforms =~= sierpenski_system().transforms);
        assert(ifs@.sums =~= sierpenski_system().sums);
        ifs
    }
}

/// Each built-in system has a transform to every running sum, and its sums
/// ascend.
pub proof fn lemma_presets_well_formed()
    ensures
        fern_system().well_formed(),
        maple_leaf_system().well_formed(),
        sierpenski_system().well_formed(),
{
}

/// Under a built-in system every draw below 1 selects a transform: the
/// point is never sent back to the origin.
pub proof fn lemma_presets_always_select(draw: Single)
    requires
        draw.spec_lt(Single { bits: ONE }),
    ensures
        fern_system().selected(draw) is Some,
        maple_leaf_system().selected(draw) is Some,
        sierpenski_system().selected(draw) is Some,
{
    lemma_presets_well_formed();
    lemma_selects_up_to_total(fern_system(), draw);
    lemma_selects_up_to_total(maple_leaf_system(), draw);
    lemma_selects_up_to_total(sierpenski_system(), draw);
}

} // verus!

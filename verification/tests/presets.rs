use fracti::ifs::{BarnsleyIFS, Transform};
use fracti::presets::ONE;
use fracti::single::Single;

fn s(v: f32) -> Single {
    Single::from_bits(v.to_bits())
}

fn f(v: Single) -> f32 {
    f32::from_bits(v.to_bits())
}

fn transform(c: [f32; 6]) -> Transform {
    Transform { a: s(c[0]), b: s(c[1]), c: s(c[2]), d: s(c[3]), e: s(c[4]), f: s(c[5]) }
}

fn running_sums(probabilities: &[f32]) -> Vec<Single> {
    let mut sums: Vec<f32> = vec![];
    for p in probabilities {
        let l = *sums.last().unwrap_or(&0.0);
        sums.push(p + l);
    }
    sums.into_iter().map(s).collect()
}

fn draws() -> Vec<f32> {
    let mut draws = vec![0.0, f32::from_bits(1), 0.009, 0.01, 0.0101, 0.1, 0.33, 0.45, 0.5, 0.67];
    draws.extend([0.8, 0.86, 0.93, 0.97, 0.999, 0.999_999, f32::from_bits(ONE - 1)]);
    for k in 0..1000u32 {
        draws.push((k.wrapping_mul(7919) % 16_777_216) as f32 / 16_777_216.0);
    }
    draws
}

#[test]
fn one_is_one() {
    assert_eq!(ONE, 1.0f32.to_bits());
}

#[test]
fn the_fern_holds_its_coefficients() {
    let ifs = BarnsleyIFS::fern();
    assert_eq!(
        ifs.coefficients,
        vec![
            transform([0.0, 0.0, 0.0, 0.16, 0.0, 0.0]),
            transform([0.85, 0.04, -0.04, 0.85, 0.0, 1.6]),
            transform([0.2, -0.26, 0.23, 0.22, 0.0, 1.6]),
            transform([-0.15, 0.28, 0.26, 0.24, 0.0, 0.44]),
        ]
    );
}

#[test]
fn the_fern_holds_the_running_sums_of_its_probabilities() {
    let ifs = BarnsleyIFS::fern();
    assert_eq!(ifs.probabilities, running_sums(&[0.01, 0.85, 0.07, 0.07]));
    let expected = [0.01f32, 0.86, 0.93, 1.0];
    assert_eq!(ifs.probabilities.len(), expected.len());
    for (sum, e) in ifs.probabilities.iter().zip(expected) {
        assert!((f(*sum) - e).abs() < 1.0e-6, "{} {}", f(*sum), e);
    }
    assert_eq!(f(ifs.probabilities[3]), 1.0);
}

#[test]
fn the_maple_leaf_holds_its_coefficients() {
    let ifs = BarnsleyIFS::maple_leaf();
    assert_eq!(
        ifs.coefficients,
        vec![
            transform([0.14, 0.01, 0.0, 0.51, -0.08, -1.31]),
            transform([0.43, 0.52, -0.45, 0.50, 1.49, -0.75]),
            transform([0.45, -0.49, 0.47, 0.47, -1.62, -0.74]),
            transform([0.49, 0.0, 0.0, 0.51, 0.02, 1.62]),
        ]
    );
}

#[test]
fn the_maple_leaf_holds_the_running_sums_of_its_probabilities() {
    let ifs = BarnsleyIFS::maple_leaf();
    assert_eq!(ifs.probabilities, running_sums(&[0.1, 0.35, 0.35, 0.2]));
    let expected = [0.1f32, 0.45, 0.8, 1.0];
    for (sum, e) in ifs.probabilities.iter().zip(expected) {
        assert!((f(*sum) - e).abs() < 1.0e-6, "{} {}", f(*sum), e);
    }
    assert_eq!(ifs.probabilities[3].to_bits(), 1.0f32.to_bits() - 1);
}

#[test]
fn the_triangle_holds_its_coefficients() {
    let ifs = BarnsleyIFS::sierpenski();
    assert_eq!(
        ifs.coefficients,
        vec![
            transform([0.5, 0.0, 0.0, 0.5, 0.0, 0.0]),
            transform([0.5, 0.0, 0.0, 0.5, 0.25, 0.5 * 3.0f32.sqrt() / 2.0]),
            transform([0.5, 0.0, 0.0, 0.5, 0.0, 0.5]),
        ]
    );
}

#[test]
fn the_triangle_holds_the_running_sums_of_its_probabilities() {
    let ifs = BarnsleyIFS::sierpenski();
    assert_eq!(ifs.probabilities, running_sums(&[0.33, 0.34, 0.33]));
    let expected = [0.33f32, 0.67, 1.0];
    for (sum, e) in ifs.probabilities.iter().zip(expected) {
        assert!((f(*sum) - e).abs() < 1.0e-6, "{} {}", f(*sum), e);
    }
}

#[test]
fn the_built_in_systems_have_a_transform_to_each_sum() {
    for ifs in [BarnsleyIFS::fern(), BarnsleyIFS::maple_leaf(), BarnsleyIFS::sierpenski()] {
        assert_eq!(ifs.coefficients.len(), ifs.probabilities.len());
        for pair in ifs.probabilities.windows(2) {
            assert!(pair[0].le(pair[1]));
        }
    }
}

#[test]
fn every_draw_below_one_selects_a_transform() {
    for ifs in [BarnsleyIFS::fern(), BarnsleyIFS::maple_leaf(), BarnsleyIFS::sierpenski()] {
        for d in draws() {
            assert!(d < 1.0);
            assert!(ifs.select(s(d)).is_some(), "{d}");
        }
    }
}

#[test]
fn a_draw_of_one_is_in_the_last_range_where_the_sums_reach_one() {
    let fern = BarnsleyIFS::fern();
    assert_eq!(fern.select(s(1.0)), Some(fern.coefficients[3]));
    let triangle = BarnsleyIFS::sierpenski();
    assert_eq!(triangle.select(s(1.0)), Some(triangle.coefficients[2]));
    let maple = BarnsleyIFS::maple_leaf();
    assert_eq!(maple.select(s(1.0)), None);
}

#[test]
fn the_triangle_selects_by_thirds() {
    let ifs = BarnsleyIFS::sierpenski();
    assert_eq!(ifs.slot(s(0.2)), 0);
    assert_eq!(ifs.slot(s(0.33)), 0);
    assert_eq!(ifs.slot(s(0.5)), 1);
    assert_eq!(ifs.slot(s(0.67)), 1);
    assert_eq!(ifs.slot(s(0.9)), 2);
}

#[test]
fn the_maple_leaf_selects_by_its_sums() {
    let ifs = BarnsleyIFS::maple_leaf();
    assert_eq!(ifs.slot(s(0.05)), 0);
    assert_eq!(ifs.slot(s(0.3)), 1);
    assert_eq!(ifs.slot(s(0.6)), 2);
    assert_eq!(ifs.slot(s(0.9)), 3);
}

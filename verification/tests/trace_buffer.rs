use fracti::bounds::Bounds;
use fracti::single::Single;
use fracti::trace::{Trace, POINT_CAP, STEPS_PER_FRAME};

fn s(v: f32) -> Single {
    Single::from_bits(v.to_bits())
}

fn f(v: Single) -> f32 {
    f32::from_bits(v.to_bits())
}

fn corners(b: &Bounds) -> (f32, f32, f32, f32) {
    (f(b.x1), f(b.y1), f(b.x2), f(b.y2))
}

fn frame(seed: u32) -> Vec<(Single, Single)> {
    let mut batch = Vec::with_capacity(STEPS_PER_FRAME);
    for i in 0..STEPS_PER_FRAME as u32 {
        let x = ((i.wrapping_mul(37).wrapping_add(seed)) % 5311) as f32 - 2182.5;
        let y = ((i.wrapping_mul(91).wrapping_add(seed)) % 9983) as f32 + 0.25;
        batch.push((s(x), s(y)));
    }
    batch
}

#[test]
fn limits() {
    assert_eq!(POINT_CAP, 1_000_000);
    assert_eq!(STEPS_PER_FRAME, 9_999);
}

#[test]
fn a_new_trace_is_empty() {
    let t = Trace::new();
    assert_eq!(t.len(), 0);
    assert!(t.points().is_empty());
    assert_eq!(t.bounds(), Bounds::new());
    assert_eq!(t.steps_due(), 9_999);
}

#[test]
fn record_truncates_the_point_and_not_the_bounds() {
    let mut t = Trace::new();
    t.record(s(930.0), s(3279.9998));
    t.record(s(-2182.75), s(0.5));
    t.record(s(-0.9), s(9998.3));
    assert_eq!(t.points(), &vec![(930, 3279), (-2182, 0), (0, 9998)]);
    assert_eq!(corners(&t.bounds()), (-2182.75, 0.0, 930.0, 9998.3));
    assert_eq!(t.len(), 3);
}

#[test]
fn a_nan_is_plotted_at_zero_and_moves_no_edge() {
    let mut t = Trace::new();
    t.record(s(4.5), s(-2.5));
    t.record(s(f32::NAN), s(7.75));
    t.record(s(-1.5), s(f32::NAN));
    assert_eq!(t.points(), &vec![(4, -2), (0, 7), (-1, 0)]);
    assert_eq!(corners(&t.bounds()), (-1.5, -2.5, 4.5, 7.75));
}

#[test]
fn positions_beyond_the_integers_are_plotted_at_the_limits() {
    let mut t = Trace::new();
    t.record(s(3.0e9), s(-3.0e9));
    t.record(s(f32::INFINITY), s(f32::NEG_INFINITY));
    assert_eq!(t.points(), &vec![(i32::MAX, i32::MIN), (i32::MAX, i32::MIN)]);
    assert_eq!(
        corners(&t.bounds()),
        (0.0, f32::NEG_INFINITY, f32::INFINITY, 0.0)
    );
}

#[test]
fn absorb_appends_in_order() {
    let mut t = Trace::new();
    t.record(s(1.5), s(2.5));
    t.absorb(&vec![(s(10.25), s(-20.75)), (s(-30.5), s(40.0)), (s(5.0), s(5.0))]);
    assert_eq!(t.points(), &vec![(1, 2), (10, -20), (-30, 40), (5, 5)]);
    assert_eq!(corners(&t.bounds()), (-30.5, -20.75, 10.25, 40.0));
}

#[test]
fn absorb_is_record_point_by_point() {
    let batch = frame(7);
    let mut whole = Trace::new();
    whole.absorb(&batch);
    let mut single = Trace::new();
    for (x, y) in &batch {
        single.record(*x, *y);
    }
    assert_eq!(whole.points(), single.points());
    assert_eq!(whole.bounds(), single.bounds());
    assert_eq!(whole.len(), 9_999);
}

#[test]
fn an_empty_frame_changes_nothing() {
    let mut t = Trace::new();
    t.record(s(1.0), s(1.0));
    t.absorb(&Vec::new());
    assert_eq!(t.points(), &vec![(1, 1)]);
}

#[test]
fn frames_stop_at_the_cap() {
    let mut t = Trace::new();
    let mut frames = 0;
    while t.steps_due() > 0 {
        assert_eq!(t.steps_due(), 9_999);
        assert!(t.len() < 1_000_000);
        t.absorb(&frame(frames));
        frames += 1;
    }
    assert_eq!(frames, 101);
    assert_eq!(t.len(), 1_009_899);
    let last = t.points()[t.len() - 1];
    let bounds = t.bounds();
    for round in 0..3 {
        t.absorb(&frame(1000 + round));
        assert_eq!(t.steps_due(), 0);
        assert_eq!(t.len(), 1_009_899);
        assert_eq!(t.points()[t.len() - 1], last);
        assert_eq!(t.bounds(), bounds);
    }
}

#[test]
fn the_last_frame_below_the_cap_is_taken_whole() {
    let mut t = Trace::new();
    for n in 0..100 {
        t.absorb(&frame(n));
    }
    assert_eq!(t.len(), 999_900);
    assert_eq!(t.steps_due(), 9_999);
    t.absorb(&frame(100));
    assert_eq!(t.len(), 1_009_899);
    assert_eq!(t.steps_due(), 0);
}

#[test]
fn every_plotted_point_lies_in_the_truncated_bounds() {
    let mut t = Trace::new();
    t.absorb(&frame(3));
    let b = t.bounds();
    let (x1, y1, x2, y2) = (b.x1.truncate(), b.y1.truncate(), b.x2.truncate(), b.y2.truncate());
    for (x, y) in t.points() {
        assert!(x1 <= *x && *x <= x2);
        assert!(y1 <= *y && *y <= y2);
    }
}

use fracti::controls::{Color, Controls, Input, Key, GREEN_STEP, SCALE_MAX, SCALE_MIN, SCALE_START};
use fracti::single::Single;

fn s(v: f32) -> Single {
    Single::from_bits(v.to_bits())
}

fn f(v: Single) -> f32 {
    f32::from_bits(v.to_bits())
}

fn press(c: &mut Controls, key: Key) -> bool {
    let scale = f(c.scale);
    c.handle(Input::KeyDown(key), s(scale + 0.1f32), s(scale - 0.1f32))
}

fn with_green(g: u8) -> Controls {
    Controls { color: Color { r: 0, g, b: 0 }, scale: s(1.0) }
}

fn with_scale(scale: f32) -> Controls {
    Controls { color: Color::plot(), scale: s(scale) }
}

#[test]
fn constants() {
    assert_eq!(GREEN_STEP, 10);
    assert_eq!(SCALE_START, 1.0f32.to_bits());
    assert_eq!(SCALE_MAX, 5.0f32.to_bits());
    assert_eq!(SCALE_MIN, 0.0f32.to_bits());
    assert_eq!(Color::background(), Color { r: 32, g: 32, b: 32 });
    assert_eq!(Color::plot(), Color { r: 0, g: 96, b: 0 });
}

#[test]
fn the_start_is_green_at_scale_one() {
    let c = Controls::new();
    assert_eq!(c.color, Color { r: 0, g: 96, b: 0 });
    assert_eq!(f(c.scale), 1.0);
}

#[test]
fn left_and_right_step_the_green_channel() {
    let mut c = Controls::new();
    assert!(press(&mut c, Key::Left));
    assert_eq!(c.color, Color { r: 0, g: 86, b: 0 });
    assert!(press(&mut c, Key::Right));
    assert!(press(&mut c, Key::Right));
    assert_eq!(c.color, Color { r: 0, g: 106, b: 0 });
    assert_eq!(f(c.scale), 1.0);
}

#[test]
fn green_stops_at_zero() {
    let mut c = with_green(0);
    for _ in 0..5 {
        assert!(press(&mut c, Key::Left));
        assert_eq!(c.color.g, 0);
    }
    let mut c = with_green(7);
    press(&mut c, Key::Left);
    assert_eq!(c.color.g, 0);
    let mut c = with_green(96);
    let mut seen = Vec::new();
    for _ in 0..12 {
        press(&mut c, Key::Left);
        seen.push(c.color.g);
    }
    assert_eq!(seen, vec![86, 76, 66, 56, 46, 36, 26, 16, 6, 0, 0, 0]);
}

#[test]
fn green_stops_at_its_maximum() {
    let mut c = with_green(250);
    for _ in 0..5 {
        assert!(press(&mut c, Key::Right));
        assert_eq!(c.color.g, 255);
    }
    let mut c = with_green(245);
    press(&mut c, Key::Right);
    assert_eq!(c.color.g, 255);
    let mut c = with_green(240);
    press(&mut c, Key::Right);
    assert_eq!(c.color.g, 250);
}

#[test]
fn the_other_channels_stay() {
    let mut c = Controls { color: Color { r: 11, g: 22, b: 33 }, scale: s(1.0) };
    press(&mut c, Key::Left);
    press(&mut c, Key::Right);
    press(&mut c, Key::Right);
    assert_eq!(c.color, Color { r: 11, g: 32, b: 33 });
}

#[test]
fn up_and_down_step_the_scale() {
    let mut c = Controls::new();
    assert!(press(&mut c, Key::Up));
    assert_eq!(f(c.scale), 1.0f32 + 0.1f32);
    assert!(press(&mut c, Key::Down));
    assert!(press(&mut c, Key::Down));
    assert_eq!(f(c.scale), 1.0f32 + 0.1f32 - 0.1f32 - 0.1f32);
    assert_eq!(c.color, Color::plot());
}

#[test]
fn the_scale_stops_at_five() {
    let mut c = with_scale(4.95);
    assert!(press(&mut c, Key::Up));
    assert_eq!(c.scale.to_bits(), 5.0f32.to_bits());
    for _ in 0..4 {
        press(&mut c, Key::Up);
        assert_eq!(c.scale.to_bits(), 5.0f32.to_bits());
    }
    let mut c = Controls::new();
    for _ in 0..100 {
        press(&mut c, Key::Up);
        assert!(f(c.scale) <= 5.0);
    }
    assert_eq!(f(c.scale), 5.0);
}

#[test]
fn the_scale_stops_at_zero() {
    let mut c = with_scale(0.05);
    assert!(press(&mut c, Key::Down));
    assert_eq!(c.scale.to_bits(), 0.0f32.to_bits());
    for _ in 0..4 {
        press(&mut c, Key::Down);
        assert_eq!(f(c.scale), 0.0);
    }
    let mut c = Controls::new();
    for _ in 0..100 {
        press(&mut c, Key::Down);
        assert!(f(c.scale) >= 0.0);
    }
    assert_eq!(f(c.scale), 0.0);
}

#[test]
fn only_the_stepped_value_asked_for_is_used() {
    let mut c = Controls::new();
    c.handle(Input::KeyDown(Key::Up), s(2.5), s(-7.0));
    assert_eq!(f(c.scale), 2.5);
    c.handle(Input::KeyDown(Key::Down), s(9.0), s(0.75));
    assert_eq!(f(c.scale), 0.75);
    c.handle(Input::KeyDown(Key::Up), s(f32::NAN), s(0.0));
    assert_eq!(f(c.scale), 5.0);
    c.handle(Input::KeyDown(Key::Down), s(0.0), s(f32::NAN));
    assert_eq!(f(c.scale), 0.0);
}

#[test]
fn quit_and_escape_end_the_run_and_change_nothing() {
    let mut c = Controls::new();
    let before = c;
    assert!(!c.handle(Input::Quit, s(1.1), s(0.9)));
    assert_eq!(c, before);
    assert!(!c.handle(Input::KeyDown(Key::Escape), s(1.1), s(0.9)));
    assert_eq!(c, before);
}

#[test]
fn other_inputs_are_ignored() {
    let mut c = Controls::new();
    let before = c;
    assert!(c.handle(Input::Other, s(1.1), s(0.9)));
    assert!(c.handle(Input::KeyDown(Key::Other), s(1.1), s(0.9)));
    assert_eq!(c, before);
}

//! What the keyboard changes: the colour of the plot and the drawing scale.
//!
//! The left and right arrows move the green channel in steps of ten between 0
//! and 255.  The up and down arrows move the scale in steps of a tenth between
//! 0 and 5; the step is single-precision arithmetic and is made by the
//! caller, who hands in the stepped values, and the limits are applied here.
//! Escape and the window's close button end the run.

use vstd::prelude::*;
use crate::single::Single;

verus! {

/// The step of the green channel.
pub const GREEN_STEP: u8 = 10;

/// The bit pattern of 1.0, the scale at the start.
pub const SCALE_START: u32 = 0x3F80_0000;

/// The bit pattern of 5.0, the upper limit of the scale.
pub const SCALE_MAX: u32 = 0x40A0_0000;

/// The bit pattern of 0.0, the lower limit of the scale.
pub const SCALE_MIN: u32 = 0;

/// An opaque colour.
#[derive(Clone, Copy, Debug, PartialEq, Eq, Structural)]
pub struct Color {
    pub r: u8,
    pub g: u8,
    pub b: u8,
}

/// The keys that are told apart.
#[derive(Clone, Copy, Debug, PartialEq, Eq, Structural)]
pub enum Key {
    Escape,
    Left,
    Right,
    Up,
    Down,
    Other,
}

/// An event of the window, as far as it matters here.
#[derive(Clone, Copy, Debug, PartialEq, Eq, Structural)]
pub enum Input {
    /// The window is asked to close.
    Quit,
    /// A key went down.
    KeyDown(Key),
    /// Anything else.
    Other,
}

/// The state that the keyboard changes.
#[derive(Clone, Copy, Debug, PartialEq, Eq, Structural)]
pub struct Controls {
    /// The colour that points are drawn in.
    pub color: Color,
    /// The uniform scale of the drawing.
    pub scale: Single,
}

/// A channel one step darker, not below 0.
pub open spec fn darker(channel: u8) -> u8 {
    if channel < GREEN_STEP {
        0
    } else {
        (channel - GREEN_STEP) as u8
    }
}

/// A channel one step brighter, not above 255.
pub open spec fn brighter(channel: u8) -> u8 {
    if channel > u8::MAX - GREEN_STEP {
        u8::MAX
    } else {
        (channel + GREEN_STEP) as u8
    }
}

/// A channel after `n` steps darker.
pub open spec fn darker_times(channel: u8, n: nat) -> u8
    decreases n,
{
    if n == 0 {
        channel
    } else {
        darker(darker_times(channel, (n - 1) as nat))
    }
}

/// A channel after `n` steps brighter.
pub open spec fn brighter_times(channel: u8, n: nat) -> u8
    decreases n,
{
    if n == 0 {
        channel
    } else {
        brighter(brighter_times(channel, (n - 1) as nat))
    }
}

/// The upper limit of the scale, 5.
pub open spec fn scale_ceiling() -> Single {
    Single { bits: SCALE_MAX }
}

/// The lower limit of the scale, 0.
pub open spec fn scale_floor() -> Single {
    Single { bits: SCALE_MIN }
}

/// Whether an input ends the run.
pub open spec fn ends_run(input: Input) -> bool {
    input == Input::Quit || input == Input::KeyDown(Key::Escape)
}

impl Color {
    /// The colour of the window before anything is drawn.
    pub open spec fn spec_background() -> Color {
        Color { r: 32, g: 32, b: 32 }
    }

    /// The colour of the plot at the start.
    pub open spec fn spec_plot() -> Color {
        Color { r: 0, g: 96, b: 0 }
    }

    /// The colour of the window before anything is drawn.
    #[verifier::when_used_as_spec(spec_background)]
    pub fn background() -> (c: Color)
        ensures
            c == Color::spec_background(),
    {
        Color { r: 32, g: 32, b: 32 }
    }

    /// The colour of the plot at the start.
    #[verifier::when_used_as_spec(spec_plot)]
    pub fn plot() -> (c: Color)
        ensures
            c == Color::spec_plot(),
    {
        Color { r: 0, g: 96, b: 0 }
    }
}

impl Controls {
    /// The state at the start: the plot colour and scale 1.
    pub open spec fn spec_new() -> Controls {
        Controls { color: Color::plot(), scale: Single { bits: SCALE_START } }
    }

    /// The state after `input`, where `raised` is the scale one step up and
    /// `lowered` the scale one step down.
    pub open spec fn after(self, input: Input, raised: Single, lowered: Single) -> Controls {
        match input {
            Input::KeyDown(Key::Left) => Controls {
                color: Color { g: darker(self.color.g), ..self.color },
                ..self
            },
            Input::KeyDown(Key::Right) => Controls {
                color: Color { g: brighter(self.color.g), ..self.color },
                ..self
            },
            Input::KeyDown(Key::Up) => Controls { scale: raised.spec_min(scale_ceiling()), ..self },
            Input::KeyDown(Key::Down) => Controls { scale: lowered.spec_max(scale_floor()), ..self },
            _ => self,
        }
    }

    /// The state at the start: the plot colour and scale 1.
    #[verifier::when_used_as_spec(spec_new)]
    pub fn new() -> (c: Controls)
        ensures
            c == Controls::spec_new(),
    {
        Controls { color: Color::plot(), scale: Single::from_bits(SCALE_START) }
    }

    /// Reacts to one input and says whether the run goes on.
    ///
    /// `raised` and `lowered` are the present scale one step up and one step
    /// down; only the one that the input asks for is looked at.  An input that
    /// ends the run changes nothing.
    pub fn handle(&mut self, input: Input, raised: Single, lowered: Single) -> (running: bool)
        ensures
            running == !ends_run(input),
            *final(self) == old(self).after(input, raised, lowered),
    {
        match input {
            Input::Quit => false,
            Input::KeyDown(key) => {
                match key {
                    Key::Escape => {
                        return false;
                    },
                    Key::Left => {
                        self.color.g = if self.color.g < GREEN_STEP {
                            0
                        } else {
                            self.color.g - GREEN_STEP
                        };
                    },
                    Key::Right => {
                        self.color.g = if self.color.g > u8::MAX - GREEN_STEP {
                            u8::MAX
                        } else {
                            self.color.g + GREEN_STEP
                        };
                    },
                    Key::Up => {
                        self.scale = raised.min(Single::from_bits(SCALE_MAX));
                    },
                    Key::Down => {
                        self.scale = lowered.max(Single::from_bits(SCALE_MIN));
                    },
                    Key::Other => {},
                }
                true
            },
            Input::Other => true,
        }
    }
}

/// Repeated steps darker take a channel down by ten each and stop at 0.
pub proof fn lemma_darker_times(channel: u8, n: nat)
    ensures
        darker_times(channel, n) == if channel >= 10 * n {
            channel - 10 * n
        } else {
            0
        },
    decreases n,
{
    if n > 0 {
        lemma_darker_times(channel, (n - 1) as nat);
    }
}

/// Repeated steps brighter take a channel up by ten each and stop at 255.
pub proof fn lemma_brighter_times(channel: u8, n: nat)
    ensures
        brighter_times(channel, n) == if channel + 10 * n <= 255 {
            channel + 10 * n
        } else {
            255
        },
    decreases n,
{
    if n > 0 {
        lemma_brighter_times(channel, (n - 1) as nat);
    }
}

/// Whatever the stepped values are, the scale is at most 5 after a step up
/// and at least 0 after a step down, and in neither case a NaN.
pub proof fn lemma_scale_limits(c: Controls, raised: Single, lowered: Single)
    ensures
        c.after(Input::KeyDown(Key::Up), raised, lowered).scale.spec_le(scale_ceiling()),
        scale_floor().spec_le(c.after(Input::KeyDown(Key::Down), raised, lowered).scale),
{
}

/// A scale between the limits stays between them under every input, as long
/// as the stepped values lie on their sides of it.
pub proof fn lemma_scale_stays_in_range(c: Controls, input: Input, raised: Single, lowered: Single)
    requires
        scale_floor().spec_le(c.scale),
        c.scale.spec_le(scale_ceiling()),
        c.scale.spec_le(raised),
        lowered.spec_le(c.scale),
    ensures
        scale_floor().spec_le(c.after(input, raised, lowered).scale),
        c.after(input, raised, lowered).scale.spec_le(scale_ceiling()),
{
}

} // verus!

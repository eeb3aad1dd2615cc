//! A test of the strip without script engine and BLE: plain colours, then the effects in turn, over
//! and over.
use crate::led;
use crate::led::{
    effect_breathe, effect_chase, effect_rainbow, effect_red, set_all, Rgb, FRAME_BYTES,
};
use vstd::prelude::*;

verus! {

/// Plain colours that are shown.
pub const COLORS: usize = 6;

/// Times that a plain colour is sent, so that every chip takes it.
pub const SENDS: usize = 3;

/// Effects that are shown.
pub const EFFECTS: usize = 4;

/// Frames that an effect is shown for, about 3 s.
pub const EFFECT_FRAMES: u32 = 180;

/// A step of the test.
#[derive(Clone, Copy, Debug, PartialEq, Eq, Structural)]
pub enum StripStep {
    /// Send this plain colour, for the time that `send` counts, and pause for a frame.
    Color { color: usize, send: usize },
    /// Leave this plain colour on for a while.
    Hold { color: usize },
    /// Send this frame of this effect and pause.
    Effect { effect: usize, frame: u32 },
}

/// The plain colours: black, red, green, blue, white, and red with a single bit set.
pub open spec fn test_color(color: int) -> Rgb {
    if color == 0 {
        Rgb { r: 0, g: 0, b: 0 }
    } else if color == 1 {
        Rgb { r: 255, g: 0, b: 0 }
    } else if color == 2 {
        Rgb { r: 0, g: 255, b: 0 }
    } else if color == 3 {
        Rgb { r: 0, g: 0, b: 255 }
    } else if color == 4 {
        Rgb { r: 255, g: 255, b: 255 }
    } else {
        Rgb { r: 1, g: 0, b: 0 }
    }
}

/// The colour of LED `i` in a frame of an effect: red, chase, breathing, rainbow.
pub open spec fn effect_color(effect: int, frame: int, i: int) -> Rgb {
    if effect == 0 {
        Rgb { r: 255, g: 0, b: 0 }
    } else if effect == 1 {
        led::chase_color(frame, i)
    } else if effect == 2 {
        Rgb { r: led::breathe_level(frame) as u8, g: 0, b: led::breathe_level(frame) as u8 }
    } else {
        led::rainbow_color(frame, i)
    }
}

/// A test of the strip.
#[derive(Clone, Copy, Debug, PartialEq, Eq, Structural)]
pub struct StripTest {
    /// What is to be done.
    pub step: StripStep,
}

impl StripTest {
    /// The step names a colour, an effect and a frame that there are.
    pub open spec fn wf(self) -> bool {
        match self.step {
            StripStep::Color { color, send } => color < COLORS && send < SENDS,
            StripStep::Hold { color } => color < COLORS,
            StripStep::Effect { effect, frame } => effect < EFFECTS && frame < EFFECT_FRAMES,
        }
    }

    /// The test after the step. It has no end.
    pub open spec fn following(self) -> StripTest {
        StripTest {
            step: match self.step {
                StripStep::Color { color, send } => if send + 1 < SENDS {
                    StripStep::Color { color, send: (send + 1) as usize }
                } else {
                    StripStep::Hold { color }
                },
                StripStep::Hold { color } => if color + 1 < COLORS {
                    StripStep::Color { color: (color + 1) as usize, send: 0 }
                } else {
                    StripStep::Effect { effect: 0, frame: 0 }
                },
                StripStep::Effect { effect, frame } => if frame + 1 < EFFECT_FRAMES {
                    StripStep::Effect { effect, frame: (frame + 1) as u32 }
                } else if effect + 1 < EFFECTS {
                    StripStep::Effect { effect: (effect + 1) as usize, frame: 0 }
                } else {
                    StripStep::Effect { effect: 0, frame: 0 }
                },
            },
        }
    }

    /// The frame that the step shows, in a buffer that held `s`.
    pub open spec fn drawn(self, s: Seq<u8>) -> Seq<u8> {
        match self.step {
            StripStep::Color { color, .. } => led::with_all(s, test_color(color as int)),
            StripStep::Hold { .. } => s,
            StripStep::Effect { effect, frame } => led::with_colors(
                s,
                |i: int| effect_color(effect as int, frame as int, i),
            ),
        }
    }

    /// Before the first step.
    pub fn new() -> (t: StripTest)
        ensures
            t == (StripTest { step: StripStep::Color { color: 0, send: 0 } }),
            t.wf(),
    {
        StripTest { step: StripStep::Color { color: 0, send: 0 } }
    }

    /// Moves on once the step has been performed.
    pub fn next(&mut self)
        requires
            old(self).wf(),
        ensures
            final(self).wf(),
            *final(self) == old(self).following(),
    {
        self.step = match self.step {
            StripStep::Color { color, send } => if send + 1 < SENDS {
                StripStep::Color { color, send: send + 1 }
            } else {
                StripStep::Hold { color }
            },
            StripStep::Hold { color } => if color + 1 < COLORS {
                StripStep::Color { color: color + 1, send: 0 }
            } else {
                StripStep::Effect { effect: 0, frame: 0 }
            },
            StripStep::Effect { effect, frame } => if frame + 1 < EFFECT_FRAMES {
                StripStep::Effect { effect, frame: frame + 1 }
            } else if effect + 1 < EFFECTS {
                StripStep::Effect { effect: effect + 1, frame: 0 }
            } else {
                StripStep::Effect { effect: 0, frame: 0 }
            },
        };
    }

    /// A plain colour of the test.
    pub fn color(color: usize) -> (c: Rgb)
        ensures
            c == test_color(color as int),
    {
        match color {
            0 => Rgb { r: 0, g: 0, b: 0 },
            1 => Rgb { r: 255, g: 0, b: 0 },
            2 => Rgb { r: 0, g: 255, b: 0 },
            3 => Rgb { r: 0, g: 0, b: 255 },
            4 => Rgb { r: 255, g: 255, b: 255 },
            _ => Rgb { r: 1, g: 0, b: 0 },
        }
    }

    /// Draws the frame that the step shows.
    pub fn draw(&self, buf: &mut [u8])
        requires
            FRAME_BYTES <= old(buf)@.len(),
        ensures
            final(buf)@ == self.drawn(old(buf)@),
    {
        match self.step {
            StripStep::Color { color, .. } => {
                let c: Rgb = StripTest::color(color);
                set_all(buf, c.r, c.g, c.b);
            },
            StripStep::Hold { .. } => {},
            StripStep::Effect { effect, frame } => {
                if effect == 0 {
                    effect_red(buf, frame);
                } else if effect == 1 {
                    effect_chase(buf, frame);
                } else if effect == 2 {
                    effect_breathe(buf, frame);
                } else {
                    effect_rainbow(buf, frame);
                }
                assert(buf@ =~= self.drawn(old(buf)@));
            },
        }
    }
}

} // verus!

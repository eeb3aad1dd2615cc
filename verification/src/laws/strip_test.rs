//! Laws of the strip test.
use crate::strip_test;
use crate::strip_test::{StripStep, StripTest};
use vstd::prelude::*;

verus! {

/// The test after `n` steps.
pub open spec fn after_steps(n: nat) -> StripTest
    decreases n,
{
    if n == 0 {
        StripTest { step: StripStep::Color { color: 0, send: 0 } }
    } else {
        after_steps((n - 1) as nat).following()
    }
}

/// The test shows each plain colour three times and leaves it on, in order; after these 24 steps
/// it shows 180 frames of each effect in turn, for good.
pub proof fn law_strip_test_schedule(n: nat)
    ensures
        after_steps(n).step == if n < 24 {
            if n % 4 < 3 {
                StripStep::Color { color: (n / 4) as usize, send: (n % 4) as usize }
            } else {
                StripStep::Hold { color: (n / 4) as usize }
            }
        } else {
            StripStep::Effect {
                effect: ((n - 24) / 180 % 4) as usize,
                frame: ((n - 24) % 180) as u32,
            }
        },
    decreases n,
{
    if n > 0 {
        law_strip_test_schedule((n - 1) as nat);
    }
}

/// A plain colour fills the strip with its bytes: black, red, green, blue, white, and red with a
/// single bit set; leaving it on draws nothing.
pub proof fn law_plain_colors_fill_the_strip(t: StripTest, s: Seq<u8>, i: int)
    requires
        t.wf(),
        32 <= s.len(),
        0 <= i < 8,
    ensures
        t.drawn(s).len() == s.len(),
        t.step is Hold ==> t.drawn(s) == s,
        t.step matches StripStep::Color { color, .. } ==> {
            let x = t.drawn(s);
            &&& x[4 * i + 1] == if color == 1 || color == 4 {
                255u8
            } else if color == 5 {
                1
            } else {
                0
            }
            &&& x[4 * i] == if color == 2 || color == 4 {
                255u8
            } else {
                0
            }
            &&& x[4 * i + 2] == if color == 3 || color == 4 {
                255u8
            } else {
                0
            }
            &&& x[4 * i + 3] == 0
            &&& forall|k: int| 32 <= k < s.len() ==> #[trigger] x[k] == s[k]
        },
{
}

/// The effects in order: red; one white LED that moves on by one a frame; violet that goes up and
/// down in steps of 4 over 128 frames; a rainbow that turns by 2 of 768 steps a frame, with 32
/// steps from LED to LED.
pub proof fn law_effects_are_drawn_in_order(t: StripTest, s: Seq<u8>, i: int)
    requires
        t.wf(),
        t.step is Effect,
        32 <= s.len(),
        0 <= i < 8,
    ensures
        ({
            let effect = t.step->effect;
            let frame = t.step->frame as int;
            let x = t.drawn(s);
            let up = frame % 128;
            let h = (2 * frame + 32 * i) % 768;
            let (g, r, b) = if effect == 0 {
                (0int, 255int, 0int)
            } else if effect == 1 {
                let lit = if (frame - i) % 8 == 0 {
                    255int
                } else {
                    0
                };
                (lit, lit, lit)
            } else if effect == 2 {
                let v = 4 * if up < 127 - up {
                    up
                } else {
                    127 - up
                };
                (0, v, v)
            } else if h < 256 {
                (h, 255 - h, 0)
            } else if h < 512 {
                (511 - h, 0, h - 256)
            } else {
                (0, h - 512, 767 - h)
            };
            &&& x[4 * i] == g
            &&& x[4 * i + 1] == r
            &&& x[4 * i + 2] == b
            &&& x[4 * i + 3] == 0
            &&& forall|k: int| 32 <= k < s.len() ==> #[trigger] x[k] == s[k]
        }),
{
    let effect = t.step->effect as int;
    let frame = t.step->frame as int;
    crate::laws::led::law_strip_shows_colors(
        s,
        |j: int| strip_test::effect_color(effect, frame, j),
        i,
    );
}

} // verus!

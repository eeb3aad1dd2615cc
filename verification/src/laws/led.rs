//! Laws of the frame buffer and the effects.
use crate::led;
use crate::led::{Rgb, FRAME_BYTES, NUM_LEDS};
use vstd::prelude::*;

verus! {

/// An LED that is set has the colour it was set to, with its white light off, and every byte of
/// the others stays.
pub proof fn law_set_led_touches_one(s: Seq<u8>, i: int, c: Rgb)
    requires
        0 <= i,
        4 * i + 4 <= s.len(),
    ensures
        led::led_at(led::with_led(s, i, c), i) == c,
        led::with_led(s, i, c)[4 * i] == c.g,
        led::with_led(s, i, c)[4 * i + 1] == c.r,
        led::with_led(s, i, c)[4 * i + 2] == c.b,
        led::with_led(s, i, c)[4 * i + 3] == 0,
        led::with_led(s, i, c).len() == s.len(),
        forall|k: int|
            0 <= k < s.len() && k / 4 != i ==> #[trigger] led::with_led(s, i, c)[k] == s[k],
{
}

/// Setting two different LEDs gives the same frame in either order.
pub proof fn law_set_led_commutes(s: Seq<u8>, i: int, c: Rgb, j: int, d: Rgb)
    requires
        0 <= i,
        0 <= j,
        i != j,
    ensures
        led::with_led(led::with_led(s, i, c), j, d) == led::with_led(led::with_led(s, j, d), i, c),
{
    assert(led::with_led(led::with_led(s, i, c), j, d) =~= led::with_led(
        led::with_led(s, j, d),
        i,
        c,
    ));
}

/// A frame that is drawn shows on each LED its colour, with the white light off, and leaves what
/// lies behind the strip.
pub proof fn law_strip_shows_colors(s: Seq<u8>, color: spec_fn(int) -> Rgb, i: int)
    requires
        FRAME_BYTES <= s.len(),
        0 <= i < NUM_LEDS,
    ensures
        led::with_colors(s, color).len() == s.len(),
        led::led_at(led::with_colors(s, color), i) == color(i),
        led::with_colors(s, color)[4 * i] == color(i).g,
        led::with_colors(s, color)[4 * i + 1] == color(i).r,
        led::with_colors(s, color)[4 * i + 2] == color(i).b,
        led::with_colors(s, color)[4 * i + 3] == 0,
        led::with_colors(s, color).skip(FRAME_BYTES as int) == s.skip(FRAME_BYTES as int),
{
    assert(led::with_colors(s, color).skip(FRAME_BYTES as int) =~= s.skip(FRAME_BYTES as int));
}

/// Each LED of the strip below `n` set to `c` in turn.
pub open spec fn with_each(s: Seq<u8>, c: Rgb, n: int) -> Seq<u8>
    decreases n,
{
    if n <= 0 {
        s
    } else {
        led::with_led(with_each(s, c, n - 1), n - 1, c)
    }
}

proof fn lemma_with_each(s: Seq<u8>, c: Rgb, n: int)
    requires
        0 <= n <= NUM_LEDS,
        FRAME_BYTES <= s.len(),
    ensures
        with_each(s, c, n).len() == s.len(),
        forall|k: int|
            0 <= k < s.len() ==> #[trigger] with_each(s, c, n)[k] == if k < 4 * n {
                c.grbw()[k % 4]
            } else {
                s[k]
            },
    decreases n,
{
    if n > 0 {
        lemma_with_each(s, c, n - 1);
    }
}

/// Setting all LEDs is setting each of them.
pub proof fn law_set_all_is_set_each(s: Seq<u8>, c: Rgb)
    requires
        FRAME_BYTES <= s.len(),
    ensures
        led::with_all(s, c) == with_each(s, c, NUM_LEDS as int),
{
    lemma_with_each(s, c, NUM_LEDS as int);
    assert(led::with_all(s, c) =~= with_each(s, c, NUM_LEDS as int));
}

/// The chase lights exactly one LED, and in the next frame the next one.
pub proof fn law_chase_lights_one(frame: int, i: int)
    requires
        0 <= i < NUM_LEDS,
    ensures
        led::chase_color(frame, i) == (if i == frame % 8 {
            Rgb { r: 255, g: 255, b: 255 }
        } else {
            Rgb { r: 0, g: 0, b: 0 }
        }),
        led::chase_color(frame + 1, (i + 1) % 8) == led::chase_color(frame, i),
{
}

/// The breathing effect stays in range and changes by at most 4 from frame to frame.
pub proof fn law_breathe_is_smooth(frame: int)
    ensures
        0 <= led::breathe_level(frame) <= 252,
        -4 <= led::breathe_level(frame + 1) - led::breathe_level(frame) <= 4,
{
}

/// The rainbow has the same total brightness everywhere.
pub proof fn law_rainbow_is_even(frame: int, i: int)
    ensures
        ({
            let c = led::rainbow_color(frame, i);
            c.r + c.g + c.b == 255
        }),
{
}

/// The rainbow moves along the strip: after 16 frames each LED has the colour of its neighbour.
pub proof fn law_rainbow_moves(frame: int, i: int)
    ensures
        led::rainbow_color(frame + 16, i) == led::rainbow_color(frame, i + 1),
{
}

/// The effects repeat: the chase after 8 frames, breathing after 128, the rainbow after 384.
pub proof fn law_effects_repeat(frame: int, i: int)
    ensures
        led::chase_color(frame + 8, i) == led::chase_color(frame, i),
        led::breathe_level(frame + 128) == led::breathe_level(frame),
        led::rainbow_color(frame + 384, i) == led::rainbow_color(frame, i),
{
}

/// The colour that is read of an LED is in its bytes: green, red, blue.
pub proof fn law_color_is_in_the_bytes(s: Seq<u8>, i: int)
    ensures
        led::led_at(s, i).g == s[4 * i],
        led::led_at(s, i).r == s[4 * i + 1],
        led::led_at(s, i).b == s[4 * i + 2],
{
}

/// A frame in one colour has, LED by LED, the bytes green, red, blue and 0 up to byte 32.
pub proof fn law_one_color_fills_the_strip(s: Seq<u8>, c: Rgb)
    requires
        32 <= s.len(),
    ensures
        led::with_all(s, c).len() == s.len(),
        forall|k: int|
            0 <= k < s.len() ==> #[trigger] led::with_all(s, c)[k] == if k >= 32 {
                s[k]
            } else if k % 4 == 0 {
                c.g
            } else if k % 4 == 1 {
                c.r
            } else if k % 4 == 2 {
                c.b
            } else {
                0
            },
{
}

/// A byte that shows argument `k` of a script call: the argument modulo 256, and 0 when it is
/// missing or is not a number.
pub open spec fn shows(byte: u8, args: Seq<Option<i32>>, k: int) -> bool {
    if k < args.len() && args[k] is Some {
        (byte - args[k]->0) % 256 == 0
    } else {
        byte == 0
    }
}

/// `setLed` shows its arguments 1, 2 and 3 as red, green and blue on the LED that its argument 0
/// names, and touches nothing else; an index that is missing or off the strip does nothing.
pub proof fn law_set_led_shows_its_arguments(args: Seq<Option<i32>>, s: Seq<u8>)
    requires
        32 <= s.len(),
    ensures
        ({
            let t = led::led_set_by(args, s);
            if args.len() > 0 && args[0] is Some && 0 <= args[0]->0 < 8 {
                let i = args[0]->0;
                &&& t.len() == s.len()
                &&& shows(t[4 * i + 1], args, 1)
                &&& shows(t[4 * i], args, 2)
                &&& shows(t[4 * i + 2], args, 3)
                &&& t[4 * i + 3] == 0
                &&& forall|k: int|
                    0 <= k < s.len() && !(4 * i <= k < 4 * i + 4) ==> #[trigger] t[k] == s[k]
            } else {
                t == s
            }
        }),
{
}

/// `setAll` shows its arguments 0, 1 and 2 as red, green and blue on every LED, and touches
/// nothing behind the strip.
pub proof fn law_set_all_shows_its_arguments(args: Seq<Option<i32>>, s: Seq<u8>, i: int)
    requires
        32 <= s.len(),
        0 <= i < 8,
    ensures
        ({
            let t = led::all_set_by(args, s);
            &&& t.len() == s.len()
            &&& shows(t[4 * i + 1], args, 0)
            &&& shows(t[4 * i], args, 1)
            &&& shows(t[4 * i + 2], args, 2)
            &&& t[4 * i + 3] == 0
            &&& forall|k: int| 32 <= k < s.len() ==> #[trigger] t[k] == s[k]
        }),
{
}

/// A script that asks for red `r`, green `g` and blue `b` gets exactly these, from `setAll` on
/// every LED and from `setLed` on the one that it names.
pub proof fn law_script_gets_its_color(s: Seq<u8>, i: i32, r: u8, g: u8, b: u8)
    requires
        32 <= s.len(),
        0 <= i < 8,
    ensures
        ({
            let t = led::all_set_by(seq![Some(r as i32), Some(g as i32), Some(b as i32)], s);
            t[4 * i + 1] == r && t[4 * i] == g && t[4 * i + 2] == b
        }),
        ({
            let t = led::led_set_by(
                seq![Some(i), Some(r as i32), Some(g as i32), Some(b as i32)],
                s,
            );
            t[4 * i + 1] == r && t[4 * i] == g && t[4 * i + 2] == b
        }),
{
    let all = seq![Some(r as i32), Some(g as i32), Some(b as i32)];
    let one = seq![Some(i), Some(r as i32), Some(g as i32), Some(b as i32)];
    law_set_all_shows_its_arguments(all, s, i as int);
    law_set_led_shows_its_arguments(one, s);
    assert(one[0] == Some(i));
}

/// Breathing starts dark, grows by 4 a frame up to frame 63, holds for one, falls by 4 a frame,
/// and starts again after 128 frames.
pub proof fn law_breathe_rises_and_falls(frame: int)
    ensures
        ({
            let t = frame % 128;
            let change = led::breathe_level(frame + 1) - led::breathe_level(frame);
            &&& t == 0 ==> led::breathe_level(frame) == 0
            &&& t < 63 ==> change == 4
            &&& t == 63 || t == 127 ==> change == 0
            &&& 63 < t < 127 ==> change == -4
        }),
{
}

/// In the rainbow each of the three colours is out for 256 of 768 steps of the wheel, then grows
/// by 1 a step up to 255 and falls again: red falls from step 0, green from step 256, blue from
/// step 512, and each grows while the one before it falls.
pub proof fn law_rainbow_colors_take_turns(frame: int, i: int)
    ensures
        ({
            let h = (2 * frame + 32 * i) % 768;
            let c = led::rainbow_color(frame, i);
            &&& c.r == if h < 256 {
                255 - h
            } else if h < 512 {
                0
            } else {
                h - 512
            }
            &&& c.g == if h < 256 {
                h
            } else if h < 512 {
                511 - h
            } else {
                0
            }
            &&& c.b == if h < 256 {
                0
            } else if h < 512 {
                h - 256
            } else {
                767 - h
            }
        }),
{
}

/// A preview gives the first four LEDs, each with the red, green and blue that its bytes hold.
pub proof fn law_preview_gives_first_leds(s: Seq<u8>, i: int)
    requires
        32 <= s.len(),
        0 <= i < 4,
    ensures
        led::preview(s).len() == 4,
        led::preview(s)[i].r == s[4 * i + 1],
        led::preview(s)[i].g == s[4 * i],
        led::preview(s)[i].b == s[4 * i + 2],
{
}

/// The bytes of LED `i` are those of a colour, with the white light off.
pub open spec fn lit(s: Seq<u8>, i: int, r: int, g: int, b: int) -> bool {
    s[4 * i] == g && s[4 * i + 1] == r && s[4 * i + 2] == b && s[4 * i + 3] == 0
}

/// The red effect shows red on every LED and leaves what lies behind the strip.
pub proof fn law_red_lights_the_strip(s: Seq<u8>, i: int)
    requires
        32 <= s.len(),
        0 <= i < 8,
    ensures
        lit(led::red_frame(s), i, 255, 0, 0),
        led::red_frame(s).skip(32) == s.skip(32),
{
    law_one_color_fills_the_strip(s, Rgb { r: 255, g: 0, b: 0 });
    assert(led::red_frame(s).skip(32) =~= s.skip(32));
}

/// The chase shows white on the LED whose turn it is, black on every other, and leaves what lies
/// behind the strip.
pub proof fn law_chase_lights_the_strip(s: Seq<u8>, frame: int, i: int)
    requires
        32 <= s.len(),
        0 <= i < 8,
    ensures
        (frame - i) % 8 == 0 ==> lit(led::chase_frame(s, frame), i, 255, 255, 255),
        (frame - i) % 8 != 0 ==> lit(led::chase_frame(s, frame), i, 0, 0, 0),
        led::chase_frame(s, frame).skip(32) == s.skip(32),
{
    law_strip_shows_colors(s, |j: int| led::chase_color(frame, j), i);
}

/// Breathing shows violet on every LED, of a brightness that goes up and down between 0 and 252
/// over 128 frames, and leaves what lies behind the strip.
pub proof fn law_breathing_lights_the_strip(s: Seq<u8>, frame: int, i: int)
    requires
        32 <= s.len(),
        0 <= i < 8,
    ensures
        ({
            let up = frame % 128;
            let v = 4 * if up < 127 - up {
                up
            } else {
                127 - up
            };
            lit(led::breathe_frame(s, frame), i, v, 0, v)
        }),
        led::breathe_frame(s, frame).skip(32) == s.skip(32),
{
    let v = led::breathe_level(frame) as u8;
    law_one_color_fills_the_strip(s, Rgb { r: v, g: 0, b: v });
    assert(led::breathe_frame(s, frame).skip(32) =~= s.skip(32));
}

/// The rainbow shows on each LED the colour of the wheel at step `2 * frame + 32 * i`: red falls
/// while green grows, then green while blue grows, then blue while red grows, 256 steps each. It
/// leaves what lies behind the strip.
pub proof fn law_rainbow_lights_the_strip(s: Seq<u8>, frame: int, i: int)
    requires
        32 <= s.len(),
        0 <= i < 8,
    ensures
        ({
            let h = (2 * frame + 32 * i) % 768;
            let t = led::rainbow_frame(s, frame);
            &&& h < 256 ==> lit(t, i, 255 - h, h, 0)
            &&& 256 <= h < 512 ==> lit(t, i, 0, 511 - h, h - 256)
            &&& 512 <= h ==> lit(t, i, h - 512, 0, 767 - h)
        }),
        led::rainbow_frame(s, frame).skip(32) == s.skip(32),
{
    law_strip_shows_colors(s, |j: int| led::rainbow_color(frame, j), i);
    law_rainbow_colors_take_turns(frame, i);
}

} // verus!

//! The frame buffer of the light strip and the effects drawn in it.
//!
//! Each LED takes four bytes: green, red, blue, white.
use vstd::prelude::*;

verus! {

/// LEDs on the strip.
pub const NUM_LEDS: usize = 8;

/// Bytes that an LED takes in a frame buffer.
pub const BYTES_PER_LED: usize = 4;

/// Bytes that the strip takes in a frame buffer.
pub const FRAME_BYTES: usize = 32;

/// LEDs that a preview shows.
pub const PREVIEW_LEDS: usize = 4;

/// A colour.
#[derive(Clone, Copy, Debug, PartialEq, Eq, Structural)]
pub struct Rgb {
    pub r: u8,
    pub g: u8,
    pub b: u8,
}

impl Rgb {
    /// The bytes that show the colour on an LED, its white light off.
    pub open spec fn grbw(self) -> Seq<u8> {
        seq![self.g, self.r, self.b, 0u8]
    }
}

/// The colour of LED `i`.
pub open spec fn led_at(s: Seq<u8>, i: int) -> Rgb {
    Rgb { r: s[4 * i + 1], g: s[4 * i], b: s[4 * i + 2] }
}

/// The frame with LED `i` set to `c`.
pub open spec fn with_led(s: Seq<u8>, i: int, c: Rgb) -> Seq<u8> {
    Seq::new(
        s.len(),
        |k: int|
            if 4 * i <= k < 4 * i + 4 {
                c.grbw()[k - 4 * i]
            } else {
                s[k]
            },
    )
}

/// The frame with each LED `i` of the strip set to `color(i)`.
pub open spec fn with_colors(s: Seq<u8>, color: spec_fn(int) -> Rgb) -> Seq<u8> {
    Seq::new(
        s.len(),
        |k: int|
            if k < FRAME_BYTES {
                color(k / 4).grbw()[k % 4]
            } else {
                s[k]
            },
    )
}

/// The frame with every LED of the strip set to `c`.
pub open spec fn with_all(s: Seq<u8>, c: Rgb) -> Seq<u8> {
    with_colors(s, |i: int| c)
}

/// Sets one LED.
pub fn set_led(buf: &mut [u8], idx: usize, r: u8, g: u8, b: u8)
    requires
        4 * idx + 4 <= old(buf)@.len(),
    ensures
        final(buf)@ == with_led(old(buf)@, idx as int, Rgb { r, g, b }),
{
    let o: usize = idx * BYTES_PER_LED;
    buf[o] = g;
    buf[o + 1] = r;
    buf[o + 2] = b;
    buf[o + 3] = 0;
    assert(buf@ =~= with_led(old(buf)@, idx as int, Rgb { r, g, b }));
}

/// Sets every LED of the strip.
pub fn set_all(buf: &mut [u8], r: u8, g: u8, b: u8)
    requires
        FRAME_BYTES <= old(buf)@.len(),
    ensures
        final(buf)@ == with_all(old(buf)@, Rgb { r, g, b }),
{
    let ghost c = Rgb { r, g, b };
    let ghost all = with_all(buf@, c);
    let mut i: usize = 0;
    while i < NUM_LEDS
        invariant
            i <= NUM_LEDS,
            c == (Rgb { r, g, b }),
            FRAME_BYTES <= old(buf)@.len() == buf@.len(),
            all == with_all(old(buf)@, c),
            forall|k: int| 0 <= k < 4 * i ==> buf@[k] == all[k],
            forall|k: int| 4 * i <= k < buf@.len() ==> buf@[k] == old(buf)@[k],
        decreases NUM_LEDS - i,
    {
        set_led(buf, i, r, g, b);
        i += 1;
    }
    assert(buf@ =~= all);
}

/// A frame of the red effect.
pub open spec fn red_frame(s: Seq<u8>) -> Seq<u8> {
    with_all(s, Rgb { r: 255, g: 0, b: 0 })
}

/// All red.
pub fn effect_red(buf: &mut [u8], _frame: u32)
    requires
        FRAME_BYTES <= old(buf)@.len(),
    ensures
        final(buf)@ == red_frame(old(buf)@),
        final(buf)@ == with_all(old(buf)@, Rgb { r: 255, g: 0, b: 0 }),
{
    set_all(buf, 255, 0, 0);
}

/// The colour of LED `i` in the chase: one white LED that moves on by one with each frame.
pub open spec fn chase_color(frame: int, i: int) -> Rgb {
    if i == frame % (NUM_LEDS as int) {
        Rgb { r: 255, g: 255, b: 255 }
    } else {
        Rgb { r: 0, g: 0, b: 0 }
    }
}

/// A frame of the chase.
pub open spec fn chase_frame(s: Seq<u8>, frame: int) -> Seq<u8> {
    with_colors(s, |i: int| chase_color(frame, i))
}

/// One white LED that moves along the strip.
pub fn effect_chase(buf: &mut [u8], frame: u32)
    requires
        FRAME_BYTES <= old(buf)@.len(),
    ensures
        final(buf)@ == chase_frame(old(buf)@, frame as int),
        final(buf)@ == with_colors(old(buf)@, |i: int| chase_color(frame as int, i)),
{
    set_all(buf, 0, 0, 0);
    set_led(buf, (frame as usize) % NUM_LEDS, 255, 255, 255);
    assert(buf@ =~= chase_frame(old(buf)@, frame as int));
    assert(buf@ =~= with_colors(old(buf)@, |i: int| chase_color(frame as int, i)));
}

/// The brightness of the breathing effect: up in steps of 4 and down again, over 128 frames.
pub open spec fn breathe_level(frame: int) -> int {
    let t = frame % 128;
    if t < 64 {
        4 * t
    } else {
        4 * (127 - t)
    }
}

/// A frame of the breathing effect.
pub open spec fn breathe_frame(s: Seq<u8>, frame: int) -> Seq<u8> {
    let v = breathe_level(frame) as u8;
    with_all(s, Rgb { r: v, g: 0, b: v })
}

/// Violet that grows brighter and dimmer.
pub fn effect_breathe(buf: &mut [u8], frame: u32)
    requires
        FRAME_BYTES <= old(buf)@.len(),
    ensures
        final(buf)@ == breathe_frame(old(buf)@, frame as int),
        ({
            let v = breathe_level(frame as int) as u8;
            final(buf)@ == with_all(old(buf)@, Rgb { r: v, g: 0, b: v })
        }),
{
    let t: u8 = (frame % 128) as u8;
    let v: u8 = if t < 64 {
        t * 4
    } else {
        (127 - t) * 4
    };
    set_all(buf, v, 0, v);
}

/// The colour wheel: red to green, green to blue, blue to red, 256 steps each.
pub open spec fn wheel(hue: int) -> Rgb {
    let h = hue % 256;
    if hue < 256 {
        Rgb { r: (255 - h) as u8, g: h as u8, b: 0 }
    } else if hue < 512 {
        Rgb { r: 0, g: (255 - h) as u8, b: h as u8 }
    } else {
        Rgb { r: h as u8, g: 0, b: (255 - h) as u8 }
    }
}

/// The colour of LED `i` in the rainbow: the wheel turns by 2 steps with each frame, and
/// neighbours are 32 steps apart.
pub open spec fn rainbow_color(frame: int, i: int) -> Rgb {
    wheel((frame * 2 + i * 32) % 768)
}

/// A frame of the rainbow.
pub open spec fn rainbow_frame(s: Seq<u8>, frame: int) -> Seq<u8> {
    with_colors(s, |i: int| rainbow_color(frame, i))
}

/// A rainbow that moves along the strip.
pub fn effect_rainbow(buf: &mut [u8], frame: u32)
    requires
        FRAME_BYTES <= old(buf)@.len(),
    ensures
        final(buf)@ == rainbow_frame(old(buf)@, frame as int),
        final(buf)@ == with_colors(old(buf)@, |i: int| rainbow_color(frame as int, i)),
{
    let ghost all = with_colors(buf@, |i: int| rainbow_color(frame as int, i));
    let mut i: usize = 0;
    while i < NUM_LEDS
        invariant
            i <= NUM_LEDS,
            FRAME_BYTES <= old(buf)@.len() == buf@.len(),
            all == with_colors(old(buf)@, |i: int| rainbow_color(frame as int, i)),
            forall|k: int| 0 <= k < 4 * i ==> buf@[k] == all[k],
            forall|k: int| 4 * i <= k < buf@.len() ==> buf@[k] == old(buf)@[k],
        decreases NUM_LEDS - i,
    {
        let hue: u64 = (frame as u64 * 2 + i as u64 * 32) % 768;
        let (r, g, b): (u64, u64, u64) = if hue < 256 {
            (255 - hue, hue, 0)
        } else if hue < 512 {
            let h: u64 = hue - 256;
            (0, 255 - h, h)
        } else {
            let h: u64 = hue - 512;
            (h, 0, 255 - h)
        };
        set_led(buf, i, r as u8, g as u8, b as u8);
        i += 1;
    }
    assert(buf@ =~= all);
    assert(buf@ =~= rainbow_frame(old(buf)@, frame as int));
}

/// The number that argument `i` of a script call stands for; `default` when it is missing or is
/// not a number.
pub open spec fn argument(args: Seq<Option<i32>>, i: int, default: int) -> int {
    if i < args.len() && args[i] is Some {
        args[i]->0 as int
    } else {
        default
    }
}

/// The low byte of a number.
pub open spec fn low_byte(v: int) -> u8 {
    (v % 256) as u8
}

/// The colour that three arguments of a script call stand for, from argument `i` on.
pub open spec fn argument_color(args: Seq<Option<i32>>, i: int) -> Rgb {
    Rgb {
        r: low_byte(argument(args, i, 0)),
        g: low_byte(argument(args, i + 1, 0)),
        b: low_byte(argument(args, i + 2, 0)),
    }
}

/// The frame after `setLed(index, r, g, b)` with these arguments.
pub open spec fn led_set_by(args: Seq<Option<i32>>, s: Seq<u8>) -> Seq<u8> {
    let i = argument(args, 0, -1);
    if 0 <= i < NUM_LEDS {
        with_led(s, i, argument_color(args, 1))
    } else {
        s
    }
}

/// The frame after `setAll(r, g, b)` with these arguments.
pub open spec fn all_set_by(args: Seq<Option<i32>>, s: Seq<u8>) -> Seq<u8> {
    with_all(s, argument_color(args, 0))
}

fn read_argument(args: &[Option<i32>], i: usize, default: i32) -> (v: i32)
    ensures
        v == argument(args@, i as int, default as int),
{
    if i < args.len() {
        match args[i] {
            Some(v) => v,
            None => default,
        }
    } else {
        default
    }
}

fn truncate(v: i32) -> (b: u8)
    ensures
        b == low_byte(v as int),
{
    assert(v as u8 == v % 256) by (bit_vector);
    #[verifier::truncate]
    (v as u8)
}

/// `setLed(index, r, g, b)`: sets one LED; an index that is missing or off the strip does nothing.
/// Each argument is the number that the script passed, `None` when it passed no number.
pub fn native_set_led(args: &[Option<i32>], buf: &mut [u8])
    requires
        FRAME_BYTES <= old(buf)@.len(),
    ensures
        final(buf)@ == led_set_by(args@, old(buf)@),
        ({
            let i = argument(args@, 0, -1);
            final(buf)@ == if 0 <= i < NUM_LEDS {
                with_led(old(buf)@, i, argument_color(args@, 1))
            } else {
                old(buf)@
            }
        }),
{
    let idx: i32 = read_argument(args, 0, -1);
    let r: u8 = truncate(read_argument(args, 1, 0));
    let g: u8 = truncate(read_argument(args, 2, 0));
    let b: u8 = truncate(read_argument(args, 3, 0));
    if idx < 0 || idx >= NUM_LEDS as i32 {
        return;
    }
    set_led(buf, idx as usize, r, g, b);
}

/// `getLedCount()`: the number of LEDs.
pub fn native_get_led_count() -> (n: i32)
    ensures
        n == NUM_LEDS,
{
    NUM_LEDS as i32
}

/// `setAll(r, g, b)`: sets every LED. The arguments are as in [`native_set_led`].
pub fn native_set_all(args: &[Option<i32>], buf: &mut [u8])
    requires
        FRAME_BYTES <= old(buf)@.len(),
    ensures
        final(buf)@ == all_set_by(args@, old(buf)@),
        final(buf)@ == with_all(old(buf)@, argument_color(args@, 0)),
{
    let r: u8 = truncate(read_argument(args, 0, 0));
    let g: u8 = truncate(read_argument(args, 1, 0));
    let b: u8 = truncate(read_argument(args, 2, 0));
    set_all(buf, r, g, b);
}

/// The colours of the first LEDs of a frame.
pub open spec fn preview(s: Seq<u8>) -> Seq<Rgb> {
    Seq::new(PREVIEW_LEDS as nat, |i: int| led_at(s, i))
}

/// The colours of the first LEDs of a frame, for a log line each.
pub fn frame_preview(buf: &[u8]) -> (leds: Vec<Rgb>)
    requires
        FRAME_BYTES <= buf@.len(),
    ensures
        leds@ == preview(buf@),
        leds@ == Seq::new(PREVIEW_LEDS as nat, |i: int| led_at(buf@, i)),
{
    let n: usize = if NUM_LEDS < PREVIEW_LEDS {
        NUM_LEDS
    } else {
        PREVIEW_LEDS
    };
    let mut leds: Vec<Rgb> = Vec::new();
    let mut i: usize = 0;
    while i < n
        invariant
            i <= n == PREVIEW_LEDS,
            FRAME_BYTES <= buf@.len(),
            leds@ == Seq::new(i as nat, |i: int| led_at(buf@, i)),
        decreases n - i,
    {
        let o: usize = i * BYTES_PER_LED;
        leds.push(Rgb { r: buf[o + 1], g: buf[o], b: buf[o + 2] });
        i += 1;
        assert(leds@ =~= Seq::new(i as nat, |i: int| led_at(buf@, i)));
    }
    assert(leds@ =~= preview(buf@));
    leds
}

} // verus!

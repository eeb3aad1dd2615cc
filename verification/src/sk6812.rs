//! Frames as SK6812 pulses.
//!
//! The pulse generator runs at 80 MHz, 12.5 ns a tick. A bit is a high and a low phase: 300 ns and
//! 900 ns for 0, 600 ns and 600 ns for 1. A low level of at least 80 us ends a frame.
use crate::led::{BYTES_PER_LED, NUM_LEDS};
use vstd::prelude::*;

verus! {

/// Ticks of the high phase of a 0.
pub const SK_T0H: u16 = 24;

/// Ticks of the low phase of a 0.
pub const SK_T0L: u16 = 72;

/// Ticks of the high phase of a 1.
pub const SK_T1H: u16 = 48;

/// Ticks of the low phase of a 1.
pub const SK_T1L: u16 = 48;

/// Black LEDs sent after the strip, so that noise lights none of those that follow.
pub const GUARD_LEDS: usize = 4;

/// Pulses that end a frame.
pub const RESET_PULSES: usize = 2;

/// Ticks of each phase of a pulse that ends a frame.
pub const RESET_TICKS: u16 = 24000;

/// Pulses of a frame: 32 for each LED, those that end it, and the end marker.
pub const RMT_BUF_LEN: usize = 387;

/// Level of the data line.
#[derive(Clone, Copy, Debug, PartialEq, Eq, Structural)]
pub enum Level {
    Low,
    High,
}

/// A phase in 15 bits of ticks and the level above them.
pub open spec fn phase_code(level: Level, ticks: int) -> int {
    ticks % 0x8000 + if level is High {
        0x8000int
    } else {
        0
    }
}

/// Two phases as the pulse generator takes them, the first one in the low half.
pub open spec fn pulse(level1: Level, ticks1: int, level2: Level, ticks2: int) -> u32 {
    (phase_code(level1, ticks1) + 0x1_0000 * phase_code(level2, ticks2)) as u32
}

/// Packs two phases for the pulse generator.
pub fn pulse_code(level1: Level, ticks1: u16, level2: Level, ticks2: u16) -> (code: u32)
    ensures
        code == pulse(level1, ticks1 as int, level2, ticks2 as int),
{
    let high1: u32 = if level1 == Level::High {
        0x8000
    } else {
        0
    };
    let high2: u32 = if level2 == Level::High {
        0x8000
    } else {
        0
    };
    let t1: u32 = ticks1 as u32 % 0x8000;
    let t2: u32 = ticks2 as u32 % 0x8000;
    (t1 + high1) + 0x1_0000 * (t2 + high2)
}

/// Bit `i` of a byte.
pub open spec fn bit(b: u8, i: int) -> bool {
    (b >> (i as u8)) & 1u8 == 1u8
}

/// The pulse of a bit.
pub open spec fn bit_pulse(one: bool) -> u32 {
    if one {
        pulse(Level::High, SK_T1H as int, Level::Low, SK_T1L as int)
    } else {
        pulse(Level::High, SK_T0H as int, Level::Low, SK_T0L as int)
    }
}

/// The pulse that ends a frame.
pub open spec fn reset_pulse() -> u32 {
    pulse(Level::Low, RESET_TICKS as int, Level::Low, RESET_TICKS as int)
}

/// Pulses that carry data: eight for each byte, for no more bytes than the strip has.
pub open spec fn data_pulses(data: Seq<u8>) -> int {
    8 * if data.len() < NUM_LEDS * BYTES_PER_LED {
        data.len() as int
    } else {
        NUM_LEDS * BYTES_PER_LED
    }
}

/// Pulse `k` of the frame that shows `data`: the bits of each byte from the highest down, the
/// black guard LEDs, the end of the frame, the end marker; behind it what the buffer held.
pub open spec fn frame_pulse(data: Seq<u8>, held: Seq<u32>, k: int) -> u32 {
    let n = data_pulses(data);
    let g = n + 8 * GUARD_LEDS * BYTES_PER_LED;
    if k < n {
        bit_pulse(bit(data[k / 8], 7 - k % 8))
    } else if k < g {
        bit_pulse(false)
    } else if k < g + RESET_PULSES {
        reset_pulse()
    } else if k == g + RESET_PULSES {
        0
    } else {
        held[k]
    }
}

/// The buffer `held` with the frame that shows `data` in it.
pub open spec fn frame_pulses(data: Seq<u8>, held: Seq<u32>) -> Seq<u32> {
    Seq::new(held.len(), |k: int| frame_pulse(data, held, k))
}

/// Encodes the frame that shows `data`. Bytes beyond the strip are left out.
pub fn encode_sk6812(data: &[u8], buf: &mut [u32; RMT_BUF_LEN])
    ensures
        final(buf)@ == frame_pulses(data@, old(buf)@),
{
    let max_bytes: usize = NUM_LEDS * BYTES_PER_LED;
    let len: usize = if data.len() < max_bytes {
        data.len()
    } else {
        max_bytes
    };
    let one: u32 = pulse_code(Level::High, SK_T1H, Level::Low, SK_T1L);
    let zero: u32 = pulse_code(Level::High, SK_T0H, Level::Low, SK_T0L);
    let ghost held = buf@;
    let ghost whole = frame_pulses(data@, held);
    let mut idx: usize = 0;
    let mut i: usize = 0;
    while i < len
        invariant
            i <= len <= 32,
            len <= data@.len(),
            8 * len == data_pulses(data@),
            idx == 8 * i,
            one == bit_pulse(true),
            zero == bit_pulse(false),
            held.len() == RMT_BUF_LEN,
            whole == frame_pulses(data@, held),
            forall|k: int| 0 <= k < idx ==> buf@[k] == whole[k],
            forall|k: int| idx <= k < RMT_BUF_LEN ==> buf@[k] == held[k],
        decreases len - i,
    {
        let byte: u8 = data[i];
        let mut b: u8 = byte;
        let mut j: u8 = 0;
        assert(byte << 0u8 == byte) by (bit_vector);
        while j < 8
            invariant
                j <= 8,
                i < len <= 32,
                len <= data@.len(),
                8 * len == data_pulses(data@),
                byte == data@[i as int],
                j < 8 ==> b == byte << j,
                idx == 8 * i + j,
                one == bit_pulse(true),
                zero == bit_pulse(false),
                held.len() == RMT_BUF_LEN,
                whole == frame_pulses(data@, held),
                forall|k: int| 0 <= k < idx ==> buf@[k] == whole[k],
                forall|k: int| idx <= k < RMT_BUF_LEN ==> buf@[k] == held[k],
            decreases 8 - j,
        {
            assert(((byte << j) & 0x80u8 != 0) == ((byte >> ((7 - j) as u8)) & 1u8 == 1u8))
                by (bit_vector)
                requires
                    j < 8,
            ;
            assert(j < 7 ==> (byte << j) << 1u8 == byte << ((j + 1) as u8)) by (bit_vector);
            buf[idx] = if (b & 0x80) != 0 {
                one
            } else {
                zero
            };
            b = b << 1;
            idx += 1;
            j += 1;
        }
        i += 1;
    }
    let guard: usize = GUARD_LEDS * BYTES_PER_LED * 8;
    let mut n: usize = 0;
    while n < guard
        invariant
            n <= guard == 128,
            8 * len == data_pulses(data@) <= 256,
            idx == 8 * len + n,
            zero == bit_pulse(false),
            held.len() == RMT_BUF_LEN,
            whole == frame_pulses(data@, held),
            forall|k: int| 0 <= k < idx ==> buf@[k] == whole[k],
            forall|k: int| idx <= k < RMT_BUF_LEN ==> buf@[k] == held[k],
        decreases guard - n,
    {
        buf[idx] = zero;
        idx += 1;
        n += 1;
    }
    let mut n: usize = 0;
    while n < RESET_PULSES
        invariant
            n <= RESET_PULSES,
            8 * len == data_pulses(data@) <= 256,
            idx == 8 * len + 128 + n,
            held.len() == RMT_BUF_LEN,
            whole == frame_pulses(data@, held),
            forall|k: int| 0 <= k < idx ==> buf@[k] == whole[k],
            forall|k: int| idx <= k < RMT_BUF_LEN ==> buf@[k] == held[k],
        decreases RESET_PULSES - n,
    {
        buf[idx] = pulse_code(Level::Low, RESET_TICKS, Level::Low, RESET_TICKS);
        idx += 1;
        n += 1;
    }
    buf[idx] = 0;
    assert(buf@ =~= whole);
}

} // verus!

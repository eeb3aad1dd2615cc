//! Laws of the pulse encoding.
use crate::led::{BYTES_PER_LED, NUM_LEDS};
use crate::sk6812;
use crate::sk6812::{Level, RMT_BUF_LEN};
use vstd::prelude::*;

verus! {

proof fn lemma_equal_bits(b: u8, c: u8)
    requires
        forall|i: int| 0 <= i < 8 ==> sk6812::bit(b, i) == sk6812::bit(c, i),
    ensures
        b == c,
{
    assert(sk6812::bit(b, 0) == sk6812::bit(c, 0));
    assert(sk6812::bit(b, 1) == sk6812::bit(c, 1));
    assert(sk6812::bit(b, 2) == sk6812::bit(c, 2));
    assert(sk6812::bit(b, 3) == sk6812::bit(c, 3));
    assert(sk6812::bit(b, 4) == sk6812::bit(c, 4));
    assert(sk6812::bit(b, 5) == sk6812::bit(c, 5));
    assert(sk6812::bit(b, 6) == sk6812::bit(c, 6));
    assert(sk6812::bit(b, 7) == sk6812::bit(c, 7));
    assert(((b >> 0u8) & 1u8 == 1u8) == ((c >> 0u8) & 1u8 == 1u8) && ((b >> 1u8) & 1u8 == 1u8)
        == ((c >> 1u8) & 1u8 == 1u8) && ((b >> 2u8) & 1u8 == 1u8) == ((c >> 2u8) & 1u8 == 1u8)
        && ((b >> 3u8) & 1u8 == 1u8) == ((c >> 3u8) & 1u8 == 1u8) && ((b >> 4u8) & 1u8 == 1u8)
        == ((c >> 4u8) & 1u8 == 1u8) && ((b >> 5u8) & 1u8 == 1u8) == ((c >> 5u8) & 1u8 == 1u8)
        && ((b >> 6u8) & 1u8 == 1u8) == ((c >> 6u8) & 1u8 == 1u8) && ((b >> 7u8) & 1u8 == 1u8)
        == ((c >> 7u8) & 1u8 == 1u8) ==> b == c) by (bit_vector);
}

/// The pulses tell what they show: no two frames of up to a strip's length are encoded alike.
pub proof fn law_pulses_tell_the_frame(d: Seq<u8>, e: Seq<u8>, held: Seq<u32>)
    requires
        held.len() == RMT_BUF_LEN,
        d.len() <= NUM_LEDS * BYTES_PER_LED,
        e.len() <= NUM_LEDS * BYTES_PER_LED,
        sk6812::frame_pulses(d, held) == sk6812::frame_pulses(e, held),
    ensures
        d == e,
{
    let x = sk6812::frame_pulses(d, held);
    let y = sk6812::frame_pulses(e, held);
    let end_d: int = 8 * d.len() as int + 128;
    let end_e: int = 8 * e.len() as int + 128;
    if d.len() < e.len() {
        assert(x[end_d] == y[end_d]);
        assert(false);
    }
    if e.len() < d.len() {
        assert(x[end_e] == y[end_e]);
        assert(false);
    }
    assert forall|n: int| 0 <= n < d.len() implies d[n] == e[n] by {
        assert forall|i: int| 0 <= i < 8 implies sk6812::bit(d[n], i) == sk6812::bit(e[n], i) by {
            let k = 8 * n + (7 - i);
            assert(x[k] == y[k]);
        }
        lemma_equal_bits(d[n], e[n]);
    }
    assert(d =~= e);
}

/// What lies behind the strip is not sent, and a full frame overwrites the whole buffer.
pub proof fn law_frame_is_cut_to_strip(d: Seq<u8>, held: Seq<u32>, other: Seq<u32>)
    requires
        held.len() == RMT_BUF_LEN,
        other.len() == RMT_BUF_LEN,
        d.len() >= NUM_LEDS * BYTES_PER_LED,
    ensures
        sk6812::frame_pulses(d, held) == sk6812::frame_pulses(
            d.take(NUM_LEDS * BYTES_PER_LED),
            other,
        ),
{
    assert(sk6812::frame_pulses(d, held) =~= sk6812::frame_pulses(
        d.take(NUM_LEDS * BYTES_PER_LED),
        other,
    ));
}

/// Every frame ends: behind its data, of at most 32 bytes, come 128 pulses of black guard LEDs, the
/// two pulses that end it and the end marker, within the buffer; what was behind them stays.
pub proof fn law_every_frame_ends(d: Seq<u8>, held: Seq<u32>)
    requires
        held.len() == 387,
    ensures
        ({
            let x = sk6812::frame_pulses(d, held);
            let start = 8 * if d.len() < 32 {
                d.len() as int
            } else {
                32
            };
            let end = start + 128;
            &&& x.len() == 387
            &&& end + 2 < 387
            &&& forall|k: int| start <= k < end ==> #[trigger] x[k] == 0x0048_8018
            &&& x[end] == 0x5DC0_5DC0
            &&& x[end + 1] == 0x5DC0_5DC0
            &&& x[end + 2] == 0
            &&& forall|k: int| end + 2 < k < 387 ==> #[trigger] x[k] == held[k]
        }),
{
}

/// The weight of the bit that pulse `x` stands for, if it is a 1.
pub open spec fn worth(x: u32, weight: int) -> int {
    if x == 0x0030_8030 {
        weight
    } else {
        0
    }
}

/// The eight pulses of each byte are those of a 1 or a 0, and spell the byte, the highest bit
/// first.
pub proof fn law_pulses_spell_the_bytes(d: Seq<u8>, held: Seq<u32>, n: int)
    requires
        held.len() == 387,
        0 <= n < d.len(),
        n < 32,
    ensures
        ({
            let x = sk6812::frame_pulses(d, held);
            &&& forall|k: int|
                8 * n <= k < 8 * n + 8 ==> #[trigger] x[k] == 0x0030_8030 || x[k] == 0x0048_8018
            &&& d[n] == worth(x[8 * n], 128) + worth(x[8 * n + 1], 64) + worth(x[8 * n + 2], 32)
                + worth(x[8 * n + 3], 16) + worth(x[8 * n + 4], 8) + worth(x[8 * n + 5], 4)
                + worth(x[8 * n + 6], 2) + worth(x[8 * n + 7], 1)
        }),
{
    let x = sk6812::frame_pulses(d, held);
    let b = d[n];
    assert(sk6812::bit_pulse(true) == 0x0030_8030);
    assert(sk6812::bit_pulse(false) == 0x0048_8018);
    assert forall|j: int| 0 <= j < 8 implies #[trigger] x[8 * n + j] == sk6812::bit_pulse(
        sk6812::bit(b, 7 - j),
    ) by {
        assert((8 * n + j) / 8 == n && (8 * n + j) % 8 == j);
    }
    assert forall|k: int| 8 * n <= k < 8 * n + 8 implies #[trigger] x[k] == 0x0030_8030 || x[k]
        == 0x0048_8018 by {
        assert(x[8 * n + (k - 8 * n)] == sk6812::bit_pulse(sk6812::bit(b, 7 - (k - 8 * n))));
    }
    assert(b == (if (b >> 7u8) & 1u8 == 1u8 { 128int } else { 0 }) + (if (b >> 6u8) & 1u8 == 1u8 {
        64int
    } else {
        0
    }) + (if (b >> 5u8) & 1u8 == 1u8 { 32int } else { 0 }) + (if (b >> 4u8) & 1u8 == 1u8 {
        16int
    } else {
        0
    }) + (if (b >> 3u8) & 1u8 == 1u8 { 8int } else { 0 }) + (if (b >> 2u8) & 1u8 == 1u8 {
        4int
    } else {
        0
    }) + (if (b >> 1u8) & 1u8 == 1u8 { 2int } else { 0 }) + (if (b >> 0u8) & 1u8 == 1u8 {
        1int
    } else {
        0
    })) by (bit_vector);
    assert(x[8 * n + 0] == sk6812::bit_pulse(sk6812::bit(b, 7)));
}

/// A pulse holds in each half, the first one in the low half, the ticks in 15 bits and the level
/// above them.
pub proof fn law_pulse_holds_its_phases(level1: Level, ticks1: int, level2: Level, ticks2: int)
    ensures
        ({
            let p = sk6812::pulse(level1, ticks1, level2, ticks2) as int;
            &&& p % 0x8000 == ticks1 % 0x8000
            &&& p / 0x8000 % 2 == 1 <==> level1 is High
            &&& p / 0x1_0000 % 0x8000 == ticks2 % 0x8000
            &&& p / 0x8000_0000 == 1 <==> level2 is High
        }),
{
}

} // verus!

use uavled::led::{BYTES_PER_LED, NUM_LEDS};
use uavled::sk6812::{
    encode_sk6812, pulse_code, Level, GUARD_LEDS, RESET_PULSES, RESET_TICKS, RMT_BUF_LEN, SK_T0H,
    SK_T0L, SK_T1H, SK_T1L,
};

const ONE: u32 = 0x0030_8030;
const ZERO: u32 = 0x0048_8018;
const RESET: u32 = 0x5DC0_5DC0;

fn decode(pulses: &[u32]) -> Vec<u8> {
    pulses
        .chunks(8)
        .take_while(|c| c.len() == 8 && c.iter().all(|p| *p == ONE || *p == ZERO))
        .map(|c| c.iter().fold(0, |b, p| b << 1 | (*p == ONE) as u8))
        .collect()
}

#[test]
fn buffer_length_follows_from_the_frame() {
    assert_eq!(RMT_BUF_LEN, (NUM_LEDS + GUARD_LEDS) * 32 + RESET_PULSES + 1);
}

#[test]
fn timing_matches_the_chip() {
    // 12.5 ns a tick
    assert_eq!([SK_T0H, SK_T0L, SK_T1H, SK_T1L].map(|t| t as u32 * 25 / 2), [300, 900, 600, 600]);
    assert!(RESET_PULSES as u32 * 2 * RESET_TICKS as u32 * 25 / 2 >= 80_000);
}

#[test]
fn pulse_codes_pack_two_phases() {
    assert_eq!(pulse_code(Level::High, 48, Level::Low, 48), ONE);
    assert_eq!(pulse_code(Level::High, 24, Level::Low, 72), ZERO);
    assert_eq!(pulse_code(Level::Low, 24000, Level::Low, 24000), RESET);
    assert_eq!(pulse_code(Level::High, 0xFFFF, Level::High, 0x8001), 0x8001_FFFF);
}

#[test]
fn full_frame_fills_the_buffer() {
    let data: Vec<u8> = (0..32u8).map(|i| i.wrapping_mul(37)).collect();
    let mut buf = [7u32; RMT_BUF_LEN];
    encode_sk6812(&data, &mut buf);
    let mut expected = data.clone();
    expected.extend_from_slice(&[0; 16]);
    assert_eq!(decode(&buf[..384]), expected);
    assert_eq!(&buf[384..], &[RESET, RESET, 0]);
}

#[test]
fn highest_bit_goes_first() {
    let mut buf = [0u32; RMT_BUF_LEN];
    encode_sk6812(&[0x81], &mut buf);
    assert_eq!(&buf[..8], &[ONE, ZERO, ZERO, ZERO, ZERO, ZERO, ZERO, ONE]);
}

#[test]
fn short_frame_ends_early_and_leaves_the_rest() {
    let mut buf = [7u32; RMT_BUF_LEN];
    encode_sk6812(&[0xFF], &mut buf);
    assert_eq!(&buf[..8], &[ONE; 8]);
    assert_eq!(&buf[8..136], &[ZERO; 128]);
    assert_eq!(&buf[136..139], &[RESET, RESET, 0]);
    assert!(buf[139..].iter().all(|p| *p == 7));
}

#[test]
fn empty_frame_is_guard_and_reset() {
    let mut buf = [7u32; RMT_BUF_LEN];
    encode_sk6812(&[], &mut buf);
    assert_eq!(&buf[..128], &[ZERO; 128]);
    assert_eq!(&buf[128..131], &[RESET, RESET, 0]);
    assert_eq!(buf[131], 7);
}

#[test]
fn bytes_behind_the_strip_are_not_sent() {
    let mut long = vec![0xA5u8; NUM_LEDS * BYTES_PER_LED];
    let mut a = [1u32; RMT_BUF_LEN];
    encode_sk6812(&long, &mut a);
    long.extend_from_slice(&[0xFF; 40]);
    let mut b = [2u32; RMT_BUF_LEN];
    encode_sk6812(&long, &mut b);
    assert_eq!(a, b);
}

//! PC speaker: a square wave from PIT channel 2, gated through port 0x61.

use vstd::prelude::*;

verus! {

pub const PIT_CMD: u16 = 0x43;
pub const PIT_CH2: u16 = 0x42;
pub const SPEAKER_PORT: u16 = 0x61;
pub const PIT_FREQUENCY: u32 = 1_193_182;
/// Channel 2, low byte then high byte, mode 3 (square wave), binary.
pub const PIT_MODE_SQUARE_CH2: u8 = 0xB6;
/// The beep: 880 Hz for 150 ms.
pub const BEEP_HZ: u32 = 880;
pub const BEEP_MS: u32 = 150;

/// The PIT divisor for a tone (kept to 16 bits as the counter is), or
/// `None` for 0 Hz, which plays nothing.
pub fn tone_divisor(frequency_hz: u32) -> (r: Option<u16>)
    ensures
        frequency_hz == 0 ==> r is None,
        frequency_hz != 0 ==> r == Some((PIT_FREQUENCY / frequency_hz) as u16),
{
    if frequency_hz == 0 {
        return None;
    }
    Some((PIT_FREQUENCY / frequency_hz) as u16)
}

/// The two bytes sent to channel 2: low, then high.
pub fn divisor_bytes(divisor: u16) -> (r: (u8, u8))
    ensures
        r == ((divisor & 0xFF) as u8, ((divisor >> 8u16) & 0xFF) as u8),
        r.0 + 256 * r.1 == divisor,
{
    assert((divisor & 0xFF) < 256 && ((divisor >> 8u16) & 0xFF) < 256) by (bit_vector);
    assert((divisor & 0xFF) + 256 * ((divisor >> 8u16) & 0xFF) == divisor) by (bit_vector);
    let lo = (divisor & 0xFF) as u8;
    let hi = ((divisor >> 8u16) & 0xFF) as u8;
    (lo, hi)
}

/// The port 0x61 value that switches the speaker on, when it is not on already.
pub fn speaker_on(prev: u8) -> (r: Option<u8>)
    ensures
        prev & 0x03 == 0x03 ==> r is None,
        prev & 0x03 != 0x03 ==> r == Some(prev | 0x03),
{
    if prev & 0x03 != 0x03 {
        Some(prev | 0x03)
    } else {
        None
    }
}

/// The port 0x61 value with the speaker off (bits 0 and 1 cleared).
pub fn speaker_off(prev: u8) -> (r: u8)
    ensures
        r == prev & !0x03u8,
        r & 0x03 == 0,
{
    assert((prev & !0x03u8) & 0x03 == 0) by (bit_vector);
    prev & !0x03u8
}

} // verus!

use vstd::prelude::*;
use vstd::arithmetic::div_mod::lemma_div_is_ordered;

verus! {

/// Amplitudes are in hundredths of a decibel.
/// The sink's minimum level: a raw level of zero is silence, not "very quiet".
pub const SILENCE_FLOOR: i32 = -10000;

/// The sink's unity level, reached at the top of the raw range.
pub const REFERENCE_LEVEL: i32 = 0;

/// The top of the device's raw level range.
pub const MAX_LEVEL: u8 = 255;

/// The quietest audible raw level lands at the device's floor of about -60 dB.
pub const AUDIBLE_FLOOR: i32 = -6000;

/// Raw levels above zero are spread linearly in decibels between the audible
/// floor and unity.
pub open spec fn amplitude_of(raw: u8) -> int {
    if raw == 0 {
        SILENCE_FLOOR as int
    } else {
        AUDIBLE_FLOOR + (6000 * raw) / 255
    }
}

pub fn to_amplitude(raw: u8) -> (r: i32)
    ensures
        r == amplitude_of(raw),
{
    if raw == 0 {
        SILENCE_FLOOR
    } else {
        let scaled: i32 = 6000 * (raw as i32);
        AUDIBLE_FLOOR + scaled / 255
    }
}

/// The curve never decreases; it starts at the silence floor and ends at
/// the reference level.
pub proof fn lemma_curve_monotonic(a: u8, b: u8)
    requires
        a <= b,
    ensures
        amplitude_of(a) <= amplitude_of(b),
        amplitude_of(0) == SILENCE_FLOOR,
        amplitude_of(MAX_LEVEL) == REFERENCE_LEVEL,
{
    if a > 0 {
        lemma_div_is_ordered(6000 * a, 6000 * b, 255);
    } else if b > 0 {
        lemma_div_is_ordered(0, 6000 * b, 255);
    }
}

} // verus!

//! Output volume.
//!
//! A volume level is an IEEE 754 single-precision number. It crosses this
//! crate's boundary as its 32-bit pattern, so that the rule applied to it
//! can be stated and proved over integers.

use vstd::prelude::*;

verus! {

/// The bit pattern of `0.0`.
pub const SILENT: u32 = 0;

/// The bit pattern of `1.0`.
pub const FULL: u32 = 0x3f80_0000;

/// The bit pattern of positive infinity. Every pattern whose magnitude
/// lies above it is a NaN.
pub const INFINITE: u32 = 0x7f80_0000;

/// The lowest pattern with the sign bit set, which is that of `-0.0`.
pub const SIGN: u32 = 0x8000_0000;

/// The pattern without its sign bit.
pub open spec fn magnitude(bits: u32) -> u32 {
    if bits >= SIGN {
        (bits - SIGN) as u32
    } else {
        bits
    }
}

/// Whether the pattern is that of a NaN.
pub open spec fn is_nan(bits: u32) -> bool {
    magnitude(bits) > INFINITE
}

/// Whether the pattern is that of a number less than zero. Negative zero
/// is not less than zero.
pub open spec fn below_zero(bits: u32) -> bool {
    bits > SIGN && !is_nan(bits)
}

/// Whether the pattern is that of a number greater than one.
pub open spec fn above_one(bits: u32) -> bool {
    FULL < bits <= INFINITE
}

/// Whether the pattern is that of a number from zero to one, both
/// included, and negative zero with them.
pub open spec fn in_unit_range(bits: u32) -> bool {
    bits <= FULL || bits == SIGN
}

/// The level that is applied for a requested one: zero for a request
/// below zero, one for a request above one, and the request itself
/// otherwise. A NaN is passed on as it is.
pub open spec fn clamped(bits: u32) -> u32 {
    if below_zero(bits) {
        SILENT
    } else if above_one(bits) {
        FULL
    } else {
        bits
    }
}

/// Clamps a requested volume level to the range from zero to one.
///
/// Takes and returns the bit pattern of a single-precision number. The
/// call always succeeds.
pub fn clamp_volume(bits: u32) -> (applied: u32)
    ensures
        applied == clamped(bits),
        !is_nan(bits) ==> in_unit_range(applied),
        in_unit_range(bits) ==> applied == bits,
{
    let sign_set = bits >= SIGN;
    let size = if sign_set {
        bits - SIGN
    } else {
        bits
    };
    if size > INFINITE {
        bits
    } else if sign_set && size != 0 {
        SILENT
    } else if !sign_set && size > FULL {
        FULL
    } else {
        bits
    }
}

/// Clamping a level a second time changes nothing.
pub proof fn lemma_clamp_is_idempotent(bits: u32)
    ensures
        clamped(clamped(bits)) == clamped(bits),
{
}

/// Whatever is requested, the level applied is a number from zero to one,
/// unless the request is no number at all.
pub proof fn lemma_clamp_range(bits: u32)
    ensures
        is_nan(bits) ==> clamped(bits) == bits,
        !is_nan(bits) ==> in_unit_range(clamped(bits)),
        below_zero(bits) ==> clamped(bits) == SILENT,
        above_one(bits) ==> clamped(bits) == FULL,
{
}

} // verus!

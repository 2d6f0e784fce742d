//! Reading and writing one character at a time, in UTF-8 and in UTF-16.
//!
//! These are the steps of every conversion in this crate. Each one is tied
//! to the encoding it implements: UTF-8 as `vstd::utf8` defines it, UTF-16
//! as [`crate::utf16`] does.

use crate::utf16::{
    encode_scalar_utf16, first_scalar, first_scalar_units, high_surrogate, low_surrogate,
    starts_with_scalar,
};
use vstd::prelude::*;
use vstd::utf8::*;

verus! {

/// How large a code point its UTF-8 bytes can spell, by the number of bytes.
proof fn lemma_codepoint_bounds(b0: u8, b1: u8, b2: u8)
    by (bit_vector)
    ensures
        codepoint_width_1(b0) <= 0x7F,
        codepoint_width_2(b0, b1) <= 0x7FF,
        codepoint_width_3(b0, b1, b2) <= 0xFFFF,
{
}

/// A well-formed first character of a byte sequence is a scalar value and
/// lies within the sequence.
proof fn lemma_first_scalar_is_scalar(bytes: Seq<u8>)
    requires
        valid_first_scalar(bytes),
    ensures
        is_scalar(decode_first_scalar(bytes)),
        length_of_first_scalar(bytes) <= bytes.len(),
{
    lemma_codepoint_bounds(bytes[0], bytes[1], bytes[2]);
}

/// Reads the character that starts at `at`.
///
/// Returns its scalar value and the number of bytes it takes.
pub(crate) fn read_utf8_scalar(bytes: &[u8], at: usize) -> (r: (u32, usize))
    requires
        at <= bytes@.len(),
        valid_first_scalar(bytes@.skip(at as int)),
    ensures
        r.0 == decode_first_scalar(bytes@.skip(at as int)),
        r.1 == length_of_first_scalar(bytes@.skip(at as int)),
        is_scalar(r.0),
        at + r.1 <= bytes@.len(),
{
    proof {
        lemma_first_scalar_is_scalar(bytes@.skip(at as int));
    }
    let b0 = bytes[at];
    if b0 < 0x80 {
        ((b0 & 0x7F) as u32, 1)
    } else if b0 < 0xE0 {
        let b1 = bytes[at + 1];
        ((((b0 & 0x1F) as u32) << 6) | ((b1 & 0x3F) as u32), 2)
    } else if b0 < 0xF0 {
        let b1 = bytes[at + 1];
        let b2 = bytes[at + 2];
        ((((b0 & 0x0F) as u32) << 12) | (((b1 & 0x3F) as u32) << 6) | ((b2 & 0x3F) as u32), 3)
    } else {
        let b1 = bytes[at + 1];
        let b2 = bytes[at + 2];
        let b3 = bytes[at + 3];
        (
            (((b0 & 0x07) as u32) << 18) | (((b1 & 0x3F) as u32) << 12) | (((b2 & 0x3F) as u32)
                << 6) | ((b3 & 0x3F) as u32),
            4,
        )
    }
}

/// Writes the UTF-8 bytes of `scalar` into `buffer` from `at` on.
///
/// Returns the number of bytes written. No other byte changes.
pub(crate) fn write_utf8_scalar(buffer: &mut [u8], at: usize, scalar: u32) -> (n: usize)
    requires
        is_scalar(scalar),
        at + encode_scalar(scalar).len() <= old(buffer)@.len(),
    ensures
        n == encode_scalar(scalar).len(),
        1 <= n <= 4,
        final(buffer)@.len() == old(buffer)@.len(),
        final(buffer)@.subrange(at as int, at + n) == encode_scalar(scalar),
        forall|i: int|
            0 <= i < old(buffer)@.len() && !(at <= i < at + n) ==> final(buffer)@[i] == old(
                buffer,
            )@[i],
{
    if scalar < 0x80 {
        buffer[at] = (scalar & 0x7F) as u8;
        1
    } else if scalar < 0x800 {
        buffer[at] = 0xC0 | ((scalar >> 6) & 0x1F) as u8;
        buffer[at + 1] = 0x80 | (scalar & 0x3F) as u8;
        2
    } else if scalar < 0x10000 {
        buffer[at] = 0xE0 | ((scalar >> 12) & 0x0F) as u8;
        buffer[at + 1] = 0x80 | ((scalar >> 6) & 0x3F) as u8;
        buffer[at + 2] = 0x80 | (scalar & 0x3F) as u8;
        3
    } else {
        buffer[at] = 0xF0 | ((scalar >> 18) & 0x7) as u8;
        buffer[at + 1] = 0x80 | ((scalar >> 12) & 0x3F) as u8;
        buffer[at + 2] = 0x80 | ((scalar >> 6) & 0x3F) as u8;
        buffer[at + 3] = 0x80 | (scalar & 0x3F) as u8;
        4
    }
}

/// Reads the character that starts at `at`.
///
/// Returns its scalar value and the number of code units it takes.
pub(crate) fn read_utf16_scalar(units: &[u16], at: usize) -> (r: (u32, usize))
    requires
        at <= units@.len(),
        starts_with_scalar(units@.skip(at as int)),
    ensures
        r.0 == first_scalar(units@.skip(at as int)),
        r.1 == first_scalar_units(units@.skip(at as int)),
        is_scalar(r.0),
        at + r.1 <= units@.len(),
{
    let u0 = units[at];
    if u0 < 0xD800 || u0 > 0xDFFF {
        (u0 as u32, 1)
    } else {
        let u1 = units[at + 1];
        (0x10000 + (u0 as u32 - 0xD800) * 0x400 + (u1 as u32 - 0xDC00), 2)
    }
}

/// Splits a scalar value of `0x10000` or more into its surrogate pair.
pub(crate) fn surrogate_pair(scalar: u32) -> (r: (u16, u16))
    requires
        0x10000 <= scalar <= 0x10FFFF,
    ensures
        r.0 == high_surrogate(scalar),
        r.1 == low_surrogate(scalar),
{
    let offset = scalar - 0x10000;
    ((0xD800 + offset / 0x400) as u16, (0xDC00 + offset % 0x400) as u16)
}

/// Appends the UTF-16 code units of `scalar`.
pub(crate) fn push_utf16_scalar(units: &mut Vec<u16>, scalar: u32)
    requires
        is_scalar(scalar),
    ensures
        final(units)@ == old(units)@ + encode_scalar_utf16(scalar),
{
    if scalar < 0x10000 {
        units.push(scalar as u16);
    } else {
        let (high, low) = surrogate_pair(scalar);
        units.push(high);
        units.push(low);
    }
}

} // verus!

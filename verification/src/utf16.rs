//! UTF-16 as a mathematical encoding of character sequences.
//!
//! A scalar value below `0x10000` is one code unit. A larger one is a
//! surrogate pair: a high surrogate that carries the upper ten bits of
//! `scalar - 0x10000`, then a low surrogate that carries the lower ten.

use vstd::prelude::*;
use vstd::utf8::*;

verus! {

/// First code unit of a surrogate pair.
pub open spec fn is_high_surrogate(unit: u16) -> bool {
    0xD800 <= unit <= 0xDBFF
}

/// Second code unit of a surrogate pair.
pub open spec fn is_low_surrogate(unit: u16) -> bool {
    0xDC00 <= unit <= 0xDFFF
}

/// A code unit that stands for no character by itself.
pub open spec fn is_surrogate(unit: u16) -> bool {
    0xD800 <= unit <= 0xDFFF
}

/// Number of code units that UTF-16 spends on `scalar`.
pub open spec fn unit_count(scalar: u32) -> nat {
    if scalar < 0x10000 {
        1
    } else {
        2
    }
}

/// High surrogate of a scalar value of `0x10000` or more.
pub open spec fn high_surrogate(scalar: u32) -> u16
    recommends
        0x10000 <= scalar <= 0x10FFFF,
{
    (0xD800 + (scalar - 0x10000) / 0x400) as u16
}

/// Low surrogate of a scalar value of `0x10000` or more.
pub open spec fn low_surrogate(scalar: u32) -> u16
    recommends
        0x10000 <= scalar <= 0x10FFFF,
{
    (0xDC00 + (scalar - 0x10000) % 0x400) as u16
}

/// Scalar value that a surrogate pair stands for.
pub open spec fn pair_scalar(high: u16, low: u16) -> u32
    recommends
        is_high_surrogate(high),
        is_low_surrogate(low),
{
    (0x10000 + (high - 0xD800) * 0x400 + (low - 0xDC00)) as u32
}

/// The code units of one scalar value.
pub open spec fn encode_scalar_utf16(scalar: u32) -> Seq<u16>
    recommends
        is_scalar(scalar),
{
    if scalar < 0x10000 {
        seq![scalar as u16]
    } else {
        seq![high_surrogate(scalar), low_surrogate(scalar)]
    }
}

/// The UTF-16 encoding of a character sequence.
pub open spec fn encode_utf16(chars: Seq<char>) -> Seq<u16>
    decreases chars.len(),
{
    if chars.len() == 0 {
        seq![]
    } else {
        encode_scalar_utf16(chars[0] as u32) + encode_utf16(chars.drop_first())
    }
}

/// Number of UTF-16 code units in a character sequence: one for each
/// character below `0x10000`, two for each other.
pub open spec fn utf16_len(chars: Seq<char>) -> nat
    decreases chars.len(),
{
    if chars.len() == 0 {
        0
    } else {
        unit_count(chars[0] as u32) + utf16_len(chars.drop_first())
    }
}

/// True when `units` starts with one whole character: a unit that is no
/// surrogate, or a high surrogate followed by a low one.
pub open spec fn starts_with_scalar(units: Seq<u16>) -> bool {
    ||| units.len() >= 1 && !is_surrogate(units[0])
    ||| units.len() >= 2 && is_high_surrogate(units[0]) && is_low_surrogate(units[1])
}

/// Number of code units of the first character of `units`.
pub open spec fn first_scalar_units(units: Seq<u16>) -> int
    recommends
        starts_with_scalar(units),
{
    if is_surrogate(units[0]) {
        2
    } else {
        1
    }
}

/// Scalar value of the first character of `units`.
pub open spec fn first_scalar(units: Seq<u16>) -> u32
    recommends
        starts_with_scalar(units),
{
    if is_surrogate(units[0]) {
        pair_scalar(units[0], units[1])
    } else {
        units[0] as u32
    }
}

/// True when `units` is well-formed UTF-16: every surrogate is half of a
/// pair in the right order.
pub open spec fn valid_utf16(units: Seq<u16>) -> bool
    decreases units.len(),
{
    units.len() != 0 ==> starts_with_scalar(units) && valid_utf16(
        units.skip(first_scalar_units(units)),
    )
}

/// The characters that well-formed UTF-16 stands for.
pub open spec fn decode_utf16(units: Seq<u16>) -> Seq<char>
    recommends
        valid_utf16(units),
    decreases units.len(),
    when valid_utf16(units)
{
    if units.len() == 0 {
        seq![]
    } else {
        seq![first_scalar(units) as char] + decode_utf16(units.skip(first_scalar_units(units)))
    }
}

/// What one encoded scalar value looks like at the head of a longer
/// sequence: it is a whole character, and it decodes to the scalar.
pub proof fn lemma_encoded_scalar_is_first(scalar: u32, rest: Seq<u16>)
    requires
        is_scalar(scalar),
    ensures
        starts_with_scalar(encode_scalar_utf16(scalar) + rest),
        first_scalar(encode_scalar_utf16(scalar) + rest) == scalar,
        first_scalar_units(encode_scalar_utf16(scalar) + rest) == unit_count(scalar),
        (encode_scalar_utf16(scalar) + rest).skip(unit_count(scalar) as int) == rest,
{
    let units = encode_scalar_utf16(scalar) + rest;
    if scalar < 0x10000 {
        assert(units[0] == scalar as u16);
    } else {
        assert(units[0] == high_surrogate(scalar));
        assert(units[1] == low_surrogate(scalar));
    }
    assert(units.skip(unit_count(scalar) as int) =~= rest);
}

/// Every encoding is well-formed, and decoding it gives the characters back.
pub proof fn lemma_decode_encode_utf16(chars: Seq<char>)
    ensures
        valid_utf16(encode_utf16(chars)),
        decode_utf16(encode_utf16(chars)) == chars,
        encode_utf16(chars).len() == utf16_len(chars),
    decreases chars.len(),
{
    if chars.len() != 0 {
        let scalar = chars[0] as u32;
        let rest = encode_utf16(chars.drop_first());
        char_is_scalar(chars[0]);
        char_u32_cast(chars[0], scalar);
        lemma_encoded_scalar_is_first(scalar, rest);
        lemma_decode_encode_utf16(chars.drop_first());
        assert(decode_utf16(encode_utf16(chars)) =~= chars);
    }
}

/// Encoding the characters of well-formed UTF-16 gives the code units back.
pub proof fn lemma_encode_decode_utf16(units: Seq<u16>)
    requires
        valid_utf16(units),
    ensures
        encode_utf16(decode_utf16(units)) == units,
    decreases units.len(),
{
    if units.len() != 0 {
        let scalar = first_scalar(units);
        let rest = units.skip(first_scalar_units(units));
        let chars = decode_utf16(units);
        lemma_encode_decode_utf16(rest);
        assert(chars.drop_first() =~= decode_utf16(rest));
        assert(encode_scalar_utf16(scalar) + rest =~= units);
    }
}

/// Encoding a sequence is encoding its first character, then the rest.
pub proof fn lemma_encode_utf16_first(first: char, rest: Seq<char>)
    ensures
        encode_utf16(seq![first] + rest) == encode_scalar_utf16(first as u32) + encode_utf16(rest),
{
    assert((seq![first] + rest).drop_first() =~= rest);
}

/// Well-formed UTF-16 takes at least one byte and at most three bytes of
/// UTF-8 for each code unit.
pub proof fn lemma_utf8_len_of_utf16(units: Seq<u16>)
    requires
        valid_utf16(units),
    ensures
        units.len() <= encode_utf8(decode_utf16(units)).len() <= 3 * units.len(),
    decreases units.len(),
{
    if units.len() != 0 {
        let scalar = first_scalar(units);
        let rest = units.skip(first_scalar_units(units));
        lemma_utf8_len_of_utf16(rest);
        assert(decode_utf16(units).drop_first() =~= decode_utf16(rest));
    }
}

} // verus!

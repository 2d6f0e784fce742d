//! What holds of every text and every handle.
//!
//! [`encode`] is what [`js_string_from_str`](crate::string::js_string_from_str)
//! and `JSString::from` give a handle as its code units, [`decode`] is what
//! [`JSString::to_string`] returns for them, and `eq_spec` is what `==`
//! computes. The laws below are stated over these and proved.

use crate::c_string::{
    before_nul, lemma_before_nul_of_plain, lemma_len_before_bounds, lemma_zero_byte_iff_nul,
};
use crate::string::{decode, encode, JSString};
use crate::utf16::{
    lemma_decode_encode_utf16, lemma_encode_decode_utf16, unit_count, utf16_len, valid_utf16,
};
use vstd::prelude::*;
use vstd::std_specs::cmp::PartialEqSpec;
use vstd::utf8::*;

verus! {

/// Encoding never fails and always gives well-formed UTF-16, and decoding
/// the result gives the text before the first NUL.
pub proof fn law_encode_then_decode(text: Seq<char>)
    ensures
        valid_utf16(encode(text)),
        decode(encode(text)) == before_nul(text),
{
    lemma_decode_encode_utf16(before_nul(text));
}

/// The way back: well-formed code units without a NUL, decoded and encoded
/// again, are the same code units. Every handle holds such code units.
pub proof fn law_decode_then_encode(units: Seq<u16>)
    requires
        valid_utf16(units),
        !decode(units).contains('\0'),
    ensures
        encode(decode(units)) == units,
{
    lemma_before_nul_of_plain(decode(units));
    lemma_encode_decode_utf16(units);
}

/// Round trip: a native string whose UTF-8 bytes hold no zero byte comes
/// back from a handle exactly as it went in.
pub proof fn law_round_trip(text: Seq<char>)
    requires
        !encode_utf8(text).contains(0u8),
    ensures
        decode(encode(text)) == text,
{
    lemma_zero_byte_iff_nul(text);
    lemma_before_nul_of_plain(text);
    lemma_decode_encode_utf16(text);
}

/// Length: the handle of a native string without a zero byte has as many
/// code units as the string's characters take in UTF-16. Neither the number
/// of characters nor the number of UTF-8 bytes is counted.
pub proof fn law_length(text: Seq<char>)
    requires
        !encode_utf8(text).contains(0u8),
    ensures
        encode(text).len() == utf16_len(text),
{
    lemma_zero_byte_iff_nul(text);
    lemma_before_nul_of_plain(text);
    lemma_decode_encode_utf16(text);
}

/// Length of any handle made from a native string: the UTF-16 length of
/// the text before the first NUL.
pub proof fn law_length_before_nul(text: Seq<char>)
    ensures
        encode(text).len() == utf16_len(before_nul(text)),
{
    lemma_decode_encode_utf16(before_nul(text));
}

/// Emptiness: the handle of a native string has no code unit exactly when
/// the string is empty or starts with a NUL.
pub proof fn law_empty(text: Seq<char>)
    ensures
        encode(text).len() == 0 <==> text.len() == 0 || text[0] == '\0',
{
    lemma_decode_encode_utf16(before_nul(text));
    lemma_len_before_bounds(text, '\0');
    if before_nul(text).len() != 0 {
        assert(utf16_len(before_nul(text)) >= unit_count(before_nul(text)[0] as u32));
    }
}

/// The handle made from a native string equals that string, whichever
/// side of `==` each stands on.
pub proof fn law_equals_own_source(handle: JSString, native: &str)
    requires
        handle@ == encode(native@),
    ensures
        handle.eq_spec(&native),
        (&native).eq_spec(&handle),
{
}

/// `==` between a handle and a native string does not depend on the side
/// each stands on, nor on whether the native string is borrowed or owned.
pub proof fn law_mixed_eq_symmetric(handle: JSString, borrowed: &str, owned: String)
    ensures
        handle.eq_spec(&borrowed) == (&borrowed).eq_spec(&handle),
        handle.eq_spec(&owned) == owned.eq_spec(&handle),
        borrowed@ == owned@ ==> handle.eq_spec(&borrowed) == handle.eq_spec(&owned),
{
}

/// `==` between handles is reflexive, symmetric and transitive.
pub proof fn law_handle_eq_is_equivalence(a: JSString, b: JSString, c: JSString)
    ensures
        a.eq_spec(&a),
        a.eq_spec(&b) == b.eq_spec(&a),
        a.eq_spec(&b) && b.eq_spec(&c) ==> a.eq_spec(&c),
{
}

/// Two handles that equal the same native string equal each other, and a
/// handle that equals another equals every native string the other equals.
pub proof fn law_eq_through_native(a: JSString, b: JSString, native: &str)
    ensures
        a.eq_spec(&native) && b.eq_spec(&native) ==> a.eq_spec(&b),
        a.eq_spec(&b) && b.eq_spec(&native) ==> a.eq_spec(&native),
{
}

/// Comparing code units is comparing decoded texts: well-formed code units
/// are those of a native string exactly when they decode to its text
/// before the first NUL, and two well-formed sequences of code units are
/// the same exactly when they decode to the same text.
pub proof fn law_eq_is_text_eq(units: Seq<u16>, other: Seq<u16>, text: Seq<char>)
    requires
        valid_utf16(units),
        valid_utf16(other),
    ensures
        (units == encode(text)) <==> (decode(units) == before_nul(text)),
        (units == other) <==> (decode(units) == decode(other)),
{
    lemma_decode_encode_utf16(before_nul(text));
    lemma_encode_decode_utf16(units);
    lemma_encode_decode_utf16(other);
}

/// Distinctness: native strings that differ before their first NUL have
/// different handles. Without a NUL in either, strings that differ have
/// different handles.
pub proof fn law_distinct(first: Seq<char>, second: Seq<char>)
    requires
        first != second,
        before_nul(first) != before_nul(second),
    ensures
        encode(first) != encode(second),
{
    lemma_decode_encode_utf16(before_nul(first));
    lemma_decode_encode_utf16(before_nul(second));
}

/// Handles of two native strings are the same exactly when the strings
/// agree before their first NUL.
pub proof fn law_same_handle(first: Seq<char>, second: Seq<char>)
    ensures
        (encode(first) == encode(second)) <==> (before_nul(first) == before_nul(second)),
{
    lemma_decode_encode_utf16(before_nul(first));
    lemma_decode_encode_utf16(before_nul(second));
}

} // verus!

//! NUL-terminated UTF-8 buffers, the form in which native text is handed to
//! a script engine.
//!
//! A C string ends at its first zero byte. Native text that holds a NUL
//! character is therefore cut there: the buffer made from it carries only
//! the characters before the first NUL. This is a known limit of the
//! format, and every contract in this crate states it through
//! [`before_nul`].

use vstd::prelude::*;
use vstd::utf8::*;

verus! {

/// Native strings of fewer bytes than this are copied into a buffer on the
/// stack. Decoding uses a stack buffer when this many bytes are enough.
pub const SMALL_STRING_SIZE: usize = 128;

/// Size of the stack buffer for a small string and its terminator.
pub const SMALL_BUFFER_SIZE: usize = SMALL_STRING_SIZE + 1;

/// Number of items of `s` before the first `stop`, or the length of `s`
/// when it holds no `stop`.
pub open spec fn len_before<T>(s: Seq<T>, stop: T) -> nat
    decreases s.len(),
{
    if s.len() == 0 || s[0] == stop {
        0
    } else {
        1 + len_before(s.drop_first(), stop)
    }
}

/// The characters of `chars` before its first NUL: the text that survives
/// the passage through a C string.
pub open spec fn before_nul(chars: Seq<char>) -> Seq<char> {
    chars.take(len_before(chars, '\0') as int)
}

/// True when `bytes` holds a terminator.
pub open spec fn is_c_string(bytes: Seq<u8>) -> bool {
    len_before(bytes, 0u8) < bytes.len()
}

/// The bytes of a C string before its terminator.
pub open spec fn c_string_content(bytes: Seq<u8>) -> Seq<u8> {
    bytes.take(len_before(bytes, 0u8) as int)
}

/// `len_before` is at most the length, no item before it is `stop`, and the
/// item at it, if there is one, is `stop`.
pub proof fn lemma_len_before_bounds<T>(s: Seq<T>, stop: T)
    ensures
        len_before(s, stop) <= s.len(),
        forall|i: int| 0 <= i < len_before(s, stop) ==> s[i] != stop,
        len_before(s, stop) < s.len() ==> s[len_before(s, stop) as int] == stop,
    decreases s.len(),
{
    if s.len() != 0 && s[0] != stop {
        let tail = s.drop_first();
        lemma_len_before_bounds(tail, stop);
        assert forall|i: int| 0 <= i < len_before(s, stop) implies s[i] != stop by {
            if i > 0 {
                assert(s[i] == tail[i - 1]);
            }
        }
        assert(len_before(tail, stop) < tail.len() ==> tail[len_before(tail, stop) as int]
            == s[len_before(s, stop) as int]);
    }
}

/// The first position that holds `stop`, with none before it, is
/// `len_before`.
pub proof fn lemma_len_before_is<T>(s: Seq<T>, stop: T, n: int)
    requires
        0 <= n <= s.len(),
        forall|i: int| 0 <= i < n ==> s[i] != stop,
        n < s.len() ==> s[n] == stop,
    ensures
        len_before(s, stop) == n,
{
    lemma_len_before_bounds(s, stop);
    let m = len_before(s, stop) as int;
    if m < n {
        assert(s[m] != stop);
    }
}

/// A string without a NUL passes through a C string whole.
pub proof fn lemma_before_nul_of_plain(chars: Seq<char>)
    requires
        !chars.contains('\0'),
    ensures
        before_nul(chars) == chars,
{
    assert forall|i: int| 0 <= i < chars.len() implies chars[i] != '\0' by {
        assert(chars.contains(chars[i]));
    }
    lemma_len_before_is(chars, '\0', chars.len() as int);
    assert(chars.take(chars.len() as int) =~= chars);
}

/// No byte of the UTF-8 encoding of a scalar value other than zero is zero.
proof fn lemma_scalar_bytes_nonzero(scalar: u32)
    by (bit_vector)
    requires
        scalar != 0,
    ensures
        has_width_1_encoding(scalar) ==> leading_byte_width_1(scalar) != 0,
        leading_byte_width_2(scalar) != 0,
        leading_byte_width_3(scalar) != 0,
        leading_byte_width_4(scalar) != 0,
        last_continuation_byte(scalar) != 0,
        second_last_continuation_byte(scalar) != 0,
        third_last_continuation_byte(scalar) != 0,
{
}

/// UTF-8 encoding goes through concatenation.
pub proof fn lemma_encode_utf8_concat(a: Seq<char>, b: Seq<char>)
    ensures
        encode_utf8(a + b) == encode_utf8(a) + encode_utf8(b),
    decreases a.len(),
{
    if a.len() == 0 {
        assert(a + b =~= b);
        assert(encode_utf8(a) + encode_utf8(b) =~= encode_utf8(b));
    } else {
        lemma_encode_utf8_concat(a.drop_first(), b);
        assert((a + b).drop_first() =~= a.drop_first() + b);
        assert(encode_utf8(a + b) =~= encode_utf8(a) + encode_utf8(b));
    }
}

/// The UTF-8 encoding of text without a NUL holds no zero byte.
pub proof fn lemma_encode_utf8_nonzero(chars: Seq<char>)
    requires
        forall|i: int| 0 <= i < chars.len() ==> chars[i] != '\0',
    ensures
        forall|i: int| 0 <= i < encode_utf8(chars).len() ==> encode_utf8(chars)[i] != 0,
    decreases chars.len(),
{
    if chars.len() != 0 {
        let scalar = chars[0] as u32;
        let head = encode_scalar(scalar);
        let tail = encode_utf8(chars.drop_first());
        char_is_scalar(chars[0]);
        assert(scalar != 0) by {
            char_u32_cast(chars[0], scalar);
            char_u32_cast('\0', 0u32);
        }
        lemma_scalar_bytes_nonzero(scalar);
        lemma_encode_utf8_nonzero(chars.drop_first());
        assert forall|i: int| 0 <= i < encode_utf8(chars).len() implies encode_utf8(chars)[i]
            != 0 by {
            if i < head.len() {
                assert(encode_utf8(chars)[i] == head[i]);
            } else {
                assert(encode_utf8(chars)[i] == tail[i - head.len()]);
            }
        }
    }
}

/// A buffer that starts with the UTF-8 encoding of `chars` and a zero byte
/// is a C string, and its content is the encoding of the text before the
/// first NUL of `chars`.
pub proof fn lemma_c_string_of_text(chars: Seq<char>, buffer: Seq<u8>)
    requires
        encode_utf8(chars).len() < buffer.len(),
        buffer.take(encode_utf8(chars).len() as int) == encode_utf8(chars),
        buffer[encode_utf8(chars).len() as int] == 0,
    ensures
        is_c_string(buffer),
        c_string_content(buffer) == encode_utf8(before_nul(chars)),
{
    let m = len_before(chars, '\0') as int;
    let text = chars.take(m);
    let rest = chars.skip(m);
    let all = encode_utf8(chars);
    let n = encode_utf8(text).len() as int;
    lemma_len_before_bounds(chars, '\0');
    assert(chars =~= text + rest);
    lemma_encode_utf8_concat(text, rest);
    lemma_encode_utf8_nonzero(text);
    assert forall|i: int| 0 <= i < all.len() implies buffer[i] == all[i] by {
        assert(buffer.take(all.len() as int)[i] == buffer[i]);
    }
    assert forall|i: int| 0 <= i < n implies buffer[i] != 0 by {
        assert(all[i] == encode_utf8(text)[i]);
    }
    if m < chars.len() {
        assert(rest[0] == '\0');
        assert(encode_scalar('\0' as u32)[0] == 0) by {
            assert(leading_byte_width_1(0u32) == 0) by (bit_vector);
        }
        assert(encode_utf8(rest)[0] == 0);
        assert(all[n] == encode_utf8(rest)[0]);
    } else {
        assert(rest =~= Seq::<char>::empty());
    }
    lemma_len_before_is(buffer, 0u8, n);
    assert(buffer.take(n) =~= encode_utf8(text));
}

/// The buffer that carries `chars` to the engine: the UTF-8 bytes and a
/// terminator, in a stack buffer padded with zeros when the text is small,
/// else in a heap buffer of exactly that size.
pub open spec fn c_buffer(chars: Seq<char>) -> Seq<u8> {
    let bytes = encode_utf8(chars);
    if bytes.len() < SMALL_STRING_SIZE {
        bytes + Seq::new((SMALL_BUFFER_SIZE - bytes.len()) as nat, |i: int| 0u8)
    } else {
        bytes.push(0u8)
    }
}

/// The buffer made for `chars` is a C string that carries `chars` up to its
/// first NUL.
pub proof fn lemma_c_buffer(chars: Seq<char>)
    ensures
        is_c_string(c_buffer(chars)),
        c_string_content(c_buffer(chars)) == encode_utf8(before_nul(chars)),
{
    let bytes = encode_utf8(chars);
    assert(c_buffer(chars).take(bytes.len() as int) =~= bytes);
    lemma_c_string_of_text(chars, c_buffer(chars));
}

/// The UTF-8 encoding of a text holds a zero byte exactly when the text
/// holds a NUL.
pub proof fn lemma_zero_byte_iff_nul(chars: Seq<char>)
    ensures
        encode_utf8(chars).contains(0u8) <==> chars.contains('\0'),
{
    let bytes = encode_utf8(chars);
    if chars.contains('\0') {
        let k = choose|k: int| 0 <= k < chars.len() && chars[k] == '\0';
        let head = chars.take(k);
        let tail = chars.skip(k);
        assert(chars =~= head + tail);
        lemma_encode_utf8_concat(head, tail);
        assert(encode_scalar('\0' as u32)[0] == 0) by {
            assert(leading_byte_width_1(0u32) == 0) by (bit_vector);
        }
        assert(encode_utf8(tail)[0] == 0);
        assert(bytes[encode_utf8(head).len() as int] == 0);
    } else {
        lemma_encode_utf8_nonzero(chars);
    }
}

} // verus!

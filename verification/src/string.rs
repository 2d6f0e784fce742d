//! The string handle and its conversions to and from native strings.

use crate::buffers::{CStringBuffer, DecodeBuffer};
use crate::c_string::{
    before_nul, c_string_content, is_c_string, lemma_before_nul_of_plain,
    lemma_len_before_bounds, lemma_zero_byte_iff_nul, len_before,
};
use crate::transcode::{
    push_utf16_scalar, read_utf16_scalar, read_utf8_scalar, surrogate_pair, write_utf8_scalar,
};
use crate::utf16::{
    decode_utf16, encode_utf16, lemma_decode_encode_utf16, lemma_encode_decode_utf16,
    lemma_encode_utf16_first, lemma_utf8_len_of_utf16, valid_utf16,
};
use vstd::prelude::*;
use vstd::string::StringExecFns;
use vstd::utf8::*;

verus! {

/// The code units of the handle that is made from the native text `text`:
/// the UTF-16 encoding of the characters before its first NUL.
pub open spec fn encode(text: Seq<char>) -> Seq<u16> {
    encode_utf16(before_nul(text))
}

/// The native text that a handle with the code units `units` decodes to.
pub open spec fn decode(units: Seq<u16>) -> Seq<char> {
    decode_utf16(units)
}

/// Number of bytes that are always enough for the UTF-8 form, terminator
/// included, of a text of `units` code units: three for each code unit and
/// one more, or the largest size there is when that cannot be counted.
pub open spec fn max_utf8_size(units: nat) -> nat {
    if 3 * units + 1 <= usize::MAX {
        3 * units + 1
    } else {
        usize::MAX as nat
    }
}

/// A string as a script engine holds it: a sequence of UTF-16 code units.
///
/// A value owns its text alone. It is moved, never duplicated: a second
/// handle with the same text is made by encoding the decoded text again.
#[derive(Debug)]
pub struct JSString {
    units: Vec<u16>,
}

impl View for JSString {
    type V = Seq<u16>;

    /// The UTF-16 code units of the text.
    closed spec fn view(&self) -> Seq<u16> {
        self.units@
    }
}

impl JSString {
    /// Every handle holds well-formed UTF-16 without a NUL, and its UTF-8
    /// form with a terminator fits in a buffer.
    #[verifier::type_invariant]
    spec fn well_formed(&self) -> bool {
        &&& valid_utf16(self.units@)
        &&& !decode_utf16(self.units@).contains('\0')
        &&& encode_utf8(decode_utf16(self.units@)).len() < usize::MAX
    }

    /// Makes a handle from a NUL-terminated UTF-8 buffer. The text ends at
    /// the first zero byte.
    fn from_utf8_c_string(buffer: &[u8]) -> (r: JSString)
        requires
            is_c_string(buffer@),
            valid_utf8(c_string_content(buffer@)),
        ensures
            r@ == encode_utf16(decode_utf8(c_string_content(buffer@))),
    {
        let ghost n = len_before(buffer@, 0u8) as int;
        let ghost content = c_string_content(buffer@);
        let ghost target = encode_utf16(decode_utf8(content));
        proof {
            lemma_len_before_bounds(buffer@, 0u8);
            assert(content.subrange(0, n) =~= content);
        }
        let mut units: Vec<u16> = Vec::new();
        let mut i: usize = 0;
        // `units` holds the characters of the first `i` bytes. What the
        // bytes from `i` to the terminator encode is still to come.
        while buffer[i] != 0
            invariant
                n == len_before(buffer@, 0u8),
                n < buffer@.len(),
                buffer@[n] == 0,
                content == buffer@.take(n),
                target == encode_utf16(decode_utf8(content)),
                0 <= i <= n,
                valid_utf8(content.subrange(i as int, n)),
                units@ + encode_utf16(decode_utf8(content.subrange(i as int, n))) == target,
            decreases n - i,
        {
            let ghost rest = content.subrange(i as int, n);
            let (scalar, width) = read_utf8_scalar(buffer, i);
            push_utf16_scalar(&mut units, scalar);
            proof {
                let next = pop_first_scalar(rest);
                assert(next =~= content.subrange(i + width, n));
                lemma_encode_utf16_first(scalar as char, decode_utf8(next));
            }
            i += width;
        }
        proof {
            lemma_decode_encode_utf16(decode_utf8(content));
            decode_utf8_encode_utf8(content);
            lemma_zero_byte_iff_nul(decode_utf8(content));
        }
        JSString { units }
    }

    /// A number of bytes that is sure to hold the UTF-8 form of the text
    /// and its terminator: three bytes for each code unit and one more.
    pub fn max_utf8_c_string_size(&self) -> (n: usize)
        ensures
            n == max_utf8_size(self@.len()),
            n > encode_utf8(decode(self@)).len(),
    {
        proof {
            use_type_invariant(self);
            lemma_utf8_len_of_utf16(self.units@);
        }
        let len = self.units.len();
        if len <= (usize::MAX - 1) / 3 {
            3 * len + 1
        } else {
            usize::MAX
        }
    }

    /// Fills `buffer` with the UTF-8 form of the text and a terminator.
    ///
    /// Returns the number of bytes filled in, terminator included. The
    /// bytes behind them stay as they were.
    fn write_utf8_c_string(&self, buffer: &mut [u8]) -> (written: usize)
        requires
            old(buffer)@.len() > encode_utf8(decode(self@)).len(),
        ensures
            written == encode_utf8(decode(self@)).len() + 1,
            final(buffer)@.len() == old(buffer)@.len(),
            final(buffer)@.take(written - 1) == encode_utf8(decode(self@)),
            final(buffer)@[written - 1] == 0,
            forall|i: int|
                written <= i < old(buffer)@.len() ==> final(buffer)@[i] == old(buffer)@[i],
    {
        proof {
            use_type_invariant(self);
        }
        let ghost all = self.units@;
        let ghost target = encode_utf8(decode_utf16(all));
        let n = self.units.len();
        let mut j: usize = 0;
        let mut k: usize = 0;
        proof {
            assert(all.skip(0) =~= all);
        }
        // The first `k` bytes hold the characters of the first `j` code
        // units. The rest of the text still fits behind them.
        while j < n
            invariant
                all == self.units@,
                n == all.len(),
                valid_utf16(all),
                target == encode_utf8(decode_utf16(all)),
                0 <= j <= n,
                valid_utf16(all.skip(j as int)),
                buffer@.len() == old(buffer)@.len(),
                target.len() < buffer@.len(),
                target.len() < usize::MAX,
                buffer@.take(k as int) + encode_utf8(decode_utf16(all.skip(j as int))) == target,
                k + encode_utf8(decode_utf16(all.skip(j as int))).len() == target.len(),
                forall|i: int| k <= i < buffer@.len() ==> buffer@[i] == old(buffer)@[i],
            decreases n - j,
        {
            let ghost rest = all.skip(j as int);
            let (scalar, width) = read_utf16_scalar(self.units.as_slice(), j);
            let ghost next = rest.skip(width as int);
            proof {
                assert(next =~= all.skip(j + width));
                assert(decode_utf16(rest).drop_first() =~= decode_utf16(next));
            }
            let w = write_utf8_scalar(buffer, k, scalar);
            k += w;
            j += width;
        }
        buffer[k] = 0;
        k + 1
    }

    /// Compares the text with that of a NUL-terminated UTF-8 buffer, one
    /// character at a time and without building a second handle.
    fn equals_utf8_c_string(&self, buffer: &[u8]) -> (r: bool)
        requires
            is_c_string(buffer@),
            valid_utf8(c_string_content(buffer@)),
        ensures
            r == (self@ == encode_utf16(decode_utf8(c_string_content(buffer@)))),
    {
        let ghost n = len_before(buffer@, 0u8) as int;
        let ghost content = c_string_content(buffer@);
        let ghost target = encode_utf16(decode_utf8(content));
        proof {
            lemma_len_before_bounds(buffer@, 0u8);
            assert(content.subrange(0, n) =~= content);
        }
        let len = self.units.len();
        let mut i: usize = 0;
        let mut j: usize = 0;
        // The first `j` code units are those of the first `i` bytes. The
        // texts are equal if the code units from `j` on are those of the
        // bytes from `i` to the terminator.
        while buffer[i] != 0
            invariant
                n == len_before(buffer@, 0u8),
                n < buffer@.len(),
                buffer@[n] == 0,
                content == buffer@.take(n),
                target == encode_utf16(decode_utf8(content)),
                len == self.units@.len(),
                0 <= i <= n,
                0 <= j <= len,
                valid_utf8(content.subrange(i as int, n)),
                self.units@.take(j as int) + encode_utf16(
                    decode_utf8(content.subrange(i as int, n)),
                ) == target,
            decreases n - i,
        {
            let ghost rest = content.subrange(i as int, n);
            let (scalar, width) = read_utf8_scalar(buffer, i);
            let ghost next = pop_first_scalar(rest);
            proof {
                assert(next =~= content.subrange(i + width, n));
                lemma_encode_utf16_first(scalar as char, decode_utf8(next));
            }
            if scalar < 0x10000 {
                if j >= len || self.units[j] != scalar as u16 {
                    return false;
                }
                j += 1;
            } else {
                let (high, low) = surrogate_pair(scalar);
                if len - j < 2 || self.units[j] != high || self.units[j + 1] != low {
                    return false;
                }
                j += 2;
            }
            i += width;
        }
        proof {
            if j == len {
                assert(self.units@.take(j as int) =~= self.units@);
            }
        }
        j == len
    }

    /// Compares the code units of two handles.
    pub(crate) fn equals(&self, other: &JSString) -> (r: bool)
        ensures
            r == (self@ == other@),
    {
        let n = self.units.len();
        if n != other.units.len() {
            return false;
        }
        let mut i: usize = 0;
        while i < n
            invariant
                n == self.units@.len() == other.units@.len(),
                0 <= i <= n,
                forall|k: int| 0 <= k < i ==> self.units@[k] == other.units@[k],
            decreases n - i,
        {
            if self.units[i] != other.units[i] {
                return false;
            }
            i += 1;
        }
        assert(self.units@ =~= other.units@);
        true
    }

    /// Number of UTF-16 code units of the text. This is neither the number
    /// of characters nor the number of UTF-8 bytes.
    pub fn len(&self) -> (n: usize)
        ensures
            n == self@.len(),
    {
        self.units.len()
    }

    /// The UTF-16 code units of the text. They are well-formed: every
    /// surrogate is half of a pair.
    pub fn as_code_units(&self) -> (r: &[u16])
        ensures
            r@ == self@,
            valid_utf16(self@),
    {
        proof {
            use_type_invariant(self);
        }
        self.units.as_slice()
    }

    /// True when the text has no code unit.
    pub fn is_empty(&self) -> (b: bool)
        ensures
            b == (self@.len() == 0),
    {
        self.len() == 0
    }

    /// Decodes the text into a native string.
    ///
    /// The UTF-8 form is written into a stack buffer when 128 bytes are
    /// sure to hold it, else into a heap buffer.
    ///
    /// Encoding the result again gives a handle with the same code units:
    /// this is how a handle is duplicated.
    pub fn to_string(&self) -> (r: String)
        ensures
            valid_utf16(self@),
            r@ == decode(self@),
            encode(r@) == self@,
    {
        let max_size = self.max_utf8_c_string_size();
        let mut buffer = DecodeBuffer::with_bound(max_size);
        let written = self.write_utf8_c_string(buffer.as_mut_bytes());
        proof {
            use_type_invariant(self);
            encode_utf8_valid_utf8(decode(self@));
            encode_utf8_decode_utf8(decode(self@));
            lemma_before_nul_of_plain(decode(self@));
            lemma_encode_decode_utf16(self@);
        }
        buffer.into_string(written).unwrap()
    }

    /// The text in quotes behind the type's name, for diagnostics.
    pub fn to_debug_string(&self) -> (r: String)
        ensures
            r@ == debug_text(decode(self@)),
    {
        debug_rendering(self.to_string().as_str())
    }
}

/// The rendering of a handle with the text `text` for diagnostics.
pub open spec fn debug_text(text: Seq<char>) -> Seq<char> {
    "JSString { \""@ + text + "\" }"@
}

/// Puts `text` in quotes behind the type's name.
pub fn debug_rendering(text: &str) -> (r: String)
    ensures
        r@ == debug_text(text@),
{
    let mut out = "JSString { \"".to_owned();
    out.append(text);
    out.append("\" }");
    out
}

/// Makes the handle for a native string.
///
/// The text is handed over as a C string, so it ends at the first NUL of
/// `s`. A string of fewer than 128 bytes takes no heap buffer on the way.
pub fn js_string_from_str(s: &str) -> (r: JSString)
    ensures
        r@ == encode(s@),
        valid_utf16(r@),
        decode(r@) == before_nul(s@),
{
    let buffer = CStringBuffer::new(s);
    proof {
        encode_utf8_valid_utf8(before_nul(s@));
        encode_utf8_decode_utf8(before_nul(s@));
        lemma_decode_encode_utf16(before_nul(s@));
    }
    JSString::from_utf8_c_string(buffer.as_bytes())
}

/// Compares a handle with a native string.
///
/// The native string is handed over as a C string, as in
/// [`js_string_from_str`], and compared with the handle's text in place:
/// nothing is decoded, and no second handle is made.
pub fn js_string_equals_str(js_string: &JSString, rust_str: &str) -> (r: bool)
    ensures
        r == (js_string@ == encode(rust_str@)),
        r == (decode(js_string@) == before_nul(rust_str@)),
{
    let buffer = CStringBuffer::new(rust_str);
    proof {
        use_type_invariant(js_string);
        encode_utf8_valid_utf8(before_nul(rust_str@));
        encode_utf8_decode_utf8(before_nul(rust_str@));
        lemma_decode_encode_utf16(before_nul(rust_str@));
        lemma_encode_decode_utf16(js_string@);
    }
    js_string.equals_utf8_c_string(buffer.as_bytes())
}

} // verus!

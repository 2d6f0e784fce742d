//! The two buffers of the bridge, each with a stack form for small text and
//! a heap form for the rest.
//!
//! [`CStringBuffer`] carries native text towards the engine as a C string.
//! [`DecodeBuffer`] receives the UTF-8 form of a handle's text and turns it
//! into a native string.

use crate::c_string::{
    before_nul, c_buffer, c_string_content, is_c_string, lemma_c_buffer, SMALL_BUFFER_SIZE,
    SMALL_STRING_SIZE,
};
use vstd::prelude::*;
use vstd::slice::slice_subrange;
use vstd::utf8::*;

verus! {

enum CStorage {
    Stack([u8; SMALL_BUFFER_SIZE]),
    Heap(Vec<u8>),
}

/// A NUL-terminated copy of a native string, ready to be read as a C
/// string. Small strings live in the value itself, without a heap
/// allocation.
pub struct CStringBuffer {
    storage: CStorage,
}

impl View for CStringBuffer {
    type V = Seq<u8>;

    /// All bytes of the buffer, terminator and padding included.
    closed spec fn view(&self) -> Seq<u8> {
        match self.storage {
            CStorage::Stack(bytes) => bytes@,
            CStorage::Heap(bytes) => bytes@,
        }
    }
}

impl CStringBuffer {
    /// True when the bytes are held in the value itself.
    pub closed spec fn on_stack(&self) -> bool {
        self.storage is Stack
    }

    /// Copies `s` and appends the terminator. A string of fewer than
    /// [`SMALL_STRING_SIZE`] bytes goes into the stack buffer.
    pub fn new(s: &str) -> (r: CStringBuffer)
        ensures
            r@ == c_buffer(s@),
            r.on_stack() == (encode_utf8(s@).len() < SMALL_STRING_SIZE),
            is_c_string(r@),
            c_string_content(r@) == encode_utf8(before_nul(s@)),
    {
        let bytes = s.as_bytes();
        let n = bytes.len();
        proof {
            lemma_c_buffer(s@);
        }
        if n < SMALL_STRING_SIZE {
            let mut buffer = [0u8; SMALL_BUFFER_SIZE];
            let mut i: usize = 0;
            while i < n
                invariant
                    i <= n == bytes@.len() < SMALL_STRING_SIZE,
                    forall|k: int| 0 <= k < i ==> buffer@[k] == bytes@[k],
                    forall|k: int| i <= k < SMALL_BUFFER_SIZE ==> buffer@[k] == 0,
                decreases n - i,
            {
                buffer[i] = bytes[i];
                i += 1;
            }
            buffer[n] = 0;
            CStringBuffer { storage: CStorage::Stack(buffer) }
        } else {
            let mut buffer: Vec<u8> = Vec::with_capacity(n.saturating_add(1));
            buffer.extend_from_slice(bytes);
            buffer.push(0);
            CStringBuffer { storage: CStorage::Heap(buffer) }
        }
    }

    /// The whole buffer.
    pub fn as_bytes(&self) -> (r: &[u8])
        ensures
            r@ == self@,
    {
        match &self.storage {
            CStorage::Stack(bytes) => bytes.as_slice(),
            CStorage::Heap(bytes) => bytes.as_slice(),
        }
    }
}

enum DecodeStorage {
    Stack([u8; SMALL_STRING_SIZE]),
    Heap(Vec<u8>),
}

/// Room for the UTF-8 form of a handle's text and its terminator.
pub struct DecodeBuffer {
    storage: DecodeStorage,
}

impl View for DecodeBuffer {
    type V = Seq<u8>;

    /// All bytes of the buffer.
    closed spec fn view(&self) -> Seq<u8> {
        match self.storage {
            DecodeStorage::Stack(bytes) => bytes@,
            DecodeStorage::Heap(bytes) => bytes@,
        }
    }
}

impl DecodeBuffer {
    /// True when the bytes are held in the value itself.
    pub closed spec fn on_stack(&self) -> bool {
        self.storage is Stack
    }

    /// Makes a zeroed buffer for at most `max_size` bytes: the stack buffer
    /// of [`SMALL_STRING_SIZE`] bytes when that is enough, else a heap
    /// buffer of exactly `max_size` bytes.
    pub fn with_bound(max_size: usize) -> (r: DecodeBuffer)
        ensures
            r.on_stack() == (max_size <= SMALL_STRING_SIZE),
            r@.len() == (if max_size <= SMALL_STRING_SIZE {
                SMALL_STRING_SIZE
            } else {
                max_size
            }),
            forall|i: int| 0 <= i < r@.len() ==> r@[i] == 0,
    {
        if max_size <= SMALL_STRING_SIZE {
            DecodeBuffer { storage: DecodeStorage::Stack([0u8; SMALL_STRING_SIZE]) }
        } else {
            DecodeBuffer { storage: DecodeStorage::Heap(vec![0u8; max_size]) }
        }
    }

    /// The whole buffer, to be filled.
    pub fn as_mut_bytes(&mut self) -> (r: &mut [u8])
        ensures
            r@ == old(self)@,
            final(self)@ == final(r)@,
            final(self).on_stack() == old(self).on_stack(),
    {
        match &mut self.storage {
            DecodeStorage::Stack(bytes) => bytes,
            DecodeStorage::Heap(bytes) => bytes.as_mut_slice(),
        }
    }

    /// Turns a filled buffer into a native string.
    ///
    /// `written` is the number of bytes that were filled in, terminator
    /// included. The last of them is dropped unread, and the bytes before
    /// it are checked and become the string, which is one byte shorter than
    /// `written`. The result is `None` when `written` is zero or more than
    /// the buffer holds, and when those bytes are not well-formed UTF-8.
    pub fn into_string(self, written: usize) -> (r: Option<String>)
        ensures
            r is Some <==> 1 <= written <= self@.len() && valid_utf8(self@.take(written - 1)),
            r matches Some(s) ==> encode_utf8(s@) == self@.take(written - 1),
            r matches Some(s) ==> s@ == decode_utf8(self@.take(written - 1)),
    {
        if written == 0 {
            return None;
        }
        let len = written - 1;
        match self.storage {
            DecodeStorage::Stack(bytes) => {
                if written > SMALL_STRING_SIZE {
                    return None;
                }
                match std::str::from_utf8(slice_subrange(bytes.as_slice(), 0, len)) {
                    Ok(s) => {
                        proof {
                            encode_utf8_decode_utf8(s@);
                        }
                        Some(s.to_owned())
                    },
                    Err(_) => None,
                }
            },
            DecodeStorage::Heap(mut bytes) => {
                if written > bytes.len() {
                    return None;
                }
                bytes.truncate(len);
                match String::from_utf8(bytes) {
                    Ok(s) => {
                        proof {
                            encode_utf8_decode_utf8(s@);
                        }
                        Some(s)
                    },
                    Err(_) => None,
                }
            },
        }
    }
}

} // verus!

//! What this crate takes from the standard library without proof.
//!
//! Turning checked bytes into a string is the one step that is left to
//! `std`. Its two functions for that are given the contracts below, which
//! say what their documentation says, over UTF-8 as `vstd::utf8` defines
//! it.

use vstd::prelude::*;
use vstd::utf8::*;

verus! {

/// The error of `std::str::from_utf8`. Nothing is read from it.
#[verifier::external_type_specification]
#[verifier::external_body]
pub struct ExUtf8Error(std::str::Utf8Error);

/// The error of `String::from_utf8`. Nothing is read from it.
#[verifier::external_type_specification]
#[verifier::external_body]
pub struct ExFromUtf8Error(std::string::FromUtf8Error);

/// `std::str::from_utf8` is taken at its word: it succeeds exactly on
/// well-formed UTF-8, and the string slice it returns is made of the bytes
/// it was given.
pub assume_specification[ std::str::from_utf8 ](v: &[u8]) -> (r: Result<
    &str,
    std::str::Utf8Error,
>)
    ensures
        r is Ok <==> valid_utf8(v@),
        r matches Ok(s) ==> encode_utf8(s@) == v@,
;

/// `String::from_utf8` is taken at its word: it succeeds exactly on
/// well-formed UTF-8, and the string it returns is made of the bytes it
/// was given.
pub assume_specification[ String::from_utf8 ](vec: Vec<u8>) -> (r: Result<
    String,
    std::string::FromUtf8Error,
>)
    ensures
        r is Ok <==> valid_utf8(vec@),
        r matches Ok(s) ==> encode_utf8(s@) == vec@,
;

} // verus!

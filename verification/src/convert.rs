//! `From` between native strings and handles.
//!
//! Two handles with the same code units are equal under `==`, yet they are
//! two values. So what a conversion returns is stated on `from` itself,
//! over the view of the result, and not as one value that `from_spec` names.

use crate::string::{decode, encode, js_string_from_str, JSString};
use vstd::prelude::*;
use vstd::std_specs::convert::FromSpecImpl;

verus! {

impl<'s> From<&'s str> for JSString {
    /// Encodes a native string: see [`js_string_from_str`].
    fn from(s: &'s str) -> (r: JSString)
        ensures
            r@ == encode(s@),
    {
        js_string_from_str(s)
    }
}

impl<'s> FromSpecImpl<&'s str> for JSString {
    open spec fn obeys_from_spec() -> bool {
        false
    }

    open spec fn from_spec(s: &'s str) -> JSString {
        arbitrary()
    }
}

impl From<String> for JSString {
    /// Encodes a native string: see [`js_string_from_str`].
    fn from(s: String) -> (r: JSString)
        ensures
            r@ == encode(s@),
    {
        js_string_from_str(s.as_str())
    }
}

impl FromSpecImpl<String> for JSString {
    open spec fn obeys_from_spec() -> bool {
        false
    }

    open spec fn from_spec(s: String) -> JSString {
        arbitrary()
    }
}

impl<'s> From<&'s JSString> for String {
    /// Decodes a handle: see [`JSString::to_string`].
    fn from(s: &'s JSString) -> (r: String)
        ensures
            r@ == decode(s@),
    {
        s.to_string()
    }
}

impl<'s> FromSpecImpl<&'s JSString> for String {
    open spec fn obeys_from_spec() -> bool {
        false
    }

    open spec fn from_spec(s: &'s JSString) -> String {
        arbitrary()
    }
}

} // verus!

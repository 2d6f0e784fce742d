//! `==` between handles, and between a handle and a native string in either
//! order.

use crate::string::{encode, js_string_equals_str, JSString};
use vstd::prelude::*;
use vstd::std_specs::cmp::PartialEqSpecImpl;

verus! {

impl PartialEq for JSString {
    fn eq(&self, other: &JSString) -> (r: bool) {
        self.equals(other)
    }
}

impl PartialEqSpecImpl for JSString {
    open spec fn obeys_eq_spec() -> bool {
        true
    }

    /// Two handles are equal when they hold the same code units.
    open spec fn eq_spec(&self, other: &JSString) -> bool {
        self@ == other@
    }
}

impl<'s> PartialEq<&'s str> for JSString {
    fn eq(&self, other: &&'s str) -> (r: bool) {
        js_string_equals_str(self, other)
    }
}

impl<'s> PartialEqSpecImpl<&'s str> for JSString {
    open spec fn obeys_eq_spec() -> bool {
        true
    }

    /// A handle equals a native string when it holds the code units that
    /// the string encodes to.
    open spec fn eq_spec(&self, other: &&'s str) -> bool {
        self@ == encode(other@)
    }
}

impl PartialEq<String> for JSString {
    fn eq(&self, other: &String) -> (r: bool) {
        js_string_equals_str(self, other.as_str())
    }
}

impl PartialEqSpecImpl<String> for JSString {
    open spec fn obeys_eq_spec() -> bool {
        true
    }

    /// A handle equals a native string when it holds the code units that
    /// the string encodes to.
    open spec fn eq_spec(&self, other: &String) -> bool {
        self@ == encode(other@)
    }
}

impl<'s> PartialEq<JSString> for &'s str {
    fn eq(&self, other: &JSString) -> (r: bool) {
        js_string_equals_str(other, self)
    }
}

impl<'s> PartialEqSpecImpl<JSString> for &'s str {
    open spec fn obeys_eq_spec() -> bool {
        true
    }

    /// A native string equals a handle when the handle equals the string.
    open spec fn eq_spec(&self, other: &JSString) -> bool {
        other@ == encode(self@)
    }
}

impl PartialEq<JSString> for String {
    fn eq(&self, other: &JSString) -> (r: bool) {
        js_string_equals_str(other, self.as_str())
    }
}

impl PartialEqSpecImpl<JSString> for String {
    open spec fn obeys_eq_spec() -> bool {
        true
    }

    /// A native string equals a handle when the handle equals the string.
    open spec fn eq_spec(&self, other: &JSString) -> bool {
        other@ == encode(self@)
    }
}

} // verus!

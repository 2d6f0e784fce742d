//! A script-engine string held as UTF-16 code units, and the bridge between
//! it and native UTF-8 strings.
//!
//! Script engines count text in UTF-16 code units and take native text as
//! NUL-terminated UTF-8 buffers. [`JSString`] is such a string. It is made
//! from a native string, decoded back into one, measured in code units, and
//! compared with other handles and with native strings. Every conversion is
//! proved to keep the Unicode text exactly.

pub mod buffers;
pub mod c_string;
pub mod convert;
pub mod equality;
pub mod laws;
pub mod string;
mod transcode;
pub mod trusted;
pub mod utf16;

pub use buffers::{CStringBuffer, DecodeBuffer};
pub use c_string::SMALL_STRING_SIZE;
pub use string::{debug_rendering, js_string_equals_str, js_string_from_str, JSString};

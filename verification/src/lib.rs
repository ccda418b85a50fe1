//! Strings in any character encoding.
//!
//! [`Str`] and [`String`] are the counterparts of `str` and `String` for an encoding chosen
//! by a type parameter; [`CStr`] and [`CString`] are their null-terminated forms. A value of
//! one of these types holds bytes that are valid for its encoding: the constructors see to
//! that, and every operation keeps it so.
//!
//! The encodings themselves live in [`encoding`]. Each is described by a small
//! [`Grammar`](encoding::Grammar): what character stands at the front of a byte sequence, and
//! how wide it is. What a valid buffer is, what it decodes to and where its character
//! boundaries lie follows from that, for all encodings alike, in
//! [`encoding::model`]. The operations of an [`Encoding`] are held to its grammar, and
//! [`laws`] states what holds of every encoding.

pub mod cstr;
pub mod cstring;
pub mod encoding;
pub mod err;
pub mod laws;
pub mod str;
pub mod string;
pub mod utils;

pub use cstr::CStr;
pub use cstring::CString;
pub use encoding::Encoding;
pub use str::Str;
pub use string::String;

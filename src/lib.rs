//! Decoding of backslash escape sequences written out as literal characters.

mod decoder;
mod escape;

pub use decoder::{unescape_string, DecodeError};
pub use escape::{
    decoded, escape_free_text_is_unchanged, first_unit, hex_value, is_hex_digit,
    is_scalar_value, quad_value, simple_escape, unicode_escape,
};

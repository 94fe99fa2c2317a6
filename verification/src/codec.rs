//! The text forms of the values that an envelope carries: base64 for
//! binary values, decimal digits for numbers, quoted text with the escapes
//! of JSON, and the readers of the pieces between them.

pub mod base64;
pub mod decimal;
pub mod json;
pub mod scan;

//! Protocol messages: payload validation rules.

pub mod number;
pub mod pattern;
pub mod validate;

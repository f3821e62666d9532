//! Runtime configuration, service discovery bookkeeping and protocol message
//! validation for the Tent backend.

pub mod config;
pub mod discovery;
pub mod text;
pub mod protocol;

//! A time-ordered unique identifier (UUID version 7) library.
//!
//! Identifiers are 128-bit values whose high-order 48 bits carry a Unix
//! millisecond timestamp, so that later identifiers sort after earlier ones
//! both as raw bytes and as canonical strings.

pub mod errors;
pub mod generator;
pub mod ident;
pub mod text;

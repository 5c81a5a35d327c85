use vstd::prelude::*;

verus! {

/// The ways an identifier operation can fail.
#[derive(Clone, Copy, Debug, PartialEq, Eq, Structural)]
pub enum UuidError {
    /// A millisecond timestamp does not fit the 48-bit timestamp field.
    Overflow,
    /// A byte input to decoding is not exactly 16 bytes long.
    InvalidLength,
    /// A text input to parsing is not a canonical 36-character string.
    InvalidFormat,
}

} // verus!

use vstd::prelude::*;

verus! {

/// The ways in which encoding or decoding can fail.
#[derive(Debug, Clone, Copy, PartialEq, Eq, Structural)]
pub enum SerdeAsn1DerError {
    /// The input ended before a declared length was satisfied.
    TruncatedData,
    /// A tag did not match, or an encoding was not canonical.
    InvalidData,
    /// A value does not fit the requested range.
    UnsupportedValue,
    /// The requested semantic type cannot be represented.
    UnsupportedType,
    /// The destination could not take all produced bytes.
    InvalidSink,
}

} // verus!

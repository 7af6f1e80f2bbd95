use vstd::prelude::*;

verus! {

/// What can go wrong while coding or parsing.
#[derive(Clone, Copy, Debug, PartialEq, Eq)]
pub enum Error {
    /// A nibble of a field declared BCD is not a decimal digit.
    InvalidBcd,
    /// A decimal value does not fit the BCD field.
    BcdOverflow,
    /// A frame or payload size lies outside the valid range of its format.
    InvalidFrameLength,
    /// A block's CRC trailer differs from the CRC of the bytes it covers.
    BadCrc,
    /// A 6-bit group is not a symbol of the 3-out-of-6 code.
    InvalidSymbol,
    /// A 3-out-of-6 bit sequence is not a whole number of bytes.
    NotAligned,
    /// A field needs more bytes than remain.
    Truncated,
}

} // verus!

//! What can go wrong between bytes and values.

use vstd::prelude::*;

verus! {

/// Why bytes do not stand for a value.
#[derive(Clone, Copy, Debug, PartialEq, Eq, Structural)]
pub enum DecodeError {
    /// At least so many bytes are missing.
    More(usize),
    /// A text is not UTF-8.
    InvalidString,
    /// No message or header has this number.
    InvalidMessage(u64),
    /// No group order has this number.
    InvalidGroupOrder,
    /// No filter has this number.
    InvalidFilterType,
    /// No location has this number.
    InvalidSubscribeLocation,
    /// No object status has this number.
    InvalidObjectStatus,
    /// A parameter stands twice.
    DuplicateParameter,
    /// A length does not fit in memory.
    BoundsExceeded,
}

/// Why a value cannot be written.
#[derive(Clone, Copy, Debug, PartialEq, Eq, Structural)]
pub enum EncodeError {
    /// A number of more than 62 bits.
    BoundsExceeded,
    /// The filter asks for a location that is not there.
    MissingField,
}

} // verus!

//! What can go wrong in a session.

use crate::coding::error::{DecodeError, EncodeError};
use vstd::prelude::*;

verus! {

/// Why a track or a namespace is not served any longer.
#[derive(Clone, Copy, Debug, PartialEq, Eq, Structural)]
pub enum ServeError {
    /// There is nothing more to come.
    Done,
    /// The other side called it off.
    Cancel,
    /// The other side closed it with this code.
    Closed(u64),
    /// There is no such thing.
    NotFound,
    /// There is already such a thing.
    Duplicate,
    /// It is not delivered in this way.
    Mode,
    /// An object is not of the declared size.
    Size,
}

/// Why a session, or a part of it, fails.
#[derive(Clone, Copy, Debug, PartialEq, Eq, Structural)]
pub enum SessionError {
    /// A track or a namespace fails; the session goes on.
    Serve(ServeError),
    /// Bytes do not stand for a value.
    Decode(DecodeError),
    /// A value cannot be written.
    Encode(EncodeError),
    /// Reading from a stream failed while a value was being decoded.
    Io,
    /// The transport failed.
    Transport,
    /// Something was announced or subscribed twice.
    Duplicate,
    /// Something that is not supported.
    Internal,
    /// A message that this role does not take.
    RoleViolation,
    /// The time after a request to leave is over.
    GoawayTimeout,
}

} // verus!

//! What stands at the start of a data stream and before each of its objects.

pub mod datagram;
pub mod header;
pub mod object;

//! The binary encoding of messages and headers.

pub mod error;
pub mod field;
pub mod params;
pub mod tuple;
pub mod varint;
pub mod wire;

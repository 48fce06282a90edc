//! Media over QUIC: the rules of a publisher, a subscriber and a relay.

pub mod address;
pub mod buffer;
pub mod bytes_be;
pub mod coding;
pub mod connect;
pub mod data;
pub mod media;
pub mod message;
pub mod native;
pub mod relay;
pub mod session;
pub mod table;
pub mod text;
pub mod util;
pub mod watch;

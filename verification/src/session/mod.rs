//! Sessions: their setup, the two roles, and the streams that carry objects.

pub mod dispatch;
pub mod error;
pub mod publisher;
pub mod reader;
pub mod receive;
pub mod serve;
pub mod setup;
pub mod shared;
pub mod subscribed;
pub mod subscriber;
pub mod writer;

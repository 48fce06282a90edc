//! Fragmented MP4: its boxes, the publisher that cuts it up and the subscriber
//! that puts it together again.

pub mod atom;
pub mod boxes;
pub mod catalog;
pub mod fragment;
pub mod init;
pub mod manifest;
pub mod movie;
pub mod paths;
pub mod playback;
pub mod publish;
pub mod timescales;

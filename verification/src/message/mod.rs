//! Control messages.

pub mod control;
pub mod fix_bandwidth;
pub mod relay;
pub mod subscribe;

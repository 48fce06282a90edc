//! The relay: what it forwards, how it runs its sessions, and what its operator can
//! ask of it.

pub mod plan;
pub mod web;

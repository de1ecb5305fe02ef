//! The terminal interface: what is shown.

pub mod chat;
pub mod input;
pub mod overlay;
pub mod status;

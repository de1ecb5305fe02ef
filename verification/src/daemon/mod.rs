//! The model daemon: its files, its protocol, how it is brought up and how it serves.

pub mod ensure;
pub mod files;
pub mod proto;
pub mod serve;

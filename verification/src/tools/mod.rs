//! The tools that a model can call.

pub mod error;
pub mod fs;
pub mod mcp;
pub mod registry;
pub mod shell;
pub mod web;

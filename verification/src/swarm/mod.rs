//! The agent swarm: agents, their definitions, their tools, the task queue and the
//! registry of what runs.

pub mod agent;
pub mod registry;
pub mod state;
pub mod store;
pub mod teams;
pub mod tools;
pub mod writer;

//! Workflows: documents whose steps a model turns into a plan, and the run of a plan.

pub mod executor;
pub mod parser;
pub mod planner;
pub mod workspace;

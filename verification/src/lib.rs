//! Axon: the logic of a local coding assistant, its agent swarm and its
//! dashboard, kept apart from terminals, sockets, files and models.

pub mod agent;
pub mod attach;
pub mod cli;
pub mod commands;
pub mod config;
pub mod context;
pub mod daemon;
pub mod dashboard;
pub mod front_matter;
pub mod json;
pub mod llm;
pub mod mcp;
pub mod order;
pub mod pairs;
pub mod paths;
pub mod runner;
pub mod server;
pub mod session;
pub mod skills;
pub mod swarm;
pub mod table;
pub mod text;
pub mod text_facts;
pub mod time;
pub mod tools;
pub mod tui;
pub mod ui;
pub mod workflow;

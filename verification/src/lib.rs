//! Host-side core of an embedded scripting layer: value bridge, namespace
//! builder, plugin resolution, registry guard flags and the interactive
//! evaluator's state machine.

pub mod bridge;
pub mod cli;
pub mod commands;
pub mod config;
pub mod failure;
pub mod flex;
pub mod json;
pub mod loader;
pub mod logging;
pub mod namespace;
pub mod outside;
pub mod plugin;
pub mod registry;
pub mod repl;
pub mod shared;
pub mod source;
pub mod sources;
pub mod system;
pub mod text;
pub mod value;

//! Herdr-aware directory navigation for Nushell: the verified decision, path,
//! completion, and protocol logic behind the `hnd` command.

pub mod error;
pub mod text;
pub mod path;
pub mod types;
pub mod decision;
pub mod completion;
pub mod prefix;
pub mod display;
pub mod herdr;
pub mod orchestrate;
pub mod invocation;
pub mod config;
pub mod command;
pub mod complete;

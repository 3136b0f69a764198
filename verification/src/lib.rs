//! The NotebookLM toolkit's library: config merging, source rendering, the
//! batchexecute protocol, presentation-template reading, and the decisions
//! of each command.

pub mod adapters;
pub mod cli;
pub mod commands;
pub mod config;
pub mod json;
pub mod notebooklm;
pub mod pptx;
pub mod text;
pub mod xml;
pub mod yaml;

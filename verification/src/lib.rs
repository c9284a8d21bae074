//! Core of the `prompt` command line: the configuration model (models, plugins, chats),
//! the values exchanged with JavaScript plugins, and the decisions the command line takes.

pub mod paths;
pub mod file_order;
pub mod string_map;
pub mod config;
pub mod js_value;
pub mod plugin;
pub mod cli;
pub mod setup;
pub mod validators;
pub mod javascript_engine;
pub mod configuration;

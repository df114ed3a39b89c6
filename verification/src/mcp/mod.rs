//! Support of the tool server: permissions and command results.

pub mod code;
pub mod config;
pub mod executor;
pub mod file_utils;
pub mod permissions;
pub mod regex_search;
pub mod shell_utils;
pub mod tool_core;
pub mod tools;

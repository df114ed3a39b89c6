//! Configuration of the tool servers that an agent can reach.

use std::collections::HashMap;
use vstd::prelude::*;

verus! {

/// A tool server: its name and how to reach it.
#[derive(Debug, Clone)]
pub struct McpServerConfig {
    /// Name of the server.
    pub name: String,
    /// How to reach the server.
    pub transport: McpServerTransportConfig,
}

/// How to reach a tool server.
#[derive(Debug, Clone)]
pub enum McpServerTransportConfig {
    /// Server-sent events at `url`.
    Sse { url: String },
    /// A child process that speaks on its standard input and output.
    Stdio {
        /// The program to run.
        command: String,
        /// Its arguments.
        args: Vec<String>,
        /// Its environment variables.
        envs: HashMap<String, String>,
    },
}

/// The tool servers of a configuration file.
#[derive(Debug, Clone)]
pub struct McpConfig {
    pub server: Vec<McpServerConfig>,
}

} // verus!

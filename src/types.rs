use vstd::prelude::*;

use crate::json::Json;

verus! {

/// A sub-agent that the model can delegate to.
#[derive(Debug, Clone)]
pub struct AgentDefinition {
    pub name: String,
    pub description: String,
    pub system_prompt: Option<String>,
    pub allowed_tools: Vec<String>,
    pub model: Option<String>,
}

/// Sandbox configuration for the child process.
#[derive(Debug, Clone)]
pub struct SandboxSettings {
    pub sandbox_type: Option<SandboxType>,
    pub allow_network: bool,
}

#[derive(Debug, Clone, Copy, PartialEq, Eq, Structural)]
pub enum SandboxType {
    /// No sandbox.
    NoSandbox,
    Docker,
    Firecracker,
}

impl Default for SandboxSettings {
    fn default() -> (r: Self)
        ensures
            r.sandbox_type is None,
            r.allow_network,
    {
        SandboxSettings { sandbox_type: None, allow_network: true }
    }
}

/// Configuration of a tool server.
#[derive(Debug, Clone)]
pub enum McpServerConfig {
    /// A server run as a child process.
    Stdio {
        command: String,
        args: Vec<String>,
        env: Option<Vec<(String, String)>>,
        cwd: Option<String>,
    },
    /// A server reached by server-sent events.
    Sse { url: String, headers: Option<Vec<(String, String)>> },
    /// A server reached by streamable HTTP.
    Http { url: String, headers: Option<Vec<(String, String)>> },
    /// An in-process server, handled by the engine itself.
    Sdk { server_id: String },
}

/// A named tool server entry.
#[derive(Debug, Clone)]
pub struct McpServerEntry {
    pub name: String,
    pub config: McpServerConfig,
}

/// Status of a tool server as the child process reports it.
#[derive(Debug)]
pub struct McpServerStatus {
    pub name: String,
    pub status: String,
    pub tools: Vec<McpToolInfo>,
    pub extra: Json,
}

#[derive(Debug, Clone)]
pub struct McpToolInfo {
    pub name: String,
    pub description: Option<String>,
}

} // verus!

use vstd::prelude::*;

verus! {

/// Errors of the engine and of its session with the child process.
#[derive(Debug, Clone, PartialEq, Eq)]
#[allow(inconsistent_fields)]
pub enum Error {
    CliNotFound,
    CliVersionTooOld { found: String, required: String },
    CliConnection(String),
    Process(String),
    ProcessExit { code: i32, stderr: String },
    JsonDecode(String),
    MessageParse { reason: String },
    /// A control round trip took longer than this many milliseconds.
    ControlTimeout(u64),
    ControlProtocol(String),
    TransportClosed,
    NotConnected,
    AlreadyConnected,
    Io(String),
    Mcp { code: i64, message: String },
    Hook(String),
}

} // verus!

pub mod json;
pub mod codec;
pub mod correlator;
pub mod request_id;
pub mod hooks;
pub mod permissions;
pub mod control;
pub mod dispatch;
pub mod engine;
pub mod error;
pub mod mcp;
pub mod types;
pub mod discovery;

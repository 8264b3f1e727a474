//! The crate's error type: what a failed operation reports to the caller.
use vstd::prelude::*;

verus! {

#[derive(Debug, Clone, PartialEq, Eq)]
pub enum AppError {
    Io { message: String },
    NotAPioProject { path: String },
    PortBusy { port: String, held_by: String },
    PortDisappeared { port: String },
    ToolMissing { tool: String, install_action: bool },
    PioCommandFailed { argv: Vec<String>, exit_code: i32, tail: String },
    ClaudeInterrupted { session_id: String },
    ClaudeProcessFailed { exit_code: i32, tail: String },
    IniChangedOnDisk { path: String },
    NetworkUnavailable { host: String },
    UploadBlocked { reason: String },
    WorkspaceUntrusted { hooks: Vec<String>, mcp_servers: Vec<String> },
}

} // verus!

//! Process-related data: identities, kinds, output lines, and the byte-stream line
//! splitter. Spawning and supervising processes happens outside the library.
pub mod events;
pub mod killers;
pub mod line_splitter;

use vstd::prelude::*;

verus! {

#[derive(Debug, Clone, PartialEq, Eq, Hash)]
pub struct ProcId(pub String);

impl ProcId {
    /// A fresh process id: a random version-4 UUID.
    pub fn new() -> (r: ProcId)
        ensures
            crate::ids::uuid_v4_text(r.0@),
    {
        ProcId(crate::ids::new_uuid_v4())
    }
}

/// A fresh id for an assistant turn: a random version-4 UUID.
pub fn new_turn_id() -> (r: String)
    ensures
        crate::ids::uuid_v4_text(r@),
{
    crate::ids::new_uuid_v4()
}

#[derive(Debug, Clone, Copy, PartialEq, Eq)]
pub enum ProcKind {
    Pio,
    Claude,
    Installer,
    Tool,
}

#[derive(Debug, Clone, Copy, PartialEq, Eq)]
pub enum StdStream {
    Stdout,
    Stderr,
}

#[derive(Debug, Clone)]
pub struct LogLine {
    pub stream: StdStream,
    pub text: String,
    pub ts_ms: u64,
}

#[derive(Debug, Clone)]
pub struct ProcSummary {
    pub id: ProcId,
    pub label: String,
    pub kind: ProcKind,
    pub started_at_ms: u64,
    pub pid: Option<u32>,
}

/// What to run: the program (a path), its arguments, working directory and extra
/// environment.
#[derive(Debug, Clone)]
pub struct SpawnSpec {
    pub program: String,
    pub args: Vec<String>,
    pub cwd: String,
    pub env: Vec<(String, String)>,
    pub kind: ProcKind,
    pub label: String,
}

#[derive(Debug, Clone)]
pub struct CapturedOutput {
    pub exit_code: i32,
    pub stdout: String,
    pub stderr: String,
}

} // verus!

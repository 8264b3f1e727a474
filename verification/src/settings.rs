//! Policy settings shared by the assistant-session and pipeline code.
use vstd::prelude::*;

verus! {

/// How much freedom an assistant turn gets.
#[derive(Debug, Clone, Copy, PartialEq, Eq)]
pub enum PermissionPolicySetting {
    Guarded,
    Assisted,
    Unrestricted,
}

/// How builds and uploads follow edits: `Safe` wants a current successful build before
/// an upload, `FastPath` uploads with its own build, and `Watch` also builds on its own
/// after an assistant turn's changes land.
#[derive(Debug, Clone, Copy, PartialEq, Eq)]
pub enum PipelinePolicySetting {
    Safe,
    FastPath,
    Watch,
}

} // verus!

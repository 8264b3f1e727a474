//! Project metadata types.
use crate::settings::{PermissionPolicySetting, PipelinePolicySetting};
use vstd::prelude::*;

verus! {

#[derive(Debug, Clone, Copy, PartialEq, Eq)]
pub enum CreatedBy {
    VibeHardware,
    Opened,
}

/// The hardware identity a project stays bound to across port renames.
#[derive(Debug, Clone, PartialEq, Eq)]
pub struct StickyHwid {
    pub vid: String,
    pub pid: String,
    pub serial: Option<String>,
}

#[derive(Debug, Clone, PartialEq, Eq, Default)]
pub struct DeviceSettings {
    pub preferred_port: Option<String>,
    pub sticky_hwid: Option<StickyHwid>,
}

#[derive(Debug, Clone, PartialEq, Eq, Default)]
pub struct ProjectClaudeSettings {
    pub session_id: Option<String>,
    pub permission_policy: Option<PermissionPolicySetting>,
    pub model: Option<String>,
}

#[derive(Debug, Clone, PartialEq, Eq, Default)]
pub struct ProjectPipelineSettings {
    pub policy: Option<PipelinePolicySetting>,
}

#[derive(Debug, Clone, PartialEq)]
pub struct ProjectSettings {
    pub schema_version: u32,
    pub id: String,
    pub name: String,
    pub active_env: Option<String>,
    pub device: DeviceSettings,
    pub claude: ProjectClaudeSettings,
    pub pipeline: ProjectPipelineSettings,
    pub trusted: bool,
    pub trust_scan_at: Option<String>,
    pub created_by: CreatedBy,
    pub created_at: String,
}

#[derive(Debug, Clone, PartialEq)]
pub struct ProjectRegistryEntry {
    pub id: String,
    pub name: String,
    pub path: String,
    pub board_id: Option<String>,
    pub active_env: Option<String>,
    pub last_opened: Option<String>,
    pub last_build_ok: Option<bool>,
    pub trusted: bool,
}

#[derive(Debug, Clone, PartialEq, Default)]
pub struct ProjectRegistry {
    pub schema_version: u32,
    pub projects: Vec<ProjectRegistryEntry>,
}

#[derive(Debug, Clone, PartialEq)]
pub struct ProjectEntry {
    pub id: String,
    pub name: String,
    pub path: String,
    pub board_id: Option<String>,
    pub active_env: Option<String>,
    pub last_opened: Option<String>,
    pub last_build_ok: Option<bool>,
    pub exists: bool,
    pub trusted: bool,
}

/// What opening an untrusted workspace would let run: hooks, MCP servers and agents.
#[derive(Debug, Clone, PartialEq, Eq, Default)]
pub struct TrustScan {
    pub hooks: Vec<String>,
    pub mcp_servers: Vec<String>,
    pub agents: Vec<String>,
}

impl TrustScan {
    pub fn is_empty(&self) -> (r: bool)
        ensures
            r == (self.hooks@.len() == 0 && self.mcp_servers@.len() == 0 && self.agents@.len() == 0),
    {
        self.hooks.len() == 0 && self.mcp_servers.len() == 0 && self.agents.len() == 0
    }
}

} // verus!

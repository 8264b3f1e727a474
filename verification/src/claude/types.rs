//! The request and change types of an assistant turn.
use crate::settings::PermissionPolicySetting;
use vstd::prelude::*;

verus! {

/// A turn's own permission policy, overriding the stored setting for that turn only.
#[derive(Debug, Clone, Copy, PartialEq, Eq)]
pub enum PermissionPolicy {
    Guarded,
    Assisted,
    Unrestricted,
}

pub open spec fn setting_of(p: PermissionPolicy) -> PermissionPolicySetting {
    match p {
        PermissionPolicy::Guarded => PermissionPolicySetting::Guarded,
        PermissionPolicy::Assisted => PermissionPolicySetting::Assisted,
        PermissionPolicy::Unrestricted => PermissionPolicySetting::Unrestricted,
    }
}

pub open spec fn policy_of(s: PermissionPolicySetting) -> PermissionPolicy {
    match s {
        PermissionPolicySetting::Guarded => PermissionPolicy::Guarded,
        PermissionPolicySetting::Assisted => PermissionPolicy::Assisted,
        PermissionPolicySetting::Unrestricted => PermissionPolicy::Unrestricted,
    }
}

impl From<PermissionPolicy> for PermissionPolicySetting {
    fn from(p: PermissionPolicy) -> (r: PermissionPolicySetting) {
        match p {
            PermissionPolicy::Guarded => PermissionPolicySetting::Guarded,
            PermissionPolicy::Assisted => PermissionPolicySetting::Assisted,
            PermissionPolicy::Unrestricted => PermissionPolicySetting::Unrestricted,
        }
    }
}

impl vstd::std_specs::convert::FromSpecImpl<PermissionPolicy> for PermissionPolicySetting {
    open spec fn obeys_from_spec() -> bool {
        true
    }

    open spec fn from_spec(p: PermissionPolicy) -> PermissionPolicySetting {
        setting_of(p)
    }
}

impl From<PermissionPolicySetting> for PermissionPolicy {
    fn from(s: PermissionPolicySetting) -> (r: PermissionPolicy) {
        match s {
            PermissionPolicySetting::Guarded => PermissionPolicy::Guarded,
            PermissionPolicySetting::Assisted => PermissionPolicy::Assisted,
            PermissionPolicySetting::Unrestricted => PermissionPolicy::Unrestricted,
        }
    }
}

impl vstd::std_specs::convert::FromSpecImpl<PermissionPolicySetting> for PermissionPolicy {
    open spec fn obeys_from_spec() -> bool {
        true
    }

    open spec fn from_spec(s: PermissionPolicySetting) -> PermissionPolicy {
        policy_of(s)
    }
}

/// Converting a policy to the setting and back gives the policy again, and the other way
/// round.
pub proof fn law_policy_round_trip(p: PermissionPolicy, s: PermissionPolicySetting)
    ensures
        policy_of(setting_of(p)) == p,
        setting_of(policy_of(s)) == s,
{
}

/// The policy a turn runs under: its own, else the project's, else the global setting.
pub fn turn_policy(
    requested: Option<PermissionPolicy>,
    project: Option<PermissionPolicySetting>,
    global: PermissionPolicySetting,
) -> (r: PermissionPolicySetting)
    ensures
        r == (match requested {
            Some(p) => setting_of(p),
            None => match project {
                Some(s) => s,
                None => global,
            },
        }),
{
    match requested {
        Some(p) => PermissionPolicySetting::from(p),
        None => match project {
            Some(s) => s,
            None => global,
        },
    }
}

/// The model a turn runs with: its own, else the project's, else the global one.
pub fn turn_model(requested: Option<String>, project: Option<String>, global: String) -> (r: String)
    ensures
        r == (match requested {
            Some(m) => m,
            None => match project {
                Some(m) => m,
                None => global,
            },
        }),
{
    match requested {
        Some(m) => m,
        None => match project {
            Some(m) => m,
            None => global,
        },
    }
}

#[derive(Debug, Clone)]
pub struct TurnRequest {
    pub workspace: String,
    pub prompt: String,
    /// Paths relative to the workspace, under its attachments directory.
    pub attachments: Vec<String>,
    pub policy: Option<PermissionPolicy>,
    pub model: Option<String>,
}

#[derive(Debug, Clone, PartialEq, Eq, Hash)]
pub struct SnapshotId(pub String);

#[derive(Debug, Clone, Copy, PartialEq, Eq)]
pub enum ChangeStatus {
    Added,
    Modified,
    Deleted,
    Renamed,
}

#[derive(Debug, Clone)]
pub struct FileChange {
    pub path: String,
    pub status: ChangeStatus,
    pub additions: u32,
    pub deletions: u32,
    pub outside_expected_dirs: bool,
}

} // verus!

//! A workspace's own settings: where they live, what a new workspace starts with, and the
//! display form of a stored workspace path.
use crate::clock::now_rfc3339;
use crate::ids::new_uuid_v4;
use crate::project::types::{CreatedBy, DeviceSettings, ProjectClaudeSettings, ProjectPipelineSettings, ProjectSettings};
use crate::text::{append_chars, starts_with, starts_with_str, str_chars, str_to_string, string_from_chars, sub_chars};
use crate::textops::{join_path, join_path_chars};
use vstd::prelude::*;

verus! {

pub const CURRENT_SCHEMA_VERSION: u32 = 1;

/// The workspace's `.vibe` directory.
pub fn vibe_dir(workspace: &str) -> (r: String)
    ensures
        r@ == join_path(workspace@, ".vibe"@),
{
    let v = join_path_chars(str_chars(workspace).as_slice(), str_chars(".vibe").as_slice());
    string_from_chars(v.as_slice())
}

/// The ordinary form of a Windows extended-length path: `\\?\UNC\server\share` becomes
/// `\\server\share` and `\\?\C:\...` becomes `C:\...`. Elsewhere than on Windows, and for
/// any other path, the path is unchanged.
pub open spec fn strip_verbatim_spec(path: Seq<char>, on_windows: bool) -> Seq<char> {
    if !on_windows {
        path
    } else if starts_with(path, "\\\\?\\UNC\\"@) {
        "\\\\"@ + path.skip(8)
    } else if starts_with(path, "\\\\?\\"@) {
        path.skip(4)
    } else {
        path
    }
}

/// The display form of a stored workspace path (see `strip_verbatim_spec`); `on_windows`
/// says whether the program runs on Windows.
pub fn strip_windows_verbatim_prefix_str(path: &str, on_windows: bool) -> (r: String)
    ensures
        r@ == strip_verbatim_spec(path@, on_windows),
{
    let v = str_chars(path);
    if !on_windows {
        return str_to_string(path);
    }
    proof {
        reveal_strlit("\\\\?\\UNC\\");
        reveal_strlit("\\\\?\\");
        reveal_strlit("\\\\");
    }
    if starts_with_str(v.as_slice(), "\\\\?\\UNC\\") {
        let mut out = str_chars("\\\\");
        let rest = sub_chars(v.as_slice(), 8, v.len());
        append_chars(&mut out, rest.as_slice());
        string_from_chars(out.as_slice())
    } else if starts_with_str(v.as_slice(), "\\\\?\\") {
        let rest = sub_chars(v.as_slice(), 4, v.len());
        string_from_chars(rest.as_slice())
    } else {
        str_to_string(path)
    }
}

/// Settings for a new workspace: a fresh random id, created now, with every preference
/// unset. Only workspaces the app created itself start trusted; an opened folder must be
/// trusted by the user first.
pub fn new_settings(name: &str, created_by: CreatedBy) -> (r: ProjectSettings)
    ensures
        r.schema_version == CURRENT_SCHEMA_VERSION,
        crate::ids::uuid_v4_text(r.id@),
        r.name@ == name@,
        r.trusted == (created_by == CreatedBy::VibeHardware),
        r.created_by == created_by,
        r.active_env is None,
        r.device.preferred_port is None && r.device.sticky_hwid is None,
        r.claude.session_id is None && r.claude.permission_policy is None && r.claude.model is None,
        r.pipeline.policy is None,
        r.trust_scan_at is None,
        crate::clock::utc_rfc3339_text(r.created_at@),
{
    let trusted = match created_by {
        CreatedBy::VibeHardware => true,
        CreatedBy::Opened => false,
    };
    ProjectSettings {
        schema_version: CURRENT_SCHEMA_VERSION,
        id: new_uuid_v4(),
        name: str_to_string(name),
        active_env: None,
        device: DeviceSettings { preferred_port: None, sticky_hwid: None },
        claude: ProjectClaudeSettings { session_id: None, permission_policy: None, model: None },
        pipeline: ProjectPipelineSettings { policy: None },
        trusted,
        trust_scan_at: None,
        created_by,
        created_at: now_rfc3339(),
    }
}

} // verus!

//! The bookkeeping around creating, opening and editing projects: the settings and
//! registry row of a project, the environment and board it starts with, and the in-place
//! updates of registry rows. Files and processes are handled outside the library.
use crate::clock::now_rfc3339;
use crate::device::list::{copy_opt, opt_view};
use crate::error::AppError;
use crate::project::env::{env_names_of, list_env_names, read_value, read_value_spec};
use crate::project::registry::{index_of_id, lemma_index_of_id};
use crate::project::types::{CreatedBy, ProjectRegistry, ProjectRegistryEntry, ProjectSettings};
use crate::project::workspace::{new_settings, strip_verbatim_spec, strip_windows_verbatim_prefix_str};
use crate::text::{append_str, lines_of, str_chars, str_eq, str_to_string, string_from_chars};
use vstd::prelude::*;

verus! {

/// `env:<name>`.
pub open spec fn env_section(env: Seq<char>) -> Seq<char> {
    "env:"@ + env
}

fn env_section_exec(env: &str) -> (r: String)
    ensures
        r@ == env_section(env@),
{
    let mut v = str_chars("env:");
    append_str(&mut v, env);
    string_from_chars(v.as_slice())
}

/// The value of `key` in the `[env:<env>]` section of the ini text, when there is an
/// environment.
pub open spec fn env_value_spec(ini: Seq<char>, env: Option<Seq<char>>, key: Seq<char>) -> Option<Seq<char>> {
    match env {
        Some(e) => read_value_spec(ini, env_section(e), key),
        None => None,
    }
}

pub fn env_value(ini: &str, env: Option<&str>, key: &str) -> (r: Option<String>)
    ensures
        opt_view(r) == env_value_spec(ini@, match env {
            Some(e) => Some(e@),
            None => None,
        }, key@),
{
    match env {
        Some(e) => {
            let section = env_section_exec(e);
            read_value(ini, section.as_str(), key)
        },
        None => None,
    }
}

/// The framework named for the active environment, or `arduino` when none is.
pub fn framework_for(ini: &str, active_env: Option<&str>) -> (r: String)
    ensures
        r@ == (match env_value_spec(ini@, match active_env {
            Some(e) => Some(e@),
            None => None,
        }, "framework"@) {
            Some(f) => f,
            None => "arduino"@,
        }),
{
    match env_value(ini, active_env, "framework") {
        Some(f) => f,
        None => str_to_string("arduino"),
    }
}

/// The settings of a project opened from a folder: its stored settings, unchanged, when it
/// has them, else new untrusted settings named after the folder (or `project`) with every
/// preference unset; in either case an unset active environment becomes the first
/// environment the ini declares.
pub fn opened_project_settings(stored: Option<ProjectSettings>, folder_name: Option<&str>, ini: &str) -> (r: ProjectSettings)
    ensures
        stored is Some ==> r == (ProjectSettings { active_env: r.active_env, ..stored->0 }),
        stored is None ==> {
            &&& r.schema_version == crate::project::workspace::CURRENT_SCHEMA_VERSION
            &&& crate::ids::uuid_v4_text(r.id@)
            &&& !r.trusted
            &&& r.created_by == CreatedBy::Opened
            &&& r.name@ == (match folder_name {
                Some(n) => n@,
                None => "project"@,
            })
            &&& r.device.preferred_port is None && r.device.sticky_hwid is None
            &&& r.claude.session_id is None && r.claude.permission_policy is None && r.claude.model is None
            &&& r.pipeline.policy is None
            &&& r.trust_scan_at is None
            &&& crate::clock::utc_rfc3339_text(r.created_at@)
        },
        (stored is Some && stored->0.active_env is Some) ==> r.active_env == stored->0.active_env,
        !(stored is Some && stored->0.active_env is Some) ==> opt_view(r.active_env) == (if env_names_of(lines_of(ini@)).len() > 0 {
            Some(env_names_of(lines_of(ini@))[0])
        } else {
            None
        }),
{
    let mut settings = match stored {
        Some(s) => s,
        None => {
            let name = match folder_name {
                Some(n) => str_to_string(n),
                None => str_to_string("project"),
            };
            new_settings(name.as_str(), CreatedBy::Opened)
        },
    };
    if settings.active_env.is_none() {
        let envs = list_env_names(ini);
        proof {
            assert(crate::text::strings_view(envs@).len() == envs@.len());
        }
        if envs.len() > 0 {
            assert(crate::text::strings_view(envs@)[0] == envs@[0]@);
            settings.active_env = Some(envs[0].clone());
        }
    }
    settings
}

/// The registry row of a project: its id, name, active environment and trust from its
/// settings, the folder, the board, and the time it was opened (now).
pub fn registry_entry_for(settings: &ProjectSettings, path: &str, board_id: Option<String>) -> (r: ProjectRegistryEntry)
    ensures
        r.id == settings.id && r.name == settings.name && r.active_env == settings.active_env,
        r.trusted == settings.trusted,
        r.path@ == path@,
        r.board_id == board_id,
        r.last_opened matches Some(t) && crate::clock::utc_rfc3339_text(t@),
        r.last_build_ok is None,
{
    ProjectRegistryEntry {
        id: settings.id.clone(),
        name: settings.name.clone(),
        path: str_to_string(path),
        board_id,
        active_env: copy_opt(&settings.active_env),
        last_opened: Some(now_rfc3339()),
        last_build_ok: None,
        trusted: settings.trusted,
    }
}

/// The settings of a project the app just created: new (a fresh id, every other preference
/// unset), trusted, with the board's environment active.
pub fn created_project_settings(name: &str, board_id: &str) -> (r: ProjectSettings)
    ensures
        r.schema_version == crate::project::workspace::CURRENT_SCHEMA_VERSION,
        crate::ids::uuid_v4_text(r.id@),
        r.name@ == name@,
        r.trusted,
        r.created_by == CreatedBy::VibeHardware,
        opt_view(r.active_env) == Some(board_id@),
        r.device.preferred_port is None && r.device.sticky_hwid is None,
        r.claude.session_id is None && r.claude.permission_policy is None && r.claude.model is None,
        r.pipeline.policy is None,
        r.trust_scan_at is None,
        crate::clock::utc_rfc3339_text(r.created_at@),
{
    let mut s = new_settings(name, CreatedBy::VibeHardware);
    s.active_env = Some(str_to_string(board_id));
    s
}

/// The folder of the registered project `id`.
pub fn entry_path(registry: &ProjectRegistry, id: &str) -> (r: Result<String, AppError>)
    ensures
        index_of_id(registry.projects@, id@) >= 0 ==> r == Ok::<String, AppError>(registry.projects@[index_of_id(registry.projects@, id@)].path),
        index_of_id(registry.projects@, id@) < 0 ==> (r matches Err(AppError::Io { message }) && message@ == "no project registered with id "@ + id@),
{
    match crate::project::registry::find(registry, id) {
        Some(e) => Ok(e.path.clone()),
        None => {
            let mut m = str_chars("no project registered with id ");
            append_str(&mut m, id);
            Err(AppError::Io { message: string_from_chars(m.as_slice()) })
        },
    }
}

fn position(projects: &Vec<ProjectRegistryEntry>, id: &str) -> (r: Option<usize>)
    ensures
        match r {
            Some(i) => index_of_id(projects@, id@) == i as int && i < projects@.len(),
            None => index_of_id(projects@, id@) == -1,
        },
{
    let mut i: usize = 0;
    while i < projects.len()
        invariant
            i <= projects@.len(),
            index_of_id(projects@.take(i as int), id@) == -1,
        decreases projects@.len() - i,
    {
        assert(projects@.take(i + 1).drop_last() =~= projects@.take(i as int));
        if str_eq(projects[i].id.as_str(), id) {
            proof {
                lemma_prefix_found(projects@, id@, i + 1);
            }
            return Some(i);
        }
        i += 1;
    }
    assert(projects@.take(projects@.len() as int) =~= projects@);
    None
}

proof fn lemma_prefix_found(s: Seq<ProjectRegistryEntry>, id: Seq<char>, k: int)
    requires
        0 <= k <= s.len(),
        index_of_id(s.take(k), id) >= 0,
    ensures
        index_of_id(s, id) == index_of_id(s.take(k), id),
    decreases s.len() - k,
{
    if k < s.len() {
        assert(s.take(k + 1).drop_last() =~= s.take(k));
        lemma_prefix_found(s, id, k + 1);
    } else {
        assert(s.take(k) =~= s);
    }
}

/// Marks the first project with id `id` trusted; nothing else changes.
pub fn mark_trusted(registry: &mut ProjectRegistry, id: &str)
    ensures
        ({
            let i = index_of_id(old(registry).projects@, id@);
            &&& i >= 0 ==> final(registry).projects@ == old(registry).projects@.update(
                i,
                ProjectRegistryEntry { trusted: true, ..old(registry).projects@[i] },
            )
            &&& i < 0 ==> final(registry).projects@ == old(registry).projects@
        }),
        final(registry).schema_version == old(registry).schema_version,
{
    match position(&registry.projects, id) {
        Some(i) => {
            let mut e = registry.projects.remove(i);
            e.trusted = true;
            registry.projects.insert(i, e);
            assert(registry.projects@ =~= old(registry).projects@.update(
                i as int,
                ProjectRegistryEntry { trusted: true, ..old(registry).projects@[i as int] },
            ));
        },
        None => {},
    }
}

/// Sets the active environment of the first project with id `id`; nothing else changes.
pub fn set_active_env(registry: &mut ProjectRegistry, id: &str, env: String)
    ensures
        ({
            let i = index_of_id(old(registry).projects@, id@);
            &&& i >= 0 ==> final(registry).projects@ == old(registry).projects@.update(
                i,
                ProjectRegistryEntry { active_env: Some(env), ..old(registry).projects@[i] },
            )
            &&& i < 0 ==> final(registry).projects@ == old(registry).projects@
        }),
        final(registry).schema_version == old(registry).schema_version,
{
    match position(&registry.projects, id) {
        Some(i) => {
            let mut e = registry.projects.remove(i);
            e.active_env = Some(env);
            registry.projects.insert(i, e);
            assert(registry.projects@ =~= old(registry).projects@.update(
                i as int,
                ProjectRegistryEntry { active_env: Some(env), ..old(registry).projects@[i as int] },
            ));
        },
        None => {},
    }
}

/// Rewrites every stored project path into its display form (see `strip_verbatim_spec`);
/// says whether any path changed, so the registry is saved only then.
pub fn heal_registry_paths(registry: &mut ProjectRegistry, on_windows: bool) -> (changed: bool)
    ensures
        final(registry).projects@.len() == old(registry).projects@.len(),
        forall|i: int| 0 <= i < old(registry).projects@.len() ==> {
            &&& (#[trigger] final(registry).projects@[i]).path@ == strip_verbatim_spec(old(registry).projects@[i].path@, on_windows)
            &&& final(registry).projects@[i] == ProjectRegistryEntry { path: final(registry).projects@[i].path, ..old(registry).projects@[i] }
        },
        changed == exists|i: int| 0 <= i < old(registry).projects@.len()
            && strip_verbatim_spec(old(registry).projects@[i].path@, on_windows) != #[trigger] old(registry).projects@[i].path@,
{
    let ghost orig = registry.projects@;
    assert(orig == old(registry).projects@);
    let mut changed = false;
    let mut i: usize = 0;
    while i < registry.projects.len()
        invariant
            i <= registry.projects@.len(),
            registry.projects@.len() == orig.len(),
            orig == old(registry).projects@,
            forall|k: int| 0 <= k < i ==> {
                &&& (#[trigger] registry.projects@[k]).path@ == strip_verbatim_spec(orig[k].path@, on_windows)
                &&& registry.projects@[k] == ProjectRegistryEntry { path: registry.projects@[k].path, ..orig[k] }
            },
            forall|k: int| i <= k < orig.len() ==> #[trigger] registry.projects@[k] == orig[k],
            changed == exists|k: int| 0 <= k < i && strip_verbatim_spec(orig[k].path@, on_windows) != #[trigger] orig[k].path@,
        decreases orig.len() - i,
    {
        let cleaned = strip_windows_verbatim_prefix_str(registry.projects[i].path.as_str(), on_windows);
        let differs = !str_eq(cleaned.as_str(), registry.projects[i].path.as_str());
        let mut e = registry.projects.remove(i);
        e.path = cleaned;
        registry.projects.insert(i, e);
        if differs {
            changed = true;
        }
        proof {
            if !differs {
                assert forall|k: int| 0 <= k < i + 1 && strip_verbatim_spec(orig[k].path@, on_windows) != #[trigger] orig[k].path@ implies k < i by {}
            }
        }
        i += 1;
    }
    changed
}

} // verus!

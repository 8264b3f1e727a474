//! The decisions around running `pio`: which workspace and environment a request is for,
//! whether an upload may go ahead, whether a preempted monitor comes back afterwards,
//! which targets the menu offers, and the stdout collected from a run's output.
use crate::error::AppError;
use crate::pio::pipeline::PipelineStep;
use crate::pio::targets::{TargetInfo, UNIVERSAL_TARGETS};
use crate::proc::{LogLine, StdStream};
use crate::project::registry::{find, index_of_id};
use crate::project::types::ProjectRegistry;
use crate::settings::PipelinePolicySetting;
use crate::text::{append_str, str_chars, str_to_string, string_from_chars, strings_view};
use vstd::prelude::*;

verus! {

pub const UPLOAD_BLOCKED_REASON: &'static str = "Build the current code successfully before uploading.";

/// An upload needs a current successful build, except under the fast-path policy, whose
/// upload builds by itself.
pub fn upload_gate(policy: PipelinePolicySetting, step: PipelineStep) -> (r: Result<(), AppError>)
    ensures
        (policy == PipelinePolicySetting::FastPath || step == PipelineStep::BuildOk) ==> r is Ok,
        !(policy == PipelinePolicySetting::FastPath || step == PipelineStep::BuildOk) ==> (r matches Err(
            AppError::UploadBlocked { reason },
        ) && reason@ == UPLOAD_BLOCKED_REASON@),
{
    match policy {
        PipelinePolicySetting::FastPath => Ok(()),
        _ => match step {
            PipelineStep::BuildOk => Ok(()),
            _ => Err(AppError::UploadBlocked { reason: str_to_string(UPLOAD_BLOCKED_REASON) }),
        },
    }
}

/// The port a preempted monitor is reattached to after an upload or test run: only when
/// reattaching is on, a monitor was actually stopped, and the workspace has a port.
pub fn reattach_port(auto_reattach: bool, monitor_preempted: bool, preferred_port: Option<String>) -> (r: Option<String>)
    ensures
        r == (if auto_reattach && monitor_preempted { preferred_port } else { None }),
{
    if auto_reattach && monitor_preempted {
        preferred_port
    } else {
        None
    }
}

pub open spec fn universal_targets() -> Seq<Seq<char>> {
    seq!["build"@, "upload"@, "clean"@, "fullclean"@, "size"@, "monitor"@]
}

/// The target menu: the parsed targets' names, or the universal targets when nothing was
/// parsed.
pub fn target_menu(parsed: &Vec<TargetInfo>) -> (r: Vec<String>)
    ensures
        parsed@.len() == 0 ==> strings_view(r@) == universal_targets(),
        parsed@.len() > 0 ==> strings_view(r@) == parsed@.map_values(|t: TargetInfo| t.name@),
{
    let mut out: Vec<String> = Vec::new();
    if parsed.len() == 0 {
        let u = UNIVERSAL_TARGETS;
        let r = crate::text::strings_from(&u);
        assert(u@.map_values(|s: &str| s@) =~= universal_targets());
        return r;
    }
    let mut i: usize = 0;
    while i < parsed.len()
        invariant
            i <= parsed@.len(),
            strings_view(out@) == parsed@.take(i as int).map_values(|t: TargetInfo| t.name@),
        decreases parsed@.len() - i,
    {
        let ghost o0 = strings_view(out@);
        out.push(parsed[i].name.clone());
        assert(strings_view(out@) =~= o0.push(parsed@[i as int].name@));
        assert(parsed@.take(i + 1).map_values(|t: TargetInfo| t.name@) =~= parsed@.take(i as int).map_values(|t: TargetInfo| t.name@).push(parsed@[i as int].name@));
        i += 1;
    }
    assert(parsed@.take(parsed@.len() as int) =~= parsed@);
    out
}

/// The stdout text of some output lines: each stdout line and a line feed, in order;
/// stderr lines are left out.
pub open spec fn stdout_text(lines: Seq<LogLine>) -> Seq<char>
    decreases lines.len(),
{
    if lines.len() == 0 {
        Seq::empty()
    } else if lines.last().stream == StdStream::Stdout {
        stdout_text(lines.drop_last()) + lines.last().text@ + seq!['\n']
    } else {
        stdout_text(lines.drop_last())
    }
}

/// Adds a batch of output lines' stdout text to what was collected so far.
pub fn capture_stdout(buf: &mut String, lines: &Vec<LogLine>)
    ensures
        final(buf)@ == old(buf)@ + stdout_text(lines@),
{
    let mut v = str_chars(buf.as_str());
    let mut i: usize = 0;
    while i < lines.len()
        invariant
            i <= lines@.len(),
            v@ == old(buf)@ + stdout_text(lines@.take(i as int)),
        decreases lines@.len() - i,
    {
        let l = &lines[i];
        proof {
            assert(lines@.take(i + 1).drop_last() =~= lines@.take(i as int));
            assert(lines@.take(i + 1).last() == *l);
        }
        match l.stream {
            StdStream::Stdout => {
                append_str(&mut v, l.text.as_str());
                v.push('\n');
            },
            StdStream::Stderr => {},
        }
        i += 1;
    }
    assert(lines@.take(lines@.len() as int) =~= lines@);
    *buf = string_from_chars(v.as_slice());
}

pub open spec fn no_project_message(id: Seq<char>) -> Seq<char> {
    "no project registered with id "@ + id
}

pub const NO_ACTIVE_ENV: &'static str = "no active environment set for this project";

/// The folder and active environment of the registered project `id`: an error when no
/// project has that id, or when it has no active environment.
pub fn workspace_dir_and_env(registry: &ProjectRegistry, id: &str) -> (r: Result<(String, String), AppError>)
    ensures
        ({
            let i = index_of_id(registry.projects@, id@);
            &&& i < 0 ==> (r matches Err(AppError::Io { message }) && message@ == no_project_message(id@))
            &&& i >= 0 && registry.projects@[i].active_env is None ==> (r matches Err(AppError::Io { message })
                && message@ == NO_ACTIVE_ENV@)
            &&& i >= 0 && registry.projects@[i].active_env is Some ==> (r matches Ok((p, e))
                && p == registry.projects@[i].path && e == registry.projects@[i].active_env->0)
        }),
{
    match find(registry, id) {
        None => {
            let mut m = str_chars("no project registered with id ");
            append_str(&mut m, id);
            Err(AppError::Io { message: string_from_chars(m.as_slice()) })
        },
        Some(entry) => match &entry.active_env {
            Some(env) => Ok((entry.path.clone(), env.clone())),
            None => Err(AppError::Io { message: str_to_string(NO_ACTIVE_ENV) }),
        },
    }
}

} // verus!

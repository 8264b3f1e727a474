//! What a finished build or upload leaves behind: the tally of its streamed events, the
//! size report with its delta against the previous good build, the history record, and
//! the pipeline step it ends in. The process itself runs outside the library.
use crate::pio::build_history::{BuildKind, BuildRecord, BuildSize, DefectCount};
use crate::pio::pipeline::{PipelineRegistry, PipelineState, PipelineStep};
use crate::proc::events::{Severity, SizeUsage};
use crate::settings::PipelinePolicySetting;
use crate::text::{append_str, str_chars, str_to_string, string_from_chars};
use vstd::prelude::*;

verus! {

/// The running tally of a build's events.
#[derive(Debug, Clone, Copy, PartialEq, Eq)]
pub struct BuildTally {
    pub error_count: u32,
    pub warning_count: u32,
    pub last_size: Option<SizeUsage>,
    pub success: bool,
    pub duration_ms: u64,
}

pub open spec fn saturating_inc(n: u32) -> u32 {
    if n < u32::MAX {
        (n + 1) as u32
    } else {
        n
    }
}

impl BuildTally {
    pub fn new() -> (r: BuildTally)
        ensures
            r.error_count == 0 && r.warning_count == 0 && r.last_size is None && !r.success && r.duration_ms == 0,
    {
        BuildTally { error_count: 0, warning_count: 0, last_size: None, success: false, duration_ms: 0 }
    }

    /// A defect counts as an error or a warning by its severity; notes are not counted.
    pub fn on_defect(&mut self, severity: Severity)
        ensures
            final(self).error_count == (if severity == Severity::Error {
                saturating_inc(old(self).error_count)
            } else {
                old(self).error_count
            }),
            final(self).warning_count == (if severity == Severity::Warning {
                saturating_inc(old(self).warning_count)
            } else {
                old(self).warning_count
            }),
            final(self).last_size == old(self).last_size,
            final(self).success == old(self).success,
            final(self).duration_ms == old(self).duration_ms,
    {
        match severity {
            Severity::Error => {
                self.error_count = self.error_count.saturating_add(1);
            },
            Severity::Warning => {
                self.warning_count = self.warning_count.saturating_add(1);
            },
            Severity::Note => {},
        }
    }

    /// The newest size report wins.
    pub fn on_size(&mut self, usage: SizeUsage)
        ensures
            *final(self) == (BuildTally { last_size: Some(usage), ..*old(self) }),
    {
        self.last_size = Some(usage);
    }

    /// The run's end: whether it succeeded, and how long it took.
    pub fn on_finished(&mut self, success: bool, duration_ms: u64)
        ensures
            *final(self) == (BuildTally { success, duration_ms, ..*old(self) }),
    {
        self.success = success;
        self.duration_ms = duration_ms;
    }
}

/// `now - before` for byte counts: exact when both fit in `i64`.
pub open spec fn delta_ok(now: u64, before: u64, d: i64) -> bool {
    now <= i64::MAX && before <= i64::MAX ==> d == now - before
}

fn byte_delta(now: u64, before: u64) -> (d: i64)
    ensures
        delta_ok(now, before, d),
{
    if now <= i64::MAX as u64 && before <= i64::MAX as u64 {
        (now as i64) - (before as i64)
    } else {
        (now as i64).wrapping_sub(before as i64)
    }
}

/// The size report with its deltas against the previous good build, when there is one;
/// unchanged otherwise.
pub fn size_with_delta(usage: SizeUsage, previous: Option<BuildSize>) -> (r: SizeUsage)
    ensures
        r.ram_used == usage.ram_used && r.ram_total == usage.ram_total,
        r.flash_used == usage.flash_used && r.flash_total == usage.flash_total,
        match previous {
            Some(p) => r.ram_delta is Some && delta_ok(usage.ram_used, p.ram_used, r.ram_delta->0)
                && r.flash_delta is Some && delta_ok(usage.flash_used, p.flash_used, r.flash_delta->0),
            None => r.ram_delta == usage.ram_delta && r.flash_delta == usage.flash_delta,
        },
{
    match previous {
        Some(p) => SizeUsage {
            ram_delta: Some(byte_delta(usage.ram_used, p.ram_used)),
            flash_delta: Some(byte_delta(usage.flash_used, p.flash_used)),
            ..usage
        },
        None => usage,
    }
}

/// The history record of a finished run: its tally's outcome, duration and defect
/// counts, and the totals of its last size report.
pub fn build_record(
    id: String,
    at: String,
    env: String,
    kind: BuildKind,
    tally: &BuildTally,
    snapshot: Option<String>,
) -> (r: BuildRecord)
    ensures
        r.id == id && r.at == at && r.env == env && r.kind == kind,
        r.success == tally.success && r.duration_ms == tally.duration_ms,
        r.snapshot == snapshot,
        r.defect_count == (DefectCount { error: tally.error_count, warning: tally.warning_count }),
        r.size == (match tally.last_size {
            Some(u) => Some(BuildSize { ram_used: u.ram_used, ram_total: u.ram_total, flash_used: u.flash_used, flash_total: u.flash_total }),
            None => None,
        }),
{
    let size = match &tally.last_size {
        Some(u) => Some(BuildSize::from_usage(u)),
        None => None,
    };
    BuildRecord {
        id,
        at,
        env,
        kind,
        success: tally.success,
        duration_ms: tally.duration_ms,
        snapshot,
        size,
        defect_count: DefectCount { error: tally.error_count, warning: tally.warning_count },
    }
}

/// The label of the snapshot taken after a good build: `build-<id>`, or `build-watch-<id>`
/// for a build the watch policy started.
pub fn snapshot_label(watch: bool, build_id: &str) -> (r: String)
    ensures
        r@ == (if watch { "build-watch-"@ } else { "build-"@ }) + build_id@,
{
    let mut v = if watch { str_chars("build-watch-") } else { str_chars("build-") };
    append_str(&mut v, build_id);
    string_from_chars(v.as_slice())
}

/// The project's own policy when it sets one, else the global one.
pub fn effective_pipeline_policy(project: Option<PipelinePolicySetting>, global: PipelinePolicySetting) -> (r: PipelinePolicySetting)
    ensures
        r == (match project {
            Some(p) => p,
            None => global,
        }),
{
    match project {
        Some(p) => p,
        None => global,
    }
}

/// Only the watch policy builds on its own after an assistant turn's changes land, and
/// only when something changed.
pub fn watch_build_applies(policy: PipelinePolicySetting, changed_files: usize) -> (r: bool)
    ensures
        r == (policy == PipelinePolicySetting::Watch && changed_files > 0),
{
    changed_files > 0 && match policy {
        PipelinePolicySetting::Watch => true,
        _ => false,
    }
}

impl PipelineRegistry {
    /// The step a finished run leaves the workspace in: `BuildOk` (with the watched-file
    /// time) on success, `Failed` otherwise.
    pub fn finish_build(&mut self, workspace_id: &str, success: bool, watched_mtime: Option<u128>, env: &str) -> (r: PipelineState)
        ensures
            success ==> r.step == PipelineStep::BuildOk && final(self).view() == old(self).view().insert(workspace_id@, (r, watched_mtime)),
            !success ==> r.step == PipelineStep::Failed && final(self).view() == old(self).view().insert(workspace_id@, (r, None)),
            r.env is Some && r.env->0@ == env@,
            r.proc_id is None,
            crate::clock::utc_rfc3339_text(r.since@),
    {
        if success {
            self.mark_build_ok(workspace_id, watched_mtime, env)
        } else {
            let e = str_to_string(env);
            self.transition(workspace_id, PipelineStep::Failed, Some(e), None)
        }
    }
}

} // verus!

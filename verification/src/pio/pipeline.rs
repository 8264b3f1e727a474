//! The build/upload pipeline's per-workspace state (`Idle → Building → BuildOk/Failed →
//! Uploading`) and the recognition of build stage lines in `pio run` output.
use crate::clock::now_rfc3339;
use crate::proc::ProcId;
use crate::settings::PipelinePolicySetting;
use crate::text::{starts_with, str_chars, string_from_chars, trim, trim_chars, starts_with_str};
use vstd::prelude::*;

verus! {

/// The status lines that mark a build or flash stage.
pub const STAGE_PREFIXES: [&'static str; 8] = [
    "Compiling ",
    "Linking ",
    "Building ",
    "Archiving ",
    "Generating ",
    "Writing at ",
    "Checking size ",
    "Retrieving maximum program size ",
];

pub open spec fn stage_prefixes() -> Seq<Seq<char>> {
    seq![
        "Compiling "@,
        "Linking "@,
        "Building "@,
        "Archiving "@,
        "Generating "@,
        "Writing at "@,
        "Checking size "@,
        "Retrieving maximum program size "@,
    ]
}

/// A line is a stage line when, trimmed, it starts with one of the stage prefixes; the
/// stage is the trimmed line.
pub open spec fn stage_spec(line: Seq<char>) -> Option<Seq<char>> {
    if exists|i: int| 0 <= i < stage_prefixes().len() && starts_with(trim(line), #[trigger] stage_prefixes()[i]) {
        Some(trim(line))
    } else {
        None
    }
}

pub fn detect_stage(line: &str) -> (r: Option<String>)
    ensures
        match r {
            Some(s) => stage_spec(line@) == Some(s@),
            None => stage_spec(line@) is None,
        },
{
    let t = trim_chars(str_chars(line).as_slice());
    let prefixes = STAGE_PREFIXES;
    let mut i: usize = 0;
    while i < 8
        invariant
            i <= 8,
            t@ == trim(line@),
            prefixes@ =~= seq![
                "Compiling ",
                "Linking ",
                "Building ",
                "Archiving ",
                "Generating ",
                "Writing at ",
                "Checking size ",
                "Retrieving maximum program size ",
            ],
            forall|j: int| 0 <= j < i ==> !starts_with(trim(line@), #[trigger] stage_prefixes()[j]),
        decreases 8 - i,
    {
        assert(prefixes@[i as int]@ == stage_prefixes()[i as int]);
        if starts_with_str(t.as_slice(), prefixes[i]) {
            return Some(string_from_chars(t.as_slice()));
        }
        i += 1;
    }
    None
}

#[derive(Debug, Clone, Copy, PartialEq, Eq)]
pub enum PipelineStep {
    Idle,
    Building,
    BuildOk,
    Uploading,
    Failed,
    /// Held while the serial monitor owns the port.
    Monitoring,
}

#[derive(Debug, Clone)]
pub struct PipelineState {
    pub step: PipelineStep,
    /// RFC 3339: when `step` was entered.
    pub since: String,
    pub env: Option<String>,
    pub proc_id: Option<ProcId>,
}

fn copy_opt_string(o: &Option<String>) -> (r: Option<String>)
    ensures
        r == *o,
{
    match o {
        Some(s) => Some(s.clone()),
        None => None,
    }
}

fn copy_opt_proc(o: &Option<ProcId>) -> (r: Option<ProcId>)
    ensures
        r == *o,
{
    match o {
        Some(p) => Some(ProcId(p.0.clone())),
        None => None,
    }
}

impl PipelineState {
    /// A field-by-field copy.
    pub fn duplicate(&self) -> (r: PipelineState)
        ensures
            r == *self,
    {
        PipelineState {
            step: self.step,
            since: self.since.clone(),
            env: copy_opt_string(&self.env),
            proc_id: copy_opt_proc(&self.proc_id),
        }
    }

    pub open spec fn is_idle(self) -> bool {
        self.step == PipelineStep::Idle && self.env is None && self.proc_id is None
    }
}

struct RegistryEntry {
    workspace: String,
    state: PipelineState,
    /// The newest watched-file modification time (in milliseconds since the Unix epoch)
    /// when `BuildOk` was entered; `None` when no watched file existed or the step is
    /// another one.
    build_ok_mtime: Option<u128>,
}

/// What the registry holds for one workspace: its state, and the watched-file time
/// recorded with `BuildOk`.
pub type PipelineRecord = (PipelineState, Option<u128>);

/// The record of workspace `k`: the last entry for it.
spec fn lookup(s: Seq<RegistryEntry>, k: Seq<char>) -> Option<PipelineRecord>
    decreases s.len(),
{
    if s.len() == 0 {
        None
    } else if s.last().workspace@ == k {
        Some((s.last().state, s.last().build_ok_mtime))
    } else {
        lookup(s.drop_last(), k)
    }
}

proof fn lemma_lookup_update(s: Seq<RegistryEntry>, i: int, e: RegistryEntry, k: Seq<char>)
    requires
        0 <= i < s.len(),
        e.workspace@ == s[i].workspace@,
        forall|j: int| i < j < s.len() ==> (#[trigger] s[j]).workspace@ != s[i].workspace@,
    ensures
        lookup(s.update(i, e), k) == (if k == e.workspace@ {
            Some((e.state, e.build_ok_mtime))
        } else {
            lookup(s, k)
        }),
    decreases s.len(),
{
    if i == s.len() - 1 {
        assert(s.update(i, e).drop_last() =~= s.drop_last());
    } else {
        assert(s.update(i, e).drop_last() =~= s.drop_last().update(i, e));
        lemma_lookup_update(s.drop_last(), i, e, k);
    }
}

proof fn lemma_lookup_absent(s: Seq<RegistryEntry>, k: Seq<char>)
    requires
        forall|j: int| 0 <= j < s.len() ==> (#[trigger] s[j]).workspace@ != k,
    ensures
        lookup(s, k) is None,
    decreases s.len(),
{
    if s.len() > 0 {
        lemma_lookup_absent(s.drop_last(), k);
    }
}

/// Per-workspace pipeline state, in memory only: a workspace with no record reads as
/// `Idle`, stamped with the time of that read. (Keyed by text, so held as a list with a
/// map view: the last record for a workspace is its state.)
pub struct PipelineRegistry {
    entries: Vec<RegistryEntry>,
}

impl PipelineRegistry {
    /// The registry as a map from workspace id to its record.
    pub closed spec fn view(&self) -> Map<Seq<char>, PipelineRecord> {
        Map::new(|k: Seq<char>| lookup(self.entries@, k) is Some, |k: Seq<char>| lookup(self.entries@, k).unwrap())
    }

    pub fn new() -> (r: PipelineRegistry)
        ensures
            r.view() == Map::<Seq<char>, PipelineRecord>::empty(),
    {
        let r = PipelineRegistry { entries: Vec::new() };
        assert(r.view() =~= Map::<Seq<char>, PipelineRecord>::empty());
        r
    }

    /// The index of the last entry for `ws`.
    fn position(&self, ws: &str) -> (r: Option<usize>)
        ensures
            match r {
                Some(i) => {
                    &&& i < self.entries@.len()
                    &&& self.entries@[i as int].workspace@ == ws@
                    &&& forall|j: int| i < j < self.entries@.len() ==> (#[trigger] self.entries@[j]).workspace@ != ws@
                    &&& lookup(self.entries@, ws@) == Some((self.entries@[i as int].state, self.entries@[i as int].build_ok_mtime))
                },
                None => lookup(self.entries@, ws@) is None,
            },
    {
        let w = str_chars(ws);
        let mut i = self.entries.len();
        assert(self.entries@.take(i as int) =~= self.entries@);
        while i > 0
            invariant
                i <= self.entries@.len(),
                w@ == ws@,
                forall|j: int| i <= j < self.entries@.len() ==> (#[trigger] self.entries@[j]).workspace@ != ws@,
                lookup(self.entries@, ws@) == lookup(self.entries@.take(i as int), ws@),
            decreases i,
        {
            let k = i - 1;
            let name = str_chars(self.entries[k].workspace.as_str());
            if crate::text::chars_eq(name.as_slice(), w.as_slice()) {
                assert(self.entries@.take(i as int).last() == self.entries@[k as int]);
                return Some(k);
            }
            assert(self.entries@.take(i as int).drop_last() =~= self.entries@.take(k as int));
            i = k;
        }
        assert(self.entries@.take(0) =~= Seq::<RegistryEntry>::empty());
        None
    }

    /// The state of `workspace_id`; a workspace never seen is `Idle`, since the current
    /// time.
    pub fn get(&self, workspace_id: &str) -> (r: PipelineState)
        ensures
            self.view().contains_key(workspace_id@) ==> r == self.view()[workspace_id@].0,
            !self.view().contains_key(workspace_id@) ==> r.is_idle() && crate::clock::utc_rfc3339_text(r.since@),
    {
        match self.position(workspace_id) {
            Some(i) => self.entries[i].state.duplicate(),
            None => PipelineState { step: PipelineStep::Idle, since: now_rfc3339(), env: None, proc_id: None },
        }
    }

    fn put(&mut self, workspace_id: &str, state: PipelineState, mtime: Option<u128>)
        ensures
            final(self).view() == old(self).view().insert(workspace_id@, (state, mtime)),
    {
        let ghost k0 = workspace_id@;
        let e = RegistryEntry { workspace: crate::text::str_to_string(workspace_id), state, build_ok_mtime: mtime };
        match self.position(workspace_id) {
            Some(i) => {
                let ghost s = self.entries@;
                proof {
                    assert forall|k: Seq<char>| lookup(s.update(i as int, e), k) == (if k == k0 {
                        Some((state, mtime))
                    } else {
                        lookup(s, k)
                    }) by {
                        lemma_lookup_update(s, i as int, e, k);
                    }
                }
                self.entries.set(i, e);
            },
            None => {
                let ghost s = self.entries@;
                self.entries.push(e);
                proof {
                    assert(self.entries@.drop_last() =~= s);
                }
            },
        }
        assert(self.view() =~= old(self).view().insert(k0, (state, mtime)));
    }

    /// Enters `step` for `workspace_id`, since now, forgetting any recorded build time.
    pub fn transition(&mut self, workspace_id: &str, step: PipelineStep, env: Option<String>, proc_id: Option<ProcId>) -> (r: PipelineState)
        ensures
            r.step == step,
            r.env == env,
            r.proc_id == proc_id,
            crate::clock::utc_rfc3339_text(r.since@),
            final(self).view() == old(self).view().insert(workspace_id@, (r, None)),
    {
        let state = PipelineState { step, since: now_rfc3339(), env, proc_id };
        let out = state.duplicate();
        self.put(workspace_id, state, None);
        out
    }

    /// Enters `BuildOk` for `env`, recording `watched_mtime`, the newest modification time
    /// among the workspace's watched files, for later staleness checks.
    pub fn mark_build_ok(&mut self, workspace_id: &str, watched_mtime: Option<u128>, env: &str) -> (r: PipelineState)
        ensures
            r.step == PipelineStep::BuildOk,
            r.env is Some && r.env->0@ == env@,
            r.proc_id is None,
            crate::clock::utc_rfc3339_text(r.since@),
            final(self).view() == old(self).view().insert(workspace_id@, (r, watched_mtime)),
    {
        let state = PipelineState {
            step: PipelineStep::BuildOk,
            since: now_rfc3339(),
            env: Some(crate::text::str_to_string(env)),
            proc_id: None,
        };
        let out = state.duplicate();
        self.put(workspace_id, state, watched_mtime);
        out
    }

    /// The current state, after first dropping `BuildOk` back to `Idle` when `policy` is
    /// Safe and a watched file changed since the build that earned it (`current_mtime` is
    /// the newest watched-file modification time now).
    pub fn effective_state(&mut self, workspace_id: &str, current_mtime: Option<u128>, policy: PipelinePolicySetting) -> (r: PipelineState)
        ensures
            stale_spec(old(self).view(), workspace_id@, current_mtime, policy) ==> {
                &&& r.is_idle()
                &&& crate::clock::utc_rfc3339_text(r.since@)
                &&& final(self).view() == old(self).view().insert(workspace_id@, (r, None))
            },
            !stale_spec(old(self).view(), workspace_id@, current_mtime, policy) ==> {
                &&& final(self).view() == old(self).view()
                &&& old(self).view().contains_key(workspace_id@) ==> r == old(self).view()[workspace_id@].0
                &&& !old(self).view().contains_key(workspace_id@) ==> r.is_idle()
            },
    {
        let stale = match policy {
            PipelinePolicySetting::Safe => match self.position(workspace_id) {
                Some(i) => {
                    let e = &self.entries[i];
                    match e.state.step {
                        PipelineStep::BuildOk => match (e.build_ok_mtime, current_mtime) {
                            (Some(recorded), Some(now)) => now > recorded,
                            (None, Some(_)) => true,
                            _ => false,
                        },
                        _ => false,
                    }
                },
                None => false,
            },
            _ => false,
        };
        if stale {
            return self.transition(workspace_id, PipelineStep::Idle, None, None);
        }
        self.get(workspace_id)
    }
}

/// A `BuildOk` is stale under the Safe policy when a watched file is newer than the build,
/// or watched files appeared after a build that had none.
pub open spec fn stale_spec(m: Map<Seq<char>, PipelineRecord>, ws: Seq<char>, now: Option<u128>, policy: PipelinePolicySetting) -> bool {
    &&& policy == PipelinePolicySetting::Safe
    &&& m.contains_key(ws)
    &&& m[ws].0.step == PipelineStep::BuildOk
    &&& match (m[ws].1, now) {
        (Some(recorded), Some(n)) => n > recorded,
        (None, Some(_)) => true,
        _ => false,
    }
}

/// What a transition writes is what the next read gives back, and the other workspaces
/// keep their records.
pub proof fn law_read_after_transition(m: Map<Seq<char>, PipelineRecord>, ws: Seq<char>, other: Seq<char>, r: PipelineState)
    requires
        other != ws,
    ensures
        m.insert(ws, (r, None)).contains_key(ws),
        m.insert(ws, (r, None))[ws].0 == r,
        m.insert(ws, (r, None)).contains_key(other) == m.contains_key(other),
        m.contains_key(other) ==> m.insert(ws, (r, None))[other] == m[other],
{
}

/// Under the fast-path policy a `BuildOk` is never invalidated, whatever the files do.
pub proof fn law_fast_path_never_stale(m: Map<Seq<char>, PipelineRecord>, ws: Seq<char>, now: Option<u128>)
    ensures
        !stale_spec(m, ws, now, PipelinePolicySetting::FastPath),
{
}

/// Under the safe policy a successful build stays current exactly while no watched file is
/// newer than it: once `mark_build_ok` recorded `built` as the newest watched-file time, a
/// later `effective_state` that sees `now` finds the build stale (and falls back to `Idle`,
/// which the upload gate refuses) if and only if `now > built`.
pub proof fn law_safe_build_is_current_until_a_file_changes(
    m: Map<Seq<char>, PipelineRecord>,
    ws: Seq<char>,
    r: PipelineState,
    built: u128,
    now: u128,
)
    requires
        r.step == PipelineStep::BuildOk,
    ensures
        stale_spec(m.insert(ws, (r, Some(built))), ws, Some(now), PipelinePolicySetting::Safe) == (now > built),
{
}


/// What one registry call does to the registry's map, as its contract states it:
/// `transition`, `mark_build_ok` and a downgrading `effective_state` store a state (with
/// the watched-file time, for `mark_build_ok`) for one workspace; `get` and a
/// non-downgrading `effective_state` keep everything.
pub enum RegistryStep {
    Store { ws: Seq<char>, state: PipelineState, mtime: Option<u128> },
    Keep,
}

/// The map after the steps, in order.
pub open spec fn after_steps(m: Map<Seq<char>, PipelineRecord>, steps: Seq<RegistryStep>) -> Map<Seq<char>, PipelineRecord>
    decreases steps.len(),
{
    if steps.len() == 0 {
        m
    } else {
        match steps.last() {
            RegistryStep::Store { ws, state, mtime } => after_steps(m, steps.drop_last()).insert(ws, (state, mtime)),
            RegistryStep::Keep => after_steps(m, steps.drop_last()),
        }
    }
}

/// The state the last step storing one for `ws` stored.
pub open spec fn last_stored(steps: Seq<RegistryStep>, ws: Seq<char>) -> Option<PipelineState>
    decreases steps.len(),
{
    if steps.len() == 0 {
        None
    } else {
        match steps.last() {
            RegistryStep::Store { ws: w, state, .. } => if w == ws {
                Some(state)
            } else {
                last_stored(steps.drop_last(), ws)
            },
            RegistryStep::Keep => last_stored(steps.drop_last(), ws),
        }
    }
}

/// From a fresh registry, after any calls, a workspace's record holds the state last
/// stored for it, and a workspace never stored for has no record (so `get` reads it as
/// `Idle`, stamped with the time of the read).
pub proof fn law_get_returns_the_last_stored_state(steps: Seq<RegistryStep>, ws: Seq<char>)
    ensures
        match last_stored(steps, ws) {
            Some(s) => after_steps(Map::empty(), steps).contains_key(ws) && after_steps(Map::empty(), steps)[ws].0 == s,
            None => !after_steps(Map::empty(), steps).contains_key(ws),
        },
    decreases steps.len(),
{
    if steps.len() > 0 {
        law_get_returns_the_last_stored_state(steps.drop_last(), ws);
    }
}
} // verus!

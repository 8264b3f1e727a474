//! The workspace's build history: every build, upload, test and check run, newest last,
//! capped in length, with the snapshot of the last good build.
use crate::proc::events::SizeUsage;
use vstd::prelude::*;

verus! {

pub const CURRENT_SCHEMA_VERSION: u32 = 1;

/// The history keeps only this many most recent entries.
pub const MAX_BUILDS: usize = 200;

#[derive(Debug, Clone, Copy, PartialEq, Eq)]
pub enum BuildKind {
    Build,
    Upload,
    Test,
    Check,
}

#[derive(Debug, Clone, Copy, PartialEq, Eq, Default)]
pub struct DefectCount {
    pub error: u32,
    pub warning: u32,
}

#[derive(Debug, Clone, Copy, PartialEq, Eq)]
pub struct BuildSize {
    pub ram_used: u64,
    pub ram_total: u64,
    pub flash_used: u64,
    pub flash_total: u64,
}

impl BuildSize {
    /// The four totals of a size report, without its deltas.
    pub fn from_usage(u: &SizeUsage) -> (r: BuildSize)
        ensures
            r.ram_used == u.ram_used,
            r.ram_total == u.ram_total,
            r.flash_used == u.flash_used,
            r.flash_total == u.flash_total,
    {
        BuildSize { ram_used: u.ram_used, ram_total: u.ram_total, flash_used: u.flash_used, flash_total: u.flash_total }
    }
}

impl<'a> From<&'a SizeUsage> for BuildSize {
    fn from(u: &'a SizeUsage) -> (r: BuildSize) {
        BuildSize::from_usage(u)
    }
}

impl<'a> vstd::std_specs::convert::FromSpecImpl<&'a SizeUsage> for BuildSize {
    open spec fn obeys_from_spec() -> bool {
        true
    }

    open spec fn from_spec(u: &'a SizeUsage) -> BuildSize {
        BuildSize { ram_used: u.ram_used, ram_total: u.ram_total, flash_used: u.flash_used, flash_total: u.flash_total }
    }
}

#[derive(Debug, Clone)]
pub struct BuildRecord {
    pub id: String,
    /// RFC 3339.
    pub at: String,
    pub env: String,
    pub kind: BuildKind,
    pub success: bool,
    pub duration_ms: u64,
    pub snapshot: Option<String>,
    pub size: Option<BuildSize>,
    pub defect_count: DefectCount,
}

#[derive(Debug, Clone)]
pub struct BuildHistory {
    pub schema_version: u32,
    pub last_good_snapshot: Option<String>,
    pub builds: Vec<BuildRecord>,
}

/// A successful build or upload: the kind of run whose snapshot and size count.
pub open spec fn is_good_firmware(r: BuildRecord) -> bool {
    r.success && (r.kind == BuildKind::Build || r.kind == BuildKind::Upload)
}

/// The size of the newest good build or upload of `env`, if it recorded one.
pub open spec fn previous_size_spec(builds: Seq<BuildRecord>, env: Seq<char>) -> Option<BuildSize>
    decreases builds.len(),
{
    if builds.len() == 0 {
        None
    } else if builds.last().env@ == env && is_good_firmware(builds.last()) {
        builds.last().size
    } else {
        previous_size_spec(builds.drop_last(), env)
    }
}

/// The builds after appending `r`, keeping only the newest `MAX_BUILDS`.
pub open spec fn capped_push(builds: Seq<BuildRecord>, r: BuildRecord) -> Seq<BuildRecord> {
    let all = builds.push(r);
    if all.len() > MAX_BUILDS {
        all.skip(all.len() - MAX_BUILDS)
    } else {
        all
    }
}

impl BuildHistory {
    pub fn empty() -> (r: BuildHistory)
        ensures
            r.schema_version == CURRENT_SCHEMA_VERSION,
            r.last_good_snapshot is None,
            r.builds@.len() == 0,
    {
        BuildHistory { schema_version: CURRENT_SCHEMA_VERSION, last_good_snapshot: None, builds: Vec::new() }
    }

    /// The size of the newest successful build or upload of `env`, against which the next
    /// one's delta is computed.
    pub fn previous_size(&self, env: &str) -> (r: Option<BuildSize>)
        ensures
            r == previous_size_spec(self.builds@, env@),
    {
        let w = crate::text::str_chars(env);
        let mut i = self.builds.len();
        assert(self.builds@.take(i as int) =~= self.builds@);
        while i > 0
            invariant
                i <= self.builds@.len(),
                w@ == env@,
                previous_size_spec(self.builds@, env@) == previous_size_spec(self.builds@.take(i as int), env@),
            decreases i,
        {
            let k = i - 1;
            let b = &self.builds[k];
            assert(self.builds@.take(i as int).last() == self.builds@[k as int]);
            assert(self.builds@.take(i as int).drop_last() =~= self.builds@.take(k as int));
            let good = b.success && (matches!(b.kind, BuildKind::Build) || matches!(b.kind, BuildKind::Upload));
            if good && crate::text::str_eq_chars(b.env.as_str(), w.as_slice()) {
                return b.size;
            }
            i = k;
        }
        None
    }
}

/// Appends `record`, keeping the newest `MAX_BUILDS` entries; a good build or upload with
/// a snapshot becomes the last good snapshot.
pub fn record_build(history: &mut BuildHistory, record: BuildRecord)
    ensures
        final(history).builds@ == capped_push(old(history).builds@, record),
        final(history).last_good_snapshot == (if is_good_firmware(record) && record.snapshot is Some {
            record.snapshot
        } else {
            old(history).last_good_snapshot
        }),
        final(history).schema_version == old(history).schema_version,
{
    if record.success && (matches!(record.kind, BuildKind::Build) || matches!(record.kind, BuildKind::Upload)) {
        match &record.snapshot {
            Some(s) => {
                history.last_good_snapshot = Some(s.clone());
            },
            None => {},
        }
    }
    history.builds.push(record);
    if history.builds.len() > MAX_BUILDS {
        let excess = history.builds.len() - MAX_BUILDS;
        let kept = history.builds.split_off(excess);
        history.builds = kept;
    }
}

/// The history never holds more than `MAX_BUILDS` entries, and the record just appended is
/// always the newest one kept.
pub proof fn law_history_is_capped(builds: Seq<BuildRecord>, r: BuildRecord)
    requires
        builds.len() <= MAX_BUILDS,
    ensures
        capped_push(builds, r).len() <= MAX_BUILDS,
        capped_push(builds, r).last() == r,
{
}

/// A failed run, or one that is not a build or upload, never changes which size the next
/// delta is computed against.
pub proof fn law_only_good_builds_count(builds: Seq<BuildRecord>, r: BuildRecord, env: Seq<char>)
    requires
        !is_good_firmware(r) || r.env@ != env,
        builds.len() < MAX_BUILDS,
    ensures
        previous_size_spec(capped_push(builds, r), env) == previous_size_spec(builds, env),
{
    assert(builds.push(r).drop_last() =~= builds);
}

} // verus!

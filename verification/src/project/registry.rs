//! The app-wide project registry: reconciled by project id, never by path, and never
//! silently dropping a project whose folder went missing.
use crate::project::types::{ProjectEntry, ProjectRegistry, ProjectRegistryEntry};
use crate::device::list::copy_opt;
use crate::text::str_eq;
use vstd::prelude::*;

verus! {

pub const CURRENT_SCHEMA_VERSION: u32 = 1;

/// The index of the first project with id `id`, or -1.
pub open spec fn index_of_id(s: Seq<ProjectRegistryEntry>, id: Seq<char>) -> int
    decreases s.len(),
{
    if s.len() == 0 {
        -1
    } else {
        let r = index_of_id(s.drop_last(), id);
        if r >= 0 {
            r
        } else if s.last().id@ == id {
            s.len() - 1
        } else {
            -1
        }
    }
}

/// The projects after an upsert: the first project with the same id replaced in place, or
/// the entry appended.
pub open spec fn upsert_spec(s: Seq<ProjectRegistryEntry>, e: ProjectRegistryEntry) -> Seq<ProjectRegistryEntry> {
    let i = index_of_id(s, e.id@);
    if i >= 0 {
        s.update(i, e)
    } else {
        s.push(e)
    }
}

/// The projects without any whose id is `id`, in their order.
pub open spec fn forget_spec(s: Seq<ProjectRegistryEntry>, id: Seq<char>) -> Seq<ProjectRegistryEntry>
    decreases s.len(),
{
    if s.len() == 0 {
        Seq::empty()
    } else if s.last().id@ == id {
        forget_spec(s.drop_last(), id)
    } else {
        forget_spec(s.drop_last(), id).push(s.last())
    }
}

/// No two projects share an id.
pub open spec fn ids_unique(s: Seq<ProjectRegistryEntry>) -> bool {
    forall|i: int, j: int| 0 <= i < j < s.len() ==> (#[trigger] s[i]).id@ != (#[trigger] s[j]).id@
}

pub proof fn lemma_index_of_id(s: Seq<ProjectRegistryEntry>, id: Seq<char>)
    ensures
        -1 <= index_of_id(s, id) < s.len(),
        index_of_id(s, id) >= 0 ==> s[index_of_id(s, id)].id@ == id,
        index_of_id(s, id) >= 0 ==> forall|k: int| 0 <= k < index_of_id(s, id) ==> (#[trigger] s[k]).id@ != id,
        index_of_id(s, id) == -1 ==> forall|k: int| 0 <= k < s.len() ==> (#[trigger] s[k]).id@ != id,
    decreases s.len(),
{
    if s.len() > 0 {
        lemma_index_of_id(s.drop_last(), id);
        assert forall|k: int| 0 <= k < s.len() - 1 implies s.drop_last()[k] == #[trigger] s[k] by {}
    }
}

proof fn lemma_index_of_id_prefix(s: Seq<ProjectRegistryEntry>, id: Seq<char>, k: int)
    requires
        0 <= k <= s.len(),
        index_of_id(s.take(k), id) >= 0,
    ensures
        index_of_id(s, id) == index_of_id(s.take(k), id),
    decreases s.len() - k,
{
    if k < s.len() {
        assert(s.take(k + 1).drop_last() =~= s.take(k));
        lemma_index_of_id_prefix(s, id, k + 1);
    } else {
        assert(s.take(k) =~= s);
    }
}

fn position(projects: &Vec<ProjectRegistryEntry>, id: &str) -> (r: Option<usize>)
    ensures
        match r {
            Some(i) => index_of_id(projects@, id@) == i as int && i < projects@.len(),
            None => index_of_id(projects@, id@) == -1,
        },
{
    let mut i: usize = 0;
    while i < projects.len()
        invariant
            i <= projects@.len(),
            index_of_id(projects@.take(i as int), id@) == -1,
        decreases projects@.len() - i,
    {
        assert(projects@.take(i + 1).drop_last() =~= projects@.take(i as int));
        if str_eq(projects[i].id.as_str(), id) {
            proof {
                lemma_index_of_id_prefix(projects@, id@, i + 1);
            }
            return Some(i);
        }
        i += 1;
    }
    assert(projects@.take(projects@.len() as int) =~= projects@);
    None
}

/// Inserts `entry`, or replaces the project with the same id in place: a moved folder
/// updates its row instead of adding a second one.
pub fn upsert(registry: &mut ProjectRegistry, entry: ProjectRegistryEntry)
    ensures
        final(registry).projects@ == upsert_spec(old(registry).projects@, entry),
        final(registry).schema_version == old(registry).schema_version,
{
    match position(&registry.projects, entry.id.as_str()) {
        Some(i) => {
            registry.projects.set(i, entry);
        },
        None => {
            registry.projects.push(entry);
        },
    }
}

/// Removes every project with id `id`; the others keep their order.
pub fn forget(registry: &mut ProjectRegistry, id: &str)
    ensures
        final(registry).projects@ == forget_spec(old(registry).projects@, id@),
        final(registry).schema_version == old(registry).schema_version,
{
    let ghost orig = registry.projects@;
    let mut i: usize = 0;
    let ghost mut j: int = 0;
    while i < registry.projects.len()
        invariant
            0 <= j <= orig.len(),
            i <= registry.projects@.len(),
            registry.projects@.take(i as int) == forget_spec(orig.take(j), id@),
            registry.projects@.skip(i as int) == orig.skip(j),
            registry.schema_version == old(registry).schema_version,
            orig == old(registry).projects@,
        decreases registry.projects@.len() - i,
    {
        let ghost before = registry.projects@;
        proof {
            assert(before.skip(i as int).len() > 0);
            assert(orig.skip(j).len() == orig.len() - j);
            assert(j < orig.len());
            assert(orig.skip(j)[0] == before.skip(i as int)[0]);
            assert(orig.take(j + 1).drop_last() =~= orig.take(j));
            assert(orig.take(j + 1).last() == orig[j]);
            assert(before[i as int] == orig[j]);
            assert(orig.skip(j + 1) =~= orig.skip(j).drop_first());
            assert(before.skip(i + 1) =~= before.skip(i as int).drop_first());
        }
        if str_eq(registry.projects[i].id.as_str(), id) {
            registry.projects.remove(i);
            proof {
                assert(registry.projects@.take(i as int) =~= before.take(i as int));
                assert(registry.projects@.skip(i as int) =~= before.skip(i + 1));
                j = j + 1;
            }
        } else {
            proof {
                assert(registry.projects@.take(i + 1) =~= before.take(i as int).push(orig[j]));
                assert(registry.projects@.skip(i + 1) =~= before.skip(i + 1));
                j = j + 1;
            }
            i += 1;
        }
    }
    proof {
        assert(orig.skip(j).len() == 0);
        assert(orig.take(j) =~= orig);
        assert(registry.projects@.take(i as int) =~= registry.projects@);
    }
}

/// The first project with id `id`.
pub fn find<'a>(registry: &'a ProjectRegistry, id: &str) -> (r: Option<&'a ProjectRegistryEntry>)
    ensures
        match r {
            Some(p) => index_of_id(registry.projects@, id@) >= 0 && *p == registry.projects@[index_of_id(registry.projects@, id@)],
            None => index_of_id(registry.projects@, id@) == -1,
        },
{
    match position(&registry.projects, id) {
        Some(i) => Some(&registry.projects[i]),
        None => None,
    }
}

/// The list shown to the user: every project, each flagged with whether its folder
/// exists (`path_exists[i]` for the `i`-th project, as the caller found it on disk; a
/// missing flag counts as not existing). A missing folder is flagged, never dropped.
pub fn to_ipc_entries(registry: &ProjectRegistry, path_exists: &Vec<bool>) -> (r: Vec<ProjectEntry>)
    ensures
        r@.len() == registry.projects@.len(),
        forall|i: int| 0 <= i < r@.len() ==> entry_matches(#[trigger] r@[i], registry.projects@[i], i < path_exists@.len() && path_exists@[i]),
{
    let mut out: Vec<ProjectEntry> = Vec::new();
    let mut i: usize = 0;
    while i < registry.projects.len()
        invariant
            i <= registry.projects@.len(),
            out@.len() == i,
            forall|k: int| 0 <= k < i ==> entry_matches(#[trigger] out@[k], registry.projects@[k], k < path_exists@.len() && path_exists@[k]),
        decreases registry.projects@.len() - i,
    {
        let p = &registry.projects[i];
        let ex = i < path_exists.len() && path_exists[i];
        out.push(ProjectEntry {
            id: p.id.clone(),
            name: p.name.clone(),
            path: p.path.clone(),
            board_id: copy_opt(&p.board_id),
            active_env: copy_opt(&p.active_env),
            last_opened: copy_opt(&p.last_opened),
            last_build_ok: p.last_build_ok,
            exists: ex,
            trusted: p.trusted,
        });
        i += 1;
    }
    out
}

/// The list entry of a registered project carries its fields and the existence flag.
pub open spec fn entry_matches(e: ProjectEntry, p: ProjectRegistryEntry, exists_flag: bool) -> bool {
    &&& e.id == p.id
    &&& e.name == p.name
    &&& e.path == p.path
    &&& e.board_id == p.board_id
    &&& e.active_env == p.active_env
    &&& e.last_opened == p.last_opened
    &&& e.last_build_ok == p.last_build_ok
    &&& e.exists == exists_flag
    &&& e.trusted == p.trusted
}

/// After an upsert, looking the entry's id up finds exactly that entry.
pub proof fn law_find_after_upsert(s: Seq<ProjectRegistryEntry>, e: ProjectRegistryEntry)
    ensures
        index_of_id(upsert_spec(s, e), e.id@) >= 0,
        upsert_spec(s, e)[index_of_id(upsert_spec(s, e), e.id@)] == e,
{
    lemma_index_of_id(s, e.id@);
    let i = index_of_id(s, e.id@);
    let u = upsert_spec(s, e);
    if i >= 0 {
        assert(u.take(i + 1).drop_last() =~= s.take(i));
        lemma_prefix_absent(s, e.id@, i);
        assert(index_of_id(u.take(i), e.id@) == -1) by {
            assert(u.take(i) =~= s.take(i));
        }
        assert(index_of_id(u.take(i + 1), e.id@) == i);
        lemma_index_of_id_prefix(u, e.id@, i + 1);
    } else {
        assert(u.drop_last() =~= s);
    }
}

proof fn lemma_prefix_absent(s: Seq<ProjectRegistryEntry>, id: Seq<char>, i: int)
    requires
        0 <= i <= s.len(),
        forall|k: int| 0 <= k < i ==> (#[trigger] s[k]).id@ != id,
    ensures
        index_of_id(s.take(i), id) == -1,
    decreases i,
{
    if i > 0 {
        assert(s.take(i).drop_last() =~= s.take(i - 1));
        lemma_prefix_absent(s, id, i - 1);
    }
}

/// After forgetting an id, no project has it; every project with another id is kept.
pub proof fn law_forget_removes_only_that_id(s: Seq<ProjectRegistryEntry>, id: Seq<char>)
    ensures
        index_of_id(forget_spec(s, id), id) == -1,
        forall|i: int| 0 <= i < s.len() && (#[trigger] s[i]).id@ != id ==> forget_spec(s, id).contains(s[i]),
    decreases s.len(),
{
    if s.len() > 0 {
        law_forget_removes_only_that_id(s.drop_last(), id);
        let f0 = forget_spec(s.drop_last(), id);
        if s.last().id@ != id {
            assert(f0.push(s.last()).drop_last() =~= f0);
            assert(f0.push(s.last())[f0.len() as int] == s.last());
        }
        assert forall|i: int| 0 <= i < s.len() && (#[trigger] s[i]).id@ != id implies forget_spec(s, id).contains(s[i]) by {
            if i < s.len() - 1 {
                assert(s.drop_last()[i] == s[i]);
                let k = choose|k: int| 0 <= k < f0.len() && f0[k] == s[i];
                if s.last().id@ != id {
                    assert(f0.push(s.last())[k] == s[i]);
                }
            } else {
                assert(forget_spec(s, id)[forget_spec(s, id).len() - 1] == s.last());
            }
        }
    }
}

/// An upsert never makes two projects share an id.
pub proof fn law_upsert_keeps_ids_unique(s: Seq<ProjectRegistryEntry>, e: ProjectRegistryEntry)
    requires
        ids_unique(s),
    ensures
        ids_unique(upsert_spec(s, e)),
{
    lemma_index_of_id(s, e.id@);
}

/// With ids unique, an upsert replaces in place the one project that has the entry's id
/// (same length, same position), or else appends the entry at the end.
pub proof fn law_upsert_replaces_or_appends(s: Seq<ProjectRegistryEntry>, e: ProjectRegistryEntry)
    requires
        ids_unique(s),
    ensures
        forall|i: int| 0 <= i < s.len() && (#[trigger] s[i]).id@ == e.id@ ==> upsert_spec(s, e) == s.update(i, e),
        (forall|i: int| 0 <= i < s.len() ==> (#[trigger] s[i]).id@ != e.id@) ==> upsert_spec(s, e) == s.push(e),
{
    lemma_index_of_id(s, e.id@);
    assert forall|i: int| 0 <= i < s.len() && (#[trigger] s[i]).id@ == e.id@ implies upsert_spec(s, e) == s.update(i, e) by {
        let j = index_of_id(s, e.id@);
        if j != i {
            if j < i {
                assert(s[j].id@ == s[i].id@);
            }
        }
    }
}

} // verus!

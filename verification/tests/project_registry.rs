use vibe_core::project::registry::{find, forget, to_ipc_entries, upsert, CURRENT_SCHEMA_VERSION};
use vibe_core::project::types::{ProjectRegistry, ProjectRegistryEntry};

fn sample_entry(id: &str, path: &str) -> ProjectRegistryEntry {
    ProjectRegistryEntry {
        id: id.into(),
        name: "greenhouse-sensor".into(),
        path: path.into(),
        board_id: Some("esp32dev".into()),
        active_env: Some("esp32dev".into()),
        last_opened: Some("2026-09-20T09:12:44Z".into()),
        last_build_ok: Some(true),
        trusted: true,
    }
}

fn empty() -> ProjectRegistry {
    ProjectRegistry { schema_version: CURRENT_SCHEMA_VERSION, projects: vec![] }
}

#[test]
fn upsert_reconciles_by_id_not_path() {
    let mut r = empty();
    upsert(&mut r, sample_entry("id-1", "/old/path"));
    upsert(&mut r, sample_entry("id-1", "/new/path"));
    assert_eq!(r.projects.len(), 1);
    assert_eq!(r.projects[0].path, "/new/path");
}

#[test]
fn upsert_adds_a_new_row_for_a_different_id() {
    let mut r = empty();
    upsert(&mut r, sample_entry("id-1", "/a"));
    upsert(&mut r, sample_entry("id-2", "/b"));
    assert_eq!(r.projects.len(), 2);
}

#[test]
fn forget_removes_only_the_matching_entry() {
    let mut r = empty();
    upsert(&mut r, sample_entry("id-1", "/a"));
    upsert(&mut r, sample_entry("id-2", "/b"));
    forget(&mut r, "id-1");
    assert_eq!(r.projects.len(), 1);
    assert_eq!(r.projects[0].id, "id-2");
}

#[test]
fn find_returns_the_entry_with_that_id() {
    let mut r = empty();
    upsert(&mut r, sample_entry("id-1", "/a"));
    upsert(&mut r, sample_entry("id-2", "/b"));
    assert_eq!(find(&r, "id-2").map(|p| p.path.as_str()), Some("/b"));
    assert!(find(&r, "id-3").is_none());
    forget(&mut r, "id-2");
    assert!(find(&r, "id-2").is_none());
}

#[test]
fn missing_paths_are_flagged_not_dropped() {
    let mut r = empty();
    upsert(&mut r, sample_entry("id-1", "/here"));
    upsert(&mut r, sample_entry("id-2", "/definitely/does/not/exist/anywhere"));
    let entries = to_ipc_entries(&r, &vec![true, false]);
    let real = entries.iter().find(|e| e.id == "id-1").unwrap();
    let gone = entries.iter().find(|e| e.id == "id-2").unwrap();
    assert!(real.exists);
    assert!(!gone.exists);
    assert_eq!(entries.len(), 2);
    assert_eq!(gone.path, "/definitely/does/not/exist/anywhere");
    assert_eq!(gone.board_id.as_deref(), Some("esp32dev"));
}

#[test]
fn a_missing_existence_flag_counts_as_missing() {
    let mut r = empty();
    upsert(&mut r, sample_entry("id-1", "/a"));
    let entries = to_ipc_entries(&r, &vec![]);
    assert!(!entries[0].exists);
}

use vibe_core::error::AppError;
use vibe_core::project::lifecycle::{
    created_project_settings, entry_path, env_value, framework_for, heal_registry_paths, mark_trusted, opened_project_settings,
    registry_entry_for, set_active_env,
};
use vibe_core::project::types::{CreatedBy, ProjectRegistry, ProjectRegistryEntry};

const INI: &str = "[platformio]\ndefault_envs = uno\n\n[env:uno]\nboard = uno\nframework = arduino\n\n[env:esp]\nboard = esp32dev\nframework = espidf\n";

fn entry(id: &str, path: &str) -> ProjectRegistryEntry {
    ProjectRegistryEntry {
        id: id.into(),
        name: "n".into(),
        path: path.into(),
        board_id: None,
        active_env: None,
        last_opened: None,
        last_build_ok: None,
        trusted: false,
    }
}

#[test]
fn an_opened_folder_starts_untrusted_on_its_first_environment() {
    let s = opened_project_settings(None, Some("greenhouse"), INI);
    assert!(!s.trusted);
    assert_eq!(s.created_by, CreatedBy::Opened);
    assert_eq!(s.name, "greenhouse");
    assert_eq!(s.active_env.as_deref(), Some("uno"));
    let unnamed = opened_project_settings(None, None, "");
    assert_eq!(unnamed.name, "project");
    assert_eq!(unnamed.active_env, None);
}

#[test]
fn stored_settings_keep_their_environment() {
    let mut stored = created_project_settings("mine", "esp");
    assert!(stored.trusted);
    stored.active_env = Some("esp".into());
    let s = opened_project_settings(Some(stored.clone()), Some("other"), INI);
    assert_eq!(s.id, stored.id);
    assert_eq!(s.active_env.as_deref(), Some("esp"));
}

#[test]
fn board_and_framework_come_from_the_active_environment() {
    assert_eq!(env_value(INI, Some("esp"), "board").as_deref(), Some("esp32dev"));
    assert_eq!(env_value(INI, None, "board"), None);
    assert_eq!(framework_for(INI, Some("esp")), "espidf");
    assert_eq!(framework_for(INI, Some("missing")), "arduino");
}

#[test]
fn registry_rows_follow_the_settings() {
    let s = created_project_settings("mine", "uno");
    let e = registry_entry_for(&s, "/ws/mine", Some("uno".into()));
    assert_eq!(e.id, s.id);
    assert!(e.trusted);
    assert_eq!(e.path, "/ws/mine");
    assert!(e.last_opened.is_some());
}

#[test]
fn rows_are_updated_in_place_by_id() {
    let mut reg = ProjectRegistry { schema_version: 1, projects: vec![entry("a", "/a"), entry("b", "/b")] };
    mark_trusted(&mut reg, "b");
    set_active_env(&mut reg, "a", "uno".into());
    set_active_env(&mut reg, "zzz", "uno".into());
    assert!(!reg.projects[0].trusted && reg.projects[1].trusted);
    assert_eq!(reg.projects[0].active_env.as_deref(), Some("uno"));
    assert_eq!(reg.projects[1].active_env, None);
    assert_eq!(entry_path(&reg, "b").unwrap(), "/b");
    assert!(matches!(entry_path(&reg, "c"), Err(AppError::Io { .. })));
}

#[test]
fn verbatim_paths_are_healed_and_reported() {
    let mut reg = ProjectRegistry { schema_version: 1, projects: vec![entry("a", r"\\?\C:\p"), entry("b", "/b")] };
    assert!(heal_registry_paths(&mut reg, true));
    assert_eq!(reg.projects[0].path, r"C:\p");
    assert!(!heal_registry_paths(&mut reg, true));
    let mut other = ProjectRegistry { schema_version: 1, projects: vec![entry("a", r"\\?\C:\p")] };
    assert!(!heal_registry_paths(&mut other, false));
}

#[test]
fn a_created_project_starts_with_every_preference_unset() {
    let s = created_project_settings("mine", "uno");
    assert_eq!(s.schema_version, 1);
    assert_eq!(s.id.len(), 36);
    assert_eq!(s.name, "mine");
    assert!(s.trusted);
    assert_eq!(s.active_env.as_deref(), Some("uno"));
    assert!(s.device.preferred_port.is_none() && s.device.sticky_hwid.is_none());
    assert!(s.claude.session_id.is_none() && s.claude.permission_policy.is_none() && s.claude.model.is_none());
    assert!(s.pipeline.policy.is_none());
    assert!(s.trust_scan_at.is_none());
}

#[test]
fn stored_settings_come_back_unchanged_but_for_an_unset_environment() {
    let mut stored = created_project_settings("mine", "esp");
    stored.device.preferred_port = Some("/dev/ttyUSB0".into());
    stored.trust_scan_at = Some("2026-01-01T00:00:00+00:00".into());
    stored.active_env = None;
    let s = opened_project_settings(Some(stored.clone()), Some("other"), INI);
    let mut expected = stored.clone();
    expected.active_env = Some("uno".into());
    assert_eq!(s, expected);
}

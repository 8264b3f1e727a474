use vibe_core::ini::patch::{apply_edits, IniEdit};
use vibe_core::project::templates::{
    merge_edits, new_template, slug_from_lowercase, slugify, sort_by_name, template_file_name, IniTemplate,
    CURRENT_SCHEMA_VERSION,
};

fn template(ini: &str) -> IniTemplate {
    IniTemplate {
        schema_version: 1,
        name: "t".into(),
        created_at: "2026-01-01T00:00:00Z".into(),
        ini: ini.into(),
        board_id: None,
        claude_md: None,
    }
}

#[test]
fn slugify_lowercases_and_collapses_punctuation() {
    assert_eq!(slugify("ESP32 + MQTT starter"), "esp32-mqtt-starter");
    assert_eq!(slugify("  leading/trailing  "), "leading-trailing");
    assert_eq!(slugify("---"), "template");
    assert_eq!(slugify(""), "template");
}

#[test]
fn slugs_drop_non_ascii_letters_after_lowercasing() {
    assert_eq!(slugify("Über Board"), "ber-board");
    assert_eq!(slug_from_lowercase("a--b"), "a-b");
    assert_eq!(template_file_name("My Board Setup"), "my-board-setup.json");
}

#[test]
fn merge_edits_only_touches_env_sections() {
    let t = template("[platformio]\ndefault_envs = esp32dev\n\n[env:esp32dev]\nboard = esp32dev\nmonitor_speed = 115200\n");
    let edits = merge_edits(&t);
    assert!(!edits.iter().any(|e| matches!(e, IniEdit::AddSection { name } if name == "platformio")));
    assert!(edits.iter().any(|e| matches!(e, IniEdit::AddSection { name } if name == "env:esp32dev")));
    assert!(edits.iter().any(|e| matches!(e, IniEdit::SetValue { name, .. } if name == "board")));
    assert!(edits.iter().any(|e| matches!(e, IniEdit::SetValue { name, .. } if name == "monitor_speed")));
    assert_eq!(edits.len(), 3);
}

#[test]
fn merging_into_an_existing_project_overwrites_only_the_named_keys() {
    let target = "[platformio]\ndefault_envs = esp32dev\n\n[env:esp32dev]\nboard = esp32dev\nframework = arduino\n";
    let t = template("[env:esp32dev]\nmonitor_speed = 115200\n");
    let merged = apply_edits(target, &merge_edits(&t));
    assert!(merged.contains("framework = arduino"));
    assert!(merged.contains("monitor_speed = 115200"));
    assert!(merged.contains("default_envs = esp32dev"));
}

fn named(name: &str) -> IniTemplate {
    let mut t = template("[env:x]\n");
    t.name = name.to_string();
    t
}

#[test]
fn templates_list_in_name_order() {
    let sorted = sort_by_name(vec![named("beta"), named("Zeta"), named("alpha"), named("beta")]);
    let names: Vec<&str> = sorted.iter().map(|t| t.name.as_str()).collect();
    assert_eq!(names, vec!["Zeta", "alpha", "beta", "beta"]);
    assert!(sort_by_name(Vec::new()).is_empty());
}

#[test]
fn a_new_template_is_stamped_with_the_current_schema() {
    let t = new_template("My Board", "[env:x]\n".to_string(), Some("esp32dev".to_string()), None);
    assert_eq!(t.schema_version, CURRENT_SCHEMA_VERSION);
    assert_eq!(t.name, "My Board");
    assert_eq!(t.ini, "[env:x]\n");
    assert_eq!(t.board_id.as_deref(), Some("esp32dev"));
    assert!(t.claude_md.is_none());
    assert!(t.created_at.len() >= 25 && t.created_at.ends_with("+00:00"));
}

#[test]
fn a_slug_is_its_own_slug() {
    for name in ["My Board Setup", "ÄÖÜ -- weird__name!!", "", "already-a-slug-42"] {
        let s = slugify(name);
        assert!(s.chars().all(|c| c.is_ascii_lowercase() || c.is_ascii_digit() || c == '-'));
        assert_eq!(slugify(&s), s);
    }
}

#[test]
fn templates_of_equal_name_keep_their_order() {
    let mut first = named("beta");
    first.ini = "[env:first]\n".to_string();
    let mut second = named("beta");
    second.ini = "[env:second]\n".to_string();
    let sorted = sort_by_name(vec![first, named("alpha"), second, named("gamma")]);
    let got: Vec<(&str, &str)> = sorted.iter().map(|t| (t.name.as_str(), t.ini.as_str())).collect();
    assert_eq!(
        got,
        vec![("alpha", "[env:x]\n"), ("beta", "[env:first]\n"), ("beta", "[env:second]\n"), ("gamma", "[env:x]\n")]
    );
}

use vibe_core::ini::document::{build_document, EffectiveSection};

fn eff(name: &str, opts: &[(&str, &[&str])]) -> EffectiveSection {
    EffectiveSection {
        name: name.to_string(),
        options: opts.iter().map(|(n, v)| (n.to_string(), v.iter().map(|s| s.to_string()).collect())).collect(),
    }
}

const MULTIENV: &str = "\
[platformio]
default_envs = esp32-c6-devkitm-1

[env]
monitor_speed = 115200

[env:esp32-c6-devkitm-1]
platform = espressif32
board = esp32-c6-devkitm-1
framework = arduino

[env:esp32-c6-devkitm-1-ota]
extends = env:esp32-c6-devkitm-1
upload_protocol = espota
";

#[test]
fn the_preamble_pseudo_section_is_not_included_in_the_document() {
    let raw = "; a comment\n\n[env:x]\nboard = esp32dev\n";
    let document = build_document(raw, &Vec::new(), 0);
    assert!(!document.sections.iter().any(|s| s.name.is_empty()));
    assert_eq!(document.sections.len(), 1);
}

#[test]
fn raw_and_mtime_pass_through_unchanged() {
    let raw = "[env:x]\nboard = esp32dev\n";
    let document = build_document(raw, &Vec::new(), 12345);
    assert_eq!(document.raw, raw);
    assert_eq!(document.mtime_ms, 12345);
}

#[test]
fn monitor_speed_shows_as_inherited_from_env_in_the_named_env_section() {
    let effective = vec![
        eff("env:esp32-c6-devkitm-1", &[("board", &["esp32-c6-devkitm-1"]), ("framework", &["arduino"]), ("monitor_speed", &["115200"]), ("platform", &["espressif32"])]),
    ];
    let document = build_document(MULTIENV, &effective, 0);
    let esp = document.sections.iter().find(|s| s.name == "env:esp32-c6-devkitm-1").expect("env section");
    assert!(!esp.declared.iter().any(|e| e.name == "monitor_speed"));
    let monitor_speed = esp.effective.iter().find(|e| e.name == "monitor_speed").expect("effective monitor_speed");
    assert_eq!(monitor_speed.values, vec!["115200"]);
    assert_eq!(monitor_speed.inherited_from.as_deref(), Some("env"));
    let board = esp.effective.iter().find(|e| e.name == "board").expect("effective board");
    assert_eq!(board.inherited_from, None);
}

#[test]
fn extends_chain_resolves_inherited_from_to_the_extended_section() {
    let effective = vec![
        eff("env:esp32-c6-devkitm-1-ota", &[("board", &["esp32-c6-devkitm-1"]), ("extends", &["env:esp32-c6-devkitm-1"]), ("upload_protocol", &["espota"])]),
    ];
    let document = build_document(MULTIENV, &effective, 0);
    let ota = document.sections.iter().find(|s| s.name == "env:esp32-c6-devkitm-1-ota").expect("ota section");
    let board = ota.effective.iter().find(|e| e.name == "board").expect("effective board");
    assert_eq!(board.inherited_from.as_deref(), Some("env:esp32-c6-devkitm-1"));
    let upload_protocol = ota.effective.iter().find(|e| e.name == "upload_protocol").expect("effective upload_protocol");
    assert_eq!(upload_protocol.inherited_from, None);
}

#[test]
fn declared_values_win_over_the_effective_ones_and_untraceable_defaults_have_no_origin() {
    let effective = vec![eff("platformio", &[("default_envs", &["other"]), ("core_dir", &["/x"])])];
    let document = build_document(MULTIENV, &effective, 0);
    let p = document.sections.iter().find(|s| s.name == "platformio").unwrap();
    assert_eq!(p.effective[0].values, vec!["esp32-c6-devkitm-1"]);
    assert_eq!(p.effective[1].values, vec!["/x"]);
    assert_eq!(p.effective[1].inherited_from, None);
    let env = document.sections.iter().find(|s| s.name == "env").unwrap();
    assert!(env.effective.is_empty());
    assert_eq!(env.declared.len(), 1);
}

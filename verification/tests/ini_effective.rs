use vibe_core::ini::effective::effective_config;

fn opts(v: &[(&str, &[&str])]) -> Vec<(String, Vec<String>)> {
    v.iter().map(|(n, vals)| (n.to_string(), vals.iter().map(|s| s.to_string()).collect())).collect()
}

#[test]
fn sections_and_options_come_out_in_name_order_with_the_last_value() {
    let listed = vec![
        ("env:b".to_string(), opts(&[("upload_speed", &["921600"]), ("board", &["esp32dev"]), ("board", &["esp32-c6"])])),
        ("env".to_string(), opts(&[("monitor_speed", &["115200"])])),
        ("env:b".to_string(), opts(&[("framework", &["arduino"]), ("board", &["uno"])])),
    ];
    let cfg = effective_config(listed);
    let names: Vec<&str> = cfg.iter().map(|s| s.name.as_str()).collect();
    assert_eq!(names, vec!["env", "env:b"]);
    assert_eq!(cfg[1].options, opts(&[("board", &["uno"]), ("framework", &["arduino"])]));
    assert_eq!(cfg[0].options, opts(&[("monitor_speed", &["115200"])]));
    assert!(effective_config(Vec::new()).is_empty());
}

use vibe_core::error::AppError;
use vibe_core::ini::document::EffectiveSection;
use vibe_core::ini::effective::parse_effective_config;

fn option<'a>(cfg: &'a [EffectiveSection], section: &str, name: &str) -> &'a Vec<String> {
    let s = cfg.iter().find(|s| s.name == section).expect("section");
    &s.options.iter().find(|(n, _)| n == name).expect("option").1
}

const MULTIENV: &str = r#"[
  ["platformio", [["default_envs", ["esp32-c6-devkitm-1"]]]],
  ["env", [["monitor_speed", 115200]]],
  ["env:esp32-c6-devkitm-1", [
    ["platform", "espressif32"],
    ["board", "esp32-c6-devkitm-1"],
    ["framework", "arduino"],
    ["build_flags", ["-DDEBUG=1", "-Wall"]],
    ["monitor_speed", 115200]
  ]],
  ["env:esp32-c6-devkitm-1-ota", [
    ["extends", ["env:esp32-c6-devkitm-1"]],
    ["platform", "espressif32"],
    ["board", "esp32-c6-devkitm-1"],
    ["framework", "arduino"],
    ["upload_protocol", "espota"],
    ["monitor_speed", 115200]
  ]]
]"#;

#[test]
fn parses_the_real_multienv_capture_with_inheritance_and_extends() {
    let cfg = parse_effective_config(MULTIENV).expect("parse");

    assert_eq!(option(&cfg, "platformio", "default_envs"), &vec!["esp32-c6-devkitm-1"]);
    assert_eq!(option(&cfg, "env", "monitor_speed"), &vec!["115200"]);

    assert_eq!(option(&cfg, "env:esp32-c6-devkitm-1", "board"), &vec!["esp32-c6-devkitm-1"]);
    assert_eq!(option(&cfg, "env:esp32-c6-devkitm-1", "build_flags"), &vec!["-DDEBUG=1", "-Wall"]);
    assert_eq!(option(&cfg, "env:esp32-c6-devkitm-1", "monitor_speed"), &vec!["115200"]);

    assert_eq!(option(&cfg, "env:esp32-c6-devkitm-1-ota", "upload_protocol"), &vec!["espota"]);
    assert_eq!(option(&cfg, "env:esp32-c6-devkitm-1-ota", "board"), &vec!["esp32-c6-devkitm-1"]);
    assert_eq!(option(&cfg, "env:esp32-c6-devkitm-1-ota", "monitor_speed"), &vec!["115200"]);
}

#[test]
fn parses_a_section_with_no_env_or_platformio_prefix() {
    let json = r#"[["env:esp32-c6-devkitm-1", [["board", "esp32-c6-devkitm-1"], ["lib_deps", ["knolleary/PubSubClient@^2.8", "bblanchon/ArduinoJson@^7.0.0"]]]]]"#;
    let cfg = parse_effective_config(json).expect("parse");
    assert_eq!(
        option(&cfg, "env:esp32-c6-devkitm-1", "lib_deps"),
        &vec!["knolleary/PubSubClient@^2.8", "bblanchon/ArduinoJson@^7.0.0"]
    );
}

#[test]
fn malformed_json_returns_a_typed_error_not_a_panic() {
    assert!(parse_effective_config("not json").is_err());
    assert!(parse_effective_config("{}").is_err());
}

#[test]
fn an_empty_array_yields_an_empty_config() {
    let cfg = parse_effective_config("[]").expect("parse");
    assert!(cfg.is_empty());
}

#[test]
fn the_two_errors_carry_their_messages() {
    match parse_effective_config("{}") {
        Err(AppError::Io { message }) => assert_eq!(message, "`pio project config --json-output` was not a JSON array"),
        other => panic!("unexpected {other:?}"),
    }
    match parse_effective_config("not json") {
        Err(AppError::Io { message }) => assert!(message.starts_with("parsing `pio project config --json-output`: ")),
        other => panic!("unexpected {other:?}"),
    }
}

#[test]
fn entries_of_the_wrong_shape_are_skipped_and_scalars_become_text() {
    let json = r#"[
      "stray",
      ["no_options"],
      ["env:a", [["flag", true], ["nothing", null], ["n", 3], ["nested", [1, "b", {"k": 2}]], "junk", [7, "x"]]],
      ["env:a", [["n", 4]]]
    ]"#;
    let cfg = parse_effective_config(json).expect("parse");
    assert_eq!(cfg.len(), 1);
    assert_eq!(option(&cfg, "env:a", "n"), &vec!["4"]);
    assert_eq!(cfg[0].options.len(), 1);
}

#[test]
fn scalars_of_each_kind_become_text() {
    let json = r#"[["env:a", [["flag", true], ["nothing", null], ["n", 3], ["nested", [1, "b", {"k": 2}]]]]]"#;
    let cfg = parse_effective_config(json).expect("parse");
    assert_eq!(option(&cfg, "env:a", "flag"), &vec!["true"]);
    assert_eq!(option(&cfg, "env:a", "nothing"), &vec![""]);
    assert_eq!(option(&cfg, "env:a", "n"), &vec!["3"]);
    assert_eq!(option(&cfg, "env:a", "nested"), &vec!["1", "b", "{\"k\":2}"]);
}

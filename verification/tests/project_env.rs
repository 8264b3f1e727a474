use vibe_core::project::env::{list_env_names, read_value, read_value_with_fallback};

#[test]
fn finds_env_sections_among_others() {
    let ini = "\
[platformio]
default_envs = esp32dev

[env]
monitor_speed = 115200

[env:esp32dev]
platform = espressif32
board = esp32dev
framework = arduino

[env:esp32dev-ota]
platform = espressif32
board = esp32dev
framework = arduino
upload_protocol = espota
";
    assert_eq!(list_env_names(ini), vec!["esp32dev", "esp32dev-ota"]);
}

#[test]
fn ignores_comments_and_blank_lines() {
    let ini = "\
; a comment mentioning [env:decoy] should not count
# another style of comment [env:also-decoy]

[env:real]
platform = espressif32
";
    assert_eq!(list_env_names(ini), vec!["real"]);
}

#[test]
fn no_env_sections_returns_empty() {
    let ini = "[platformio]\ndefault_envs = esp32dev\n";
    assert!(list_env_names(ini).is_empty());
}

#[test]
fn deduplicates_a_redeclared_section() {
    let ini = "[env:esp32dev]\nplatform = espressif32\n\n[env:esp32dev]\nboard = esp32dev\n";
    assert_eq!(list_env_names(ini), vec!["esp32dev"]);
}

#[test]
fn tolerates_indentation_around_the_brackets() {
    let ini = "   [env:indented]   \nplatform = espressif32\n";
    assert_eq!(list_env_names(ini), vec!["indented"]);
}

const MULTI_ENV_INI: &str = "\
[platformio]
default_envs = esp32dev

[env:esp32dev]
platform = espressif32
board = esp32dev
framework = arduino

[env:uno]
platform = atmelavr
board = uno
framework = arduino
";

#[test]
fn read_value_finds_a_key_in_the_named_section() {
    assert_eq!(read_value(MULTI_ENV_INI, "env:esp32dev", "board"), Some("esp32dev".to_string()));
    assert_eq!(read_value(MULTI_ENV_INI, "env:uno", "board"), Some("uno".to_string()));
    assert_eq!(read_value(MULTI_ENV_INI, "platformio", "default_envs"), Some("esp32dev".to_string()));
}

#[test]
fn read_value_does_not_leak_across_sections() {
    assert_eq!(read_value(MULTI_ENV_INI, "env:uno", "framework"), Some("arduino".to_string()));
    assert_eq!(read_value(MULTI_ENV_INI, "env:does-not-exist", "board"), None);
}

#[test]
fn read_value_missing_key_returns_none() {
    assert_eq!(read_value(MULTI_ENV_INI, "env:esp32dev", "upload_protocol"), None);
}

const INI_WITH_INHERITED_MONITOR: &str = "\
[env]
monitor_speed = 115200

[env:esp32dev]
platform = espressif32
board = esp32dev

[env:uno]
platform = atmelavr
board = uno
monitor_speed = 9600
";

#[test]
fn fallback_inherits_from_the_generic_env_section() {
    assert_eq!(
        read_value_with_fallback(INI_WITH_INHERITED_MONITOR, "esp32dev", "monitor_speed"),
        Some("115200".to_string())
    );
}

#[test]
fn fallback_prefers_the_named_envs_own_value() {
    assert_eq!(read_value_with_fallback(INI_WITH_INHERITED_MONITOR, "uno", "monitor_speed"), Some("9600".to_string()));
}

#[test]
fn fallback_returns_none_when_neither_section_has_the_key() {
    assert_eq!(read_value_with_fallback(INI_WITH_INHERITED_MONITOR, "esp32dev", "upload_protocol"), None);
}

#[test]
fn read_value_splits_at_the_first_equals_and_handles_crlf() {
    assert_eq!(read_value("[a]\r\nk = x=y \r\n", "a", "k"), Some("x=y".to_string()));
}

use vibe_core::ini::parse::{detect_eol, parse, split_lines_keep_ends};

// The captured fixture files these two round-trip tests read are not part of the sources at
// hand; a multi-environment file in the same shape stands in for them.
const REAL_SAMPLE: &str = "; PlatformIO Project Configuration File\n;\n;   Build options: build flags, source filter\n\n[env:esp32-c6-devkitm-1]\nplatform = https://github.com/pioarduino/platform-espressif32/releases/download/stable/platform-espressif32.zip\nboard = esp32-c6-devkitm-1\nframework = arduino\n";
const REAL_MULTIENV: &str = "[platformio]\ndefault_envs = esp32-c6-devkitm-1\n\n[env]\nmonitor_speed = 115200\nlib_deps = \n\tbblanchon/ArduinoJson @ 6.21.5\n\n[env:esp32-c6-devkitm-1]\nplatform = espressif32\nboard = esp32-c6-devkitm-1\nframework = arduino\n";

#[test]
fn split_lines_keep_ends_preserves_lf_and_a_final_line_with_no_newline() {
    let lines = split_lines_keep_ends("a\nb\nc");
    assert_eq!(lines, vec!["a\n", "b\n", "c"]);
    assert_eq!(lines.concat(), "a\nb\nc");
}

#[test]
fn split_lines_keep_ends_preserves_crlf() {
    let lines = split_lines_keep_ends("a\r\nb\r\n");
    assert_eq!(lines, vec!["a\r\n", "b\r\n"]);
    assert_eq!(lines.concat(), "a\r\nb\r\n");
}

#[test]
fn empty_input_yields_no_lines() {
    assert!(split_lines_keep_ends("").is_empty());
}

#[test]
fn round_trips_the_real_captured_single_value_fixture() {
    let doc = parse(REAL_SAMPLE);
    assert_eq!(doc.raw(), REAL_SAMPLE);
}

#[test]
fn round_trips_the_real_captured_multienv_fixture() {
    let doc = parse(REAL_MULTIENV);
    assert_eq!(doc.raw(), REAL_MULTIENV);
}

#[test]
fn parses_declared_sections_and_simple_entries() {
    let raw = "[platformio]\ndefault_envs = esp32dev\n\n[env:esp32dev]\nboard = esp32dev\n";
    let doc = parse(raw);
    assert_eq!(doc.sections.len(), 3);
    let platformio = doc.section("platformio").expect("platformio section");
    assert_eq!(platformio.entry("default_envs").unwrap().values, vec!["esp32dev"]);
    let env = doc.section("env:esp32dev").expect("env section");
    assert_eq!(env.entry("board").unwrap().values, vec!["esp32dev"]);
}

#[test]
fn parses_multiline_continuation_values() {
    let raw = "[env:x]\nlib_deps = \n\tbblanchon/ArduinoJson@^7.0.0\n\tknolleary/PubSubClient@^2.8\n";
    let doc = parse(raw);
    let entry = doc.section("env:x").unwrap().entry("lib_deps").unwrap();
    assert_eq!(entry.values, vec!["bblanchon/ArduinoJson@^7.0.0", "knolleary/PubSubClient@^2.8"]);
    assert_eq!(entry.start, 1);
    assert_eq!(entry.end, 4);
}

#[test]
fn a_blank_line_ends_a_continuation_without_being_consumed() {
    let raw = "[env:x]\nlib_deps = \n\tfoo\n\nmonitor_speed = 9600\n";
    let doc = parse(raw);
    let section = doc.section("env:x").unwrap();
    assert_eq!(section.entry("lib_deps").unwrap().values, vec!["foo"]);
    assert_eq!(section.entry("monitor_speed").unwrap().values, vec!["9600"]);
    assert_eq!(doc.raw(), raw);
}

#[test]
fn comments_and_blank_lines_are_preserved_but_not_modeled_as_entries() {
    let raw = "; header comment\n\n[env:x]\n; a comment inside the section\nboard = esp32dev\n";
    let doc = parse(raw);
    assert_eq!(doc.raw(), raw);
    let env = doc.section("env:x").unwrap();
    assert_eq!(env.entries.len(), 1);
    assert_eq!(env.entries[0].name, "board");
}

#[test]
fn preamble_content_before_the_first_section_is_kept_and_unnamed() {
    let raw = "; top of file\n\n[env:x]\nboard = esp32dev\n";
    let doc = parse(raw);
    let preamble = doc.section("").expect("preamble section");
    assert_eq!(preamble.header_line, None);
    assert!(preamble.entries.is_empty());
    assert_eq!(doc.raw(), raw);
}

#[test]
fn a_file_with_no_sections_at_all_is_one_preamble_section() {
    let raw = "; just comments\n; nothing else\n";
    let doc = parse(raw);
    assert_eq!(doc.sections.len(), 1);
    assert_eq!(doc.sections[0].name, "");
    assert_eq!(doc.raw(), raw);
}

#[test]
fn an_unparseable_line_is_kept_but_not_modeled() {
    let raw = "[env:x]\nthis has no equals sign\nboard = esp32dev\n";
    let doc = parse(raw);
    assert_eq!(doc.raw(), raw);
    let env = doc.section("env:x").unwrap();
    assert_eq!(env.entries.len(), 1);
    assert_eq!(env.entries[0].name, "board");
}

#[test]
fn detect_eol_prefers_crlf_when_present() {
    assert_eq!(detect_eol(&["a\r\n".to_string(), "b\n".to_string()]), "\r\n");
    assert_eq!(detect_eol(&["a\n".to_string()]), "\n");
    assert_eq!(detect_eol(&["a".to_string()]), "\n");
    assert_eq!(detect_eol(&[]), "\n");
}

#[test]
fn crlf_document_round_trips_and_an_indented_line_continues_the_entry() {
    let raw = "[env:x]\r\nboard = uno\r\n  \tindented junk\r\n";
    let doc = parse(raw);
    assert_eq!(doc.raw(), raw);
    assert_eq!(doc.section("env:x").unwrap().entry("board").unwrap().values, vec!["uno", "indented junk"]);
}

#[test]
fn an_indented_header_right_after_an_entry_is_a_continuation_value() {
    let raw = "[a]\nk = v\n  [b]\n";
    let doc = parse(raw);
    assert!(doc.section("b").is_none());
    assert_eq!(doc.section("a").unwrap().entry("k").unwrap().values, vec!["v", "[b]"]);
}

#[test]
fn detect_eol_follows_the_predominant_ending() {
    let lines = |v: &[&str]| v.iter().map(|s| s.to_string()).collect::<Vec<String>>();
    assert_eq!(detect_eol(&lines(&["a\n", "b\r\n", "c\r\n"])), "\r\n");
    assert_eq!(detect_eol(&lines(&["a\r\n", "b\n", "c\n"])), "\n");
    assert_eq!(detect_eol(&lines(&["a", "b"])), "\n");
}

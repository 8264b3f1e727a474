use vibe_core::ini::patch::{apply_edit, apply_edits, IniEdit};

const MULTI_ENV_INI: &str = "\
[platformio]
default_envs = esp32dev

[env]
monitor_speed = 115200

[env:esp32dev]
platform = espressif32
board = esp32dev
framework = arduino
build_flags =
\t-DDEBUG=1
\t-Wall

[env:uno]
platform = atmelavr
board = uno
";

// Stand-in for the captured fixture file, which is not part of the sources at hand.
const REAL_SAMPLE: &str = "; PlatformIO Project Configuration File\n\n[env:esp32-c6-devkitm-1]\nplatform = espressif32\nboard = esp32-c6-devkitm-1\nframework = arduino\n";

#[test]
fn no_edits_is_a_byte_identical_no_op() {
    assert_eq!(apply_edits(MULTI_ENV_INI, &[]), MULTI_ENV_INI);
}

#[test]
fn set_appends_a_new_value_to_an_existing_single_line_option_leaves_everything_else_identical() {
    let edited = apply_edit(
        MULTI_ENV_INI,
        &IniEdit::SetValue {
            section: "env:esp32dev".into(),
            name: "build_flags".into(),
            values: vec!["-DDEBUG=1".into(), "-Wall".into(), "-DFOO=1".into()],
        },
    );
    let expected = MULTI_ENV_INI.replace("build_flags =\n\t-DDEBUG=1\n\t-Wall\n", "build_flags = \n\t-DDEBUG=1\n\t-Wall\n\t-DFOO=1\n");
    assert_eq!(edited, expected);
}

#[test]
fn set_replaces_a_single_line_value_in_place() {
    let edited = apply_edit(
        MULTI_ENV_INI,
        &IniEdit::SetValue { section: "env".into(), name: "monitor_speed".into(), values: vec!["9600".into()] },
    );
    assert_eq!(edited, MULTI_ENV_INI.replace("monitor_speed = 115200", "monitor_speed = 9600"));
}

#[test]
fn set_on_a_key_that_does_not_exist_yet_inserts_it_after_the_last_entry() {
    let edited = apply_edit(
        MULTI_ENV_INI,
        &IniEdit::SetValue { section: "env:uno".into(), name: "framework".into(), values: vec!["arduino".into()] },
    );
    assert!(edited.contains("[env:uno]\nplatform = atmelavr\nboard = uno\nframework = arduino\n"));
    assert!(edited.starts_with(&MULTI_ENV_INI[..MULTI_ENV_INI.find("[env:uno]").unwrap()]));
}

#[test]
fn set_on_a_section_that_does_not_exist_creates_it_with_one_blank_separator_line() {
    let edited = apply_edit(
        MULTI_ENV_INI,
        &IniEdit::SetValue { section: "env:new".into(), name: "board".into(), values: vec!["esp32dev".into()] },
    );
    assert!(edited.ends_with("board = uno\n\n[env:new]\nboard = esp32dev\n"));
    assert!(edited.starts_with(MULTI_ENV_INI));
}

#[test]
fn remove_deletes_the_entrys_lines_only() {
    let edited = apply_edit(MULTI_ENV_INI, &IniEdit::Remove { section: "env:esp32dev".into(), name: "build_flags".into() });
    assert!(!edited.contains("build_flags"));
    assert!(!edited.contains("-DDEBUG=1"));
    assert!(edited.contains("framework = arduino\n\n[env:uno]"));
}

#[test]
fn remove_of_a_missing_key_is_a_no_op() {
    assert_eq!(
        apply_edit(MULTI_ENV_INI, &IniEdit::Remove { section: "env:uno".into(), name: "does_not_exist".into() }),
        MULTI_ENV_INI
    );
}

#[test]
fn add_section_appends_at_eof() {
    let edited = apply_edit(MULTI_ENV_INI, &IniEdit::AddSection { name: "env:new".into() });
    assert!(edited.ends_with("board = uno\n\n[env:new]\n"));
}

#[test]
fn add_section_is_idempotent() {
    let edited = apply_edit(MULTI_ENV_INI, &IniEdit::AddSection { name: "env:uno".into() });
    assert_eq!(edited, MULTI_ENV_INI);
}

#[test]
fn remove_section_deletes_the_header_and_its_body() {
    let edited = apply_edit(MULTI_ENV_INI, &IniEdit::RemoveSection { name: "env:uno".into() });
    assert!(!edited.contains("[env:uno]"));
    assert!(!edited.contains("board = uno"));
    assert!(edited.ends_with("\t-Wall\n\n"));
}

#[test]
fn rename_section_only_touches_the_header_line() {
    let edited = apply_edit(
        MULTI_ENV_INI,
        &IniEdit::RenameSection { from: "env:uno".into(), to: "env:uno-renamed".into() },
    );
    assert!(edited.contains("[env:uno-renamed]\nplatform = atmelavr\nboard = uno\n"));
    assert!(edited.starts_with(&MULTI_ENV_INI[..MULTI_ENV_INI.find("[env:uno]").unwrap()]));
}

#[test]
fn applying_edits_sequentially_compounds_correctly() {
    let edited = apply_edits(
        MULTI_ENV_INI,
        &[
            IniEdit::SetValue {
                section: "env:esp32dev".into(),
                name: "build_flags".into(),
                values: vec!["-DDEBUG=1".into(), "-Wall".into(), "-DFOO=1".into()],
            },
            IniEdit::RemoveSection { name: "env:uno".into() },
        ],
    );
    assert!(edited.contains("-DFOO=1"));
    assert!(!edited.contains("[env:uno]"));
}

#[test]
fn the_real_fixture_survives_an_edit_and_a_revert_byte_identical() {
    let raw = REAL_SAMPLE;
    let added = apply_edit(
        raw,
        &IniEdit::SetValue { section: "env:esp32-c6-devkitm-1".into(), name: "monitor_speed".into(), values: vec!["115200".into()] },
    );
    assert_ne!(added, raw);
    let reverted = apply_edit(&added, &IniEdit::Remove { section: "env:esp32-c6-devkitm-1".into(), name: "monitor_speed".into() });
    assert_eq!(reverted, raw);
}

#[test]
fn set_on_a_file_with_no_final_newline_terminates_the_last_line_first() {
    let edited = apply_edit("[env:x]\nboard = uno", &IniEdit::SetValue { section: "env:x".into(), name: "framework".into(), values: vec!["arduino".into()] });
    assert_eq!(edited, "[env:x]\nboard = uno\nframework = arduino\n");
}

#[test]
fn rename_of_the_preamble_is_a_no_op_and_crlf_is_kept_for_new_lines() {
    let raw = "; c\r\n[a]\r\nk = v\r\n";
    assert_eq!(apply_edit(raw, &IniEdit::RenameSection { from: "".into(), to: "z".into() }), raw);
    assert_eq!(apply_edit(raw, &IniEdit::AddSection { name: "b".into() }), "; c\r\n[a]\r\nk = v\r\n\r\n[b]\r\n");
}

#[test]
fn setting_a_new_key_then_removing_it_restores_the_text() {
    let raw = "; top\n[env:x]\nboard = uno\n\n[env:y]\nboard = esp32dev\n";
    let set = apply_edit(
        raw,
        &IniEdit::SetValue { section: "env:x".into(), name: "monitor_speed".into(), values: vec!["115200".into()] },
    );
    assert_ne!(set, raw);
    let back = apply_edit(&set, &IniEdit::Remove { section: "env:x".into(), name: "monitor_speed".into() });
    assert_eq!(back, raw);
}

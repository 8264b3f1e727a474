use vibe_core::pio::check::{check_args, map_severity};
use vibe_core::pio::global_settings::{get_args, set_args};
use vibe_core::pio::init::{build_init_args, project_dir, validate_name, CreateProjectRequest};
use vibe_core::pio::packages::{install_args, list_args, outdated_args, uninstall_args, PkgKind};
use vibe_core::pio::run::{build_args, list_targets_args, target_args, upload_args};
use vibe_core::pio::test::{map_status, test_args};
use vibe_core::proc::events::{Severity, TestStatus};

const DIR: &str = "/home/fay/greenhouse-sensor";

#[test]
fn build_matches_the_cli_contract_shape() {
    assert_eq!(build_args(DIR, "esp32dev"), vec!["run", "-d", "/home/fay/greenhouse-sensor", "-e", "esp32dev"]);
}

#[test]
fn upload_with_a_port_matches_the_cli_contract_shape() {
    assert_eq!(
        upload_args(DIR, "esp32dev", Some("/dev/ttyUSB0")),
        vec!["run", "-d", "/home/fay/greenhouse-sensor", "-e", "esp32dev", "-t", "upload", "--upload-port", "/dev/ttyUSB0"]
    );
}

#[test]
fn upload_without_a_port_omits_the_flag_entirely() {
    let args = upload_args(DIR, "esp32dev", None);
    assert!(!args.iter().any(|a| a == "--upload-port"));
    assert_eq!(args, vec!["run", "-d", "/home/fay/greenhouse-sensor", "-e", "esp32dev", "-t", "upload"]);
}

#[test]
fn target_args_matches_the_cli_contract_shape() {
    assert_eq!(target_args(DIR, "esp32dev", "clean"), vec!["run", "-d", "/home/fay/greenhouse-sensor", "-e", "esp32dev", "-t", "clean"]);
}

#[test]
fn list_targets_args_matches_the_cli_contract_shape() {
    assert_eq!(list_targets_args(DIR, "esp32dev"), vec!["run", "-d", "/home/fay/greenhouse-sensor", "-e", "esp32dev", "--list-targets"]);
}

#[test]
fn check_args_matches_the_cli_contract_shape() {
    assert_eq!(check_args(DIR, "esp32dev"), vec!["check", "-d", "/home/fay/greenhouse-sensor", "-e", "esp32dev", "--json-output"]);
}

#[test]
fn check_severities_map_high_medium_and_anything_else() {
    assert_eq!(map_severity("high"), Severity::Error);
    assert_eq!(map_severity("medium"), Severity::Warning);
    assert_eq!(map_severity("low"), Severity::Note);
    assert_eq!(map_severity("weird"), Severity::Note);
}

#[test]
fn test_args_without_a_port_omits_the_flags() {
    assert_eq!(test_args(DIR, "esp32dev", None), vec!["test", "-d", "/home/fay/greenhouse-sensor", "-e", "esp32dev", "--json-output"]);
}

#[test]
fn test_args_with_a_port_sets_both_upload_and_test_port() {
    assert_eq!(
        test_args(DIR, "esp32dev", Some("/dev/ttyUSB0")),
        vec!["test", "-d", "/home/fay/greenhouse-sensor", "-e", "esp32dev", "--json-output", "--upload-port", "/dev/ttyUSB0", "--test-port", "/dev/ttyUSB0"]
    );
}

#[test]
fn test_statuses_map_and_unknown_counts_as_errored() {
    assert_eq!(map_status("PASSED"), TestStatus::Passed);
    assert_eq!(map_status("FAILED"), TestStatus::Failed);
    assert_eq!(map_status("SKIPPED"), TestStatus::Skipped);
    assert_eq!(map_status("ERRORED"), TestStatus::Errored);
    assert_eq!(map_status("??"), TestStatus::Errored);
}

#[test]
fn install_args_matches_cli_contract_shape() {
    assert_eq!(
        install_args("/ws", "esp32dev", PkgKind::Library, "bblanchon/ArduinoJson@^7.0.0"),
        vec!["pkg", "install", "-d", "/ws", "-e", "esp32dev", "-l", "bblanchon/ArduinoJson@^7.0.0"]
    );
    assert_eq!(
        install_args("/ws", "esp32dev", PkgKind::Platform, "espressif32"),
        vec!["pkg", "install", "-d", "/ws", "-e", "esp32dev", "-p", "espressif32"]
    );
}

#[test]
fn uninstall_args_matches_install_shape_with_uninstall_swapped_in() {
    assert_eq!(
        uninstall_args("/ws", "esp32dev", PkgKind::Library, "bblanchon/ArduinoJson"),
        vec!["pkg", "uninstall", "-d", "/ws", "-e", "esp32dev", "-l", "bblanchon/ArduinoJson"]
    );
}

#[test]
fn list_and_outdated_args_match_cli_contract_shape() {
    assert_eq!(list_args("/ws", "esp32dev"), vec!["pkg", "list", "-d", "/ws", "-e", "esp32dev"]);
    assert_eq!(outdated_args("/ws", "esp32dev"), vec!["pkg", "outdated", "-d", "/ws", "-e", "esp32dev"]);
    assert_eq!(PkgKind::Tool.flag(), "-t");
}

#[test]
fn get_and_set_args_match_cli_contract_shape() {
    assert_eq!(get_args(), vec!["settings", "get"]);
    assert_eq!(set_args("enable_cache", "No"), vec!["settings", "set", "enable_cache", "No"]);
}

fn sample_request() -> CreateProjectRequest {
    CreateProjectRequest {
        parent_dir: "/home/fay/projects".into(),
        name: "greenhouse-sensor".into(),
        board_id: "esp32dev".into(),
        framework: "arduino".into(),
        sample_code: true,
        init_git: true,
        generate_claude_md: true,
        extra_options: vec![("monitor_speed".into(), "115200".into())],
    }
}

#[test]
fn build_init_args_matches_cli_contract_shape() {
    let req = sample_request();
    let dir = "/home/fay/projects/greenhouse-sensor";
    let args = build_init_args(&req, dir);
    assert_eq!(
        args,
        vec![
            "project".to_string(),
            "init".to_string(),
            "-d".to_string(),
            dir.to_string(),
            "-b".to_string(),
            "esp32dev".to_string(),
            "--sample-code".to_string(),
            "-O".to_string(),
            "framework=arduino".to_string(),
            "-O".to_string(),
            "monitor_speed=115200".to_string(),
        ]
    );
}

#[test]
fn build_init_args_omits_sample_code_flag_when_false() {
    let mut req = sample_request();
    req.sample_code = false;
    let args = build_init_args(&req, "/home/fay/projects/greenhouse-sensor");
    assert!(!args.contains(&"--sample-code".to_string()));
}

#[test]
fn rejects_empty_and_traversal_names() {
    assert!(validate_name("").is_err());
    assert!(validate_name(".").is_err());
    assert!(validate_name("..").is_err());
    assert!(validate_name("../escape").is_err());
    assert!(validate_name("a/b").is_err());
    assert!(validate_name("a\\b").is_err());
    assert!(validate_name("C:foo").is_err());
}

#[test]
fn accepts_ordinary_names() {
    assert!(validate_name("greenhouse-sensor").is_ok());
    assert!(validate_name("my_project_2").is_ok());
}

#[test]
fn a_control_character_is_refused_with_the_name_in_the_message() {
    match validate_name("bad\tname") {
        Err(vibe_core::error::AppError::Io { message }) => assert_eq!(message, "'bad\tname' is not a valid project name"),
        other => panic!("unexpected {other:?}"),
    }
}

#[test]
fn project_dir_joins_parent_and_name() {
    assert_eq!(project_dir(&sample_request()), "/home/fay/projects/greenhouse-sensor");
}

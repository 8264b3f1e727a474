use vibe_core::error::AppError;
use vibe_core::pio::gates::{capture_stdout, reattach_port, target_menu, upload_gate, workspace_dir_and_env};
use vibe_core::pio::pipeline::PipelineStep;
use vibe_core::pio::targets::TargetInfo;
use vibe_core::proc::{LogLine, StdStream};
use vibe_core::project::types::{ProjectRegistry, ProjectRegistryEntry};
use vibe_core::settings::PipelinePolicySetting;

#[test]
fn uploads_need_a_current_build_except_on_the_fast_path() {
    assert!(upload_gate(PipelinePolicySetting::FastPath, PipelineStep::Idle).is_ok());
    assert!(upload_gate(PipelinePolicySetting::Safe, PipelineStep::BuildOk).is_ok());
    match upload_gate(PipelinePolicySetting::Watch, PipelineStep::Failed) {
        Err(AppError::UploadBlocked { reason }) => assert_eq!(reason, "Build the current code successfully before uploading."),
        other => panic!("expected UploadBlocked, got {other:?}"),
    }
}

#[test]
fn a_monitor_comes_back_only_when_it_was_stopped_and_has_a_port() {
    assert_eq!(reattach_port(true, true, Some("COM3".into())), Some("COM3".to_string()));
    assert_eq!(reattach_port(false, true, Some("COM3".into())), None);
    assert_eq!(reattach_port(true, false, Some("COM3".into())), None);
    assert_eq!(reattach_port(true, true, None), None);
}

#[test]
fn the_menu_falls_back_to_the_universal_targets() {
    assert_eq!(target_menu(&vec![]), vec!["build", "upload", "clean", "fullclean", "size", "monitor"]);
    let parsed = vec![TargetInfo { name: "erase".into(), title: "Erase Flash".into(), description: None }];
    assert_eq!(target_menu(&parsed), vec!["erase"]);
}

#[test]
fn only_stdout_lines_are_captured() {
    let mut buf = String::from("a\n");
    let lines = vec![
        LogLine { stream: StdStream::Stdout, text: "{\"x\":".into(), ts_ms: 1 },
        LogLine { stream: StdStream::Stderr, text: "noise".into(), ts_ms: 2 },
        LogLine { stream: StdStream::Stdout, text: "1}".into(), ts_ms: 3 },
    ];
    capture_stdout(&mut buf, &lines);
    assert_eq!(buf, "a\n{\"x\":\n1}\n");
}

#[test]
fn a_request_resolves_to_the_project_folder_and_environment() {
    let mut reg = ProjectRegistry { schema_version: 1, projects: vec![] };
    reg.projects.push(ProjectRegistryEntry {
        id: "p1".into(),
        name: "n".into(),
        path: "/ws".into(),
        board_id: None,
        active_env: Some("esp32dev".into()),
        last_opened: None,
        last_build_ok: None,
        trusted: true,
    });
    assert_eq!(workspace_dir_and_env(&reg, "p1").unwrap(), ("/ws".to_string(), "esp32dev".to_string()));
    match workspace_dir_and_env(&reg, "p2") {
        Err(AppError::Io { message }) => assert_eq!(message, "no project registered with id p2"),
        other => panic!("{other:?}"),
    }
    reg.projects[0].active_env = None;
    match workspace_dir_and_env(&reg, "p1") {
        Err(AppError::Io { message }) => assert_eq!(message, "no active environment set for this project"),
        other => panic!("{other:?}"),
    }
}

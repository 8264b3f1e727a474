use vibe_core::claude::argv::SessionRef;
use vibe_core::claude::attachments::{augment_prompt, candidate_name, relative_path};
use vibe_core::claude::session::truncate_title;
use vibe_core::claude::turn::{
    append_tail, classify_failure, redact, redacted_argv, trust_gate, turn_spawn_spec, RunTurnRequest, SIGTERM_EXIT_CODE,
    STDERR_TAIL_CAP,
};
use vibe_core::project::types::TrustScan;
use vibe_core::error::AppError;
use vibe_core::proc::ProcKind;
use vibe_core::settings::PermissionPolicySetting;

const TITLE_CHARS: usize = 60;

#[test]
fn append_tail_caps_at_the_byte_limit() {
    let mut tail = String::new();
    for i in 0..2000 {
        append_tail(&mut tail, &format!("line {i}"));
    }
    assert!(tail.len() <= STDERR_TAIL_CAP);
    assert!(tail.ends_with("line 1999\n"));
}

#[test]
fn append_tail_never_splits_a_multibyte_character() {
    let mut tail = String::new();
    for _ in 0..3000 {
        append_tail(&mut tail, "ééé");
    }
    assert!(tail.len() <= STDERR_TAIL_CAP);
    assert!(tail.len() >= STDERR_TAIL_CAP - 3);
    assert!(tail.ends_with("ééé\n"));
}

#[test]
fn exit_143_classifies_as_a_clean_interruption() {
    match classify_failure(SIGTERM_EXIT_CODE, "s1", "") {
        AppError::ClaudeInterrupted { session_id } => assert_eq!(session_id, "s1"),
        other => panic!("expected ClaudeInterrupted, got {other:?}"),
    }
}

#[test]
fn any_other_exit_code_classifies_as_a_process_failure_with_redacted_tail() {
    match classify_failure(1, "s1", "ANTHROPIC_API_KEY=sk-ant-secretvalue\n") {
        AppError::ClaudeProcessFailed { exit_code, tail } => {
            assert_eq!(exit_code, 1);
            assert!(!tail.contains("secretvalue"));
        }
        other => panic!("expected ClaudeProcessFailed, got {other:?}"),
    }
}

#[test]
fn redact_replaces_only_key_tokens() {
    assert_eq!(redact("key sk-ant-abc and\tmore\n"), "key [REDACTED] and\tmore\n");
    assert_eq!(redact("nothing secret here"), "nothing secret here");
    assert_eq!(redact(""), "");
}

#[test]
fn turn_spawn_spec_prepends_the_fixed_arguments() {
    let req = RunTurnRequest {
        program: "/usr/bin/assistant-cli".into(),
        extra_args: vec!["--x".into()],
        workspace: "/ws".into(),
        turn_id: "t1".into(),
        prompt: "hi".into(),
        session: SessionRef::Resume("s1".into()),
        policy: PermissionPolicySetting::Unrestricted,
        model: "sonnet".into(),
        permission_prompts_none_supported: false,
        env: vec![("ANTHROPIC_API_KEY".into(), "k".into())],
    };
    let spec = turn_spawn_spec(req);
    assert_eq!(spec.program, "/usr/bin/assistant-cli");
    assert_eq!(
        spec.args,
        vec!["--x", "-p", "hi", "--output-format", "stream-json", "--verbose", "--include-partial-messages", "--dangerously-skip-permissions", "--model", "sonnet", "--resume", "s1"]
    );
    assert_eq!(spec.cwd, "/ws");
    assert_eq!(spec.kind, ProcKind::Claude);
    assert_eq!(spec.label, "assistant-turn");
    assert_eq!(spec.env, vec![("ANTHROPIC_API_KEY".to_string(), "k".to_string())]);
}

#[test]
fn long_prompt_title_is_truncated_to_60_chars() {
    let long = "x".repeat(100);
    let title = truncate_title(&long);
    assert_eq!(title.chars().count(), TITLE_CHARS + 1);
}

#[test]
fn title_is_the_first_line_only() {
    assert_eq!(truncate_title("MQTT sensor loop please\nmore detail"), "MQTT sensor loop please");
    assert_eq!(truncate_title("windows line\r\nnext"), "windows line");
    assert_eq!(truncate_title(""), "");
    assert_eq!(truncate_title(&"y".repeat(60)), "y".repeat(60));
}

#[test]
fn augment_prompt_is_unchanged_with_no_attachments() {
    assert_eq!(augment_prompt("hello", &[]), "hello");
}

#[test]
fn augment_prompt_lists_every_attachment_by_relative_path() {
    let augmented = augment_prompt("look at this", &[".vibe/attachments/a.pdf".into(), ".vibe/attachments/b.jpg".into()]);
    assert_eq!(augmented, "look at this\n\nAttachments:\n- .vibe/attachments/a.pdf\n- .vibe/attachments/b.jpg");
}

#[test]
fn attachment_names_get_numbered_suffixes_before_the_extension() {
    assert_eq!(candidate_name("photo", Some("jpg"), "photo.jpg", 1), "photo.jpg");
    assert_eq!(candidate_name("photo", Some("jpg"), "photo.jpg", 2), "photo-2.jpg");
    assert_eq!(candidate_name("serial-log", None, "serial-log", 3), "serial-log-3");
}

#[test]
fn attachment_paths_are_forward_slashed() {
    assert_eq!(relative_path("datasheet.pdf"), ".vibe/attachments/datasheet.pdf");
    assert_eq!(relative_path("a\\b.txt"), ".vibe/attachments/a/b.txt");
}

#[test]
fn an_untrusted_workspace_refuses_the_turn_with_its_scan() {
    let scan = TrustScan { hooks: vec!["PreToolUse".into()], mcp_servers: vec!["db".into()], agents: vec![] };
    assert_eq!(trust_gate(true, scan.clone()), Ok(()));
    assert_eq!(
        trust_gate(false, scan),
        Err(AppError::WorkspaceUntrusted { hooks: vec!["PreToolUse".into()], mcp_servers: vec!["db".into()] })
    );
}

#[test]
fn the_recorded_argv_is_redacted_argument_by_argument() {
    let argv = redacted_argv(
        "/opt/cli",
        &vec!["--flag".to_string()],
        &vec!["-p".to_string(), "use key sk-ant-abc123 please".to_string()],
    );
    assert_eq!(argv, vec!["/opt/cli", "--flag", "-p", "use key [REDACTED] please"]);
}

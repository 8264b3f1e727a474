use vibe_core::claude::argv::{build_turn_args, SessionRef};
use vibe_core::settings::PermissionPolicySetting;

#[test]
fn guarded_maps_to_accept_edits_and_narrow_bash() {
    let args = build_turn_args(
        "add a blink sketch",
        PermissionPolicySetting::Guarded,
        true,
        "sonnet",
        &SessionRef::New("11111111-1111-1111-1111-111111111111".into()),
    );
    assert_eq!(
        args,
        vec![
            "-p",
            "add a blink sketch",
            "--output-format",
            "stream-json",
            "--verbose",
            "--include-partial-messages",
            "--permission-mode",
            "acceptEdits",
            "--allowedTools",
            "Read,Edit,Write,Glob,Grep,Bash(pio *)",
            "--permission-prompts",
            "none",
            "--model",
            "sonnet",
            "--session-id",
            "11111111-1111-1111-1111-111111111111",
        ]
    );
}

#[test]
fn assisted_maps_to_auto_and_general_bash() {
    let args = build_turn_args("run the tests", PermissionPolicySetting::Assisted, true, "sonnet", &SessionRef::Resume("s1".into()));
    assert!(args.windows(2).any(|w| w == ["--permission-mode", "auto"]));
    assert!(args.windows(2).any(|w| w == ["--allowedTools", "Read,Edit,Write,Glob,Grep,Bash"]));
    assert!(args.windows(2).any(|w| w == ["--resume", "s1"]));
    assert!(!args.iter().any(|a| a == "--session-id"));
}

#[test]
fn unrestricted_uses_dangerously_skip_permissions_with_no_mode_or_allowed_tools() {
    let args = build_turn_args("do anything", PermissionPolicySetting::Unrestricted, true, "sonnet", &SessionRef::Resume("s1".into()));
    assert!(args.iter().any(|a| a == "--dangerously-skip-permissions"));
    assert!(!args.iter().any(|a| a == "--permission-mode"));
    assert!(!args.iter().any(|a| a == "--allowedTools"));
}

#[test]
fn permission_prompts_none_omitted_on_older_cli() {
    let args = build_turn_args("hello", PermissionPolicySetting::Guarded, false, "sonnet", &SessionRef::Resume("s1".into()));
    assert!(!args.iter().any(|a| a == "--permission-prompts"));
}

#[test]
fn never_passes_bare() {
    for policy in [PermissionPolicySetting::Guarded, PermissionPolicySetting::Assisted, PermissionPolicySetting::Unrestricted] {
        let args = build_turn_args("x", policy, true, "sonnet", &SessionRef::Resume("s1".into()));
        assert!(!args.iter().any(|a| a == "--bare"));
    }
}

#[test]
fn always_passes_output_format_verbose_and_partial_messages_with_an_explicit_mode() {
    for policy in [PermissionPolicySetting::Guarded, PermissionPolicySetting::Assisted] {
        let args = build_turn_args("x", policy, true, "sonnet", &SessionRef::New("s1".into()));
        assert!(args.iter().any(|a| a == "--permission-mode"));
    }
    let unrestricted = build_turn_args("x", PermissionPolicySetting::Unrestricted, true, "sonnet", &SessionRef::New("s1".into()));
    assert!(unrestricted.iter().any(|a| a == "--dangerously-skip-permissions"));
}

#[test]
fn unrestricted_on_an_older_cli_resuming_a_session_is_exact() {
    let args = build_turn_args("go", PermissionPolicySetting::Unrestricted, false, "opus", &SessionRef::Resume("abc".into()));
    assert_eq!(
        args,
        vec!["-p", "go", "--output-format", "stream-json", "--verbose", "--include-partial-messages", "--dangerously-skip-permissions", "--model", "opus", "--resume", "abc"]
    );
}

#[test]
fn session_ref_id_is_the_wrapped_id() {
    assert_eq!(SessionRef::New("n1".into()).id(), "n1");
    assert_eq!(SessionRef::Resume("r1".into()).id(), "r1");
}

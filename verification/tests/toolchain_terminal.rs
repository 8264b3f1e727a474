use vibe_core::error::AppError;
use vibe_core::toolchain::{auth_terminal_command, terminal_candidates, Platform};

#[test]
fn macos_opens_the_terminal_app() {
    let (program, args) = auth_terminal_command(Platform::MacOs, "/opt/bin/cli", &vec![]).unwrap();
    assert_eq!(program, "/usr/bin/open");
    assert_eq!(args, vec!["-a", "Terminal", "/opt/bin/cli"]);
    assert!(terminal_candidates(Platform::MacOs).is_empty());
}

#[test]
fn windows_starts_a_cmd_window_or_reports_cmd_missing() {
    assert_eq!(terminal_candidates(Platform::Windows), vec!["cmd.exe"]);
    let (program, args) =
        auth_terminal_command(Platform::Windows, "C:\\cli.exe", &vec![Some("C:\\Windows\\cmd.exe".to_string())]).unwrap();
    assert_eq!(program, "C:\\Windows\\cmd.exe");
    assert_eq!(args, vec!["/c", "start", "", "cmd", "/k", "C:\\cli.exe"]);
    match auth_terminal_command(Platform::Windows, "C:\\cli.exe", &vec![None]) {
        Err(AppError::ToolMissing { tool, install_action }) => {
            assert_eq!(tool, "cmd.exe");
            assert!(!install_action);
        }
        other => panic!("expected ToolMissing, got {other:?}"),
    }
}

#[test]
fn linux_takes_the_first_terminal_found() {
    let candidates = terminal_candidates(Platform::Linux);
    assert_eq!(candidates.len(), 6);
    assert_eq!(candidates[0], "x-terminal-emulator");
    let located = vec![None, None, Some("/usr/bin/konsole".to_string()), Some("/usr/bin/kitty".to_string())];
    let (program, args) = auth_terminal_command(Platform::Linux, "/usr/bin/cli", &located).unwrap();
    assert_eq!(program, "/usr/bin/konsole");
    assert_eq!(args, vec!["-e", "/usr/bin/cli"]);
    match auth_terminal_command(Platform::Linux, "/usr/bin/cli", &vec![None; 6]) {
        Err(AppError::Io { message }) => {
            assert_eq!(message, "no terminal emulator found; run /usr/bin/cli yourself to sign in")
        }
        other => panic!("expected Io, got {other:?}"),
    }
}

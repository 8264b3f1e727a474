use vibe_core::project::editor::{build_open_args, editor_candidates};

#[test]
fn build_open_args_with_no_file_opens_the_workspace_root() {
    let ws = "/home/fay/greenhouse-sensor";
    let args = build_open_args(ws, None, None, "--goto {file}:{line}");
    assert_eq!(args, vec![ws.to_string()]);
}

#[test]
fn build_open_args_with_file_and_line_fills_the_goto_template() {
    let ws = "/home/fay/greenhouse-sensor";
    let args = build_open_args(ws, Some("src/main.cpp"), Some(42), "--goto {file}:{line}");
    assert_eq!(args, vec!["--goto".to_string(), "/home/fay/greenhouse-sensor/src/main.cpp:42".to_string()]);
}

#[test]
fn build_open_args_with_file_only_opens_that_file() {
    let ws = "/home/fay/greenhouse-sensor";
    let args = build_open_args(ws, Some("src/main.cpp"), None, "--goto {file}:{line}");
    assert_eq!(args, vec!["/home/fay/greenhouse-sensor/src/main.cpp".to_string()]);
}

#[test]
fn an_absolute_file_replaces_the_workspace() {
    let args = build_open_args("/ws", Some("/etc/hosts"), Some(3), "+{line} {file}");
    assert_eq!(args, vec!["+3".to_string(), "/etc/hosts".to_string()]);
}

#[test]
fn candidates_come_in_resolution_order() {
    let c = editor_candidates(Some("/opt/ed"), None, Some("vi"));
    let names: Vec<&str> = c.iter().map(|(n, _)| n.as_str()).collect();
    assert_eq!(names, vec!["/opt/ed", "vi", "code", "cursor", "zed", "subl", "idea", "nvim"]);
    assert!(c[0].1 && c[1].1 && !c[2].1);
}

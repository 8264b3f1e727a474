use vibe_core::error::AppError;
use vibe_core::project::paths::{check_workspace_path, components_start_with, refuses_relative_path};

fn comps(parts: &[&str]) -> Vec<String> {
    parts.iter().map(|p| p.to_string()).collect()
}

fn message(r: Result<(), AppError>) -> String {
    match r {
        Err(AppError::Io { message }) => message,
        other => panic!("expected an I/O refusal, got {other:?}"),
    }
}

#[test]
fn traversal_and_absolute_and_empty_paths_are_refused() {
    assert!(refuses_relative_path("../../etc/passwd", false));
    assert!(refuses_relative_path("src/..", false));
    assert!(refuses_relative_path("src\\..\\x", false));
    assert!(refuses_relative_path("/etc/passwd", true));
    assert!(refuses_relative_path("", false));
    assert!(!refuses_relative_path("src/main.cpp", false));
    assert!(!refuses_relative_path("src/..hidden/a", false));
    assert!(!refuses_relative_path("a..", false));
}

#[test]
fn containment_is_by_whole_components() {
    assert!(components_start_with(&comps(&["/", "ws", "src", "main.cpp"]), &comps(&["/", "ws"])));
    assert!(!components_start_with(&comps(&["/", "ws2", "main.cpp"]), &comps(&["/", "ws"])));
    assert!(!components_start_with(&comps(&["/"]), &comps(&["/", "ws"])));
}

#[test]
fn a_file_inside_the_workspace_may_be_read() {
    let r = check_workspace_path(
        "/ws",
        "src/main.cpp",
        false,
        Some(comps(&["/", "ws"])),
        Some(comps(&["/", "ws", "src", "main.cpp"])),
    );
    assert!(r.is_ok());
}

#[test]
fn each_refusal_carries_its_message() {
    let m = message(check_workspace_path("/ws", "../../etc/passwd", false, None, None));
    assert_eq!(m, "refusing to read path outside the workspace: ../../etc/passwd");
    let m = message(check_workspace_path("/ws", "src/x.cpp", false, None, None));
    assert_eq!(m, "/ws does not exist");
    let m = message(check_workspace_path("/ws", "src/does_not_exist.cpp", false, Some(comps(&["/", "ws"])), None));
    assert_eq!(m, "src/does_not_exist.cpp does not exist");
    let m = message(check_workspace_path(
        "/ws",
        "link.txt",
        false,
        Some(comps(&["/", "ws"])),
        Some(comps(&["/", "etc", "passwd"])),
    ));
    assert_eq!(m, "refusing to read path outside the workspace: link.txt");
}

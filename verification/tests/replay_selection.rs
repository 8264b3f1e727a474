use vibe_core::replay::{from_args, from_env_values, from_marker, route_line, Selection};

fn args(v: &[&str]) -> Vec<String> {
    v.iter().map(|s| s.to_string()).collect()
}

#[test]
fn arguments_pick_the_fixture_and_ignore_the_real_tool_flags() {
    let sel = from_args(&args(&["-p", "hello", "--fixture", "f.txt", "--interval-ms", "+15", "--exit-code", "3", "-o", "out.bin"]));
    assert_eq!(
        sel,
        Selection {
            fixture: Some("f.txt".into()),
            interval_ms: Some(15),
            exit_code: Some(3),
            output_file: Some("out.bin".into()),
        }
    );
}

#[test]
fn a_flag_without_a_value_clears_it_and_bad_numbers_are_absent() {
    let sel = from_args(&args(&["--fixture", "a", "--exit-code", "300", "--fixture"]));
    assert_eq!(sel.fixture, None);
    assert_eq!(sel.exit_code, None);
    assert_eq!(from_args(&args(&["--interval-ms", "x"])).interval_ms, None);
}

#[test]
fn sources_merge_in_priority_order() {
    let argv = from_args(&args(&["--interval-ms", "5"]));
    let env = from_env_values(Some("env.txt".into()), Some("9".into()), Some("1".into()));
    let marker = from_marker("marker.txt\n7\r\n2\n");
    assert_eq!(marker.fixture.as_deref(), Some("marker.txt"));
    assert_eq!(marker.interval_ms, Some(7));
    assert_eq!(marker.exit_code, Some(2));
    let sel = argv.merge(env).merge(marker);
    assert_eq!(sel.fixture.as_deref(), Some("env.txt"));
    assert_eq!(sel.interval_ms, Some(5));
    assert_eq!(sel.exit_code, Some(1));
    assert_eq!(sel.output_file, None);
    assert_eq!(from_marker(""), Selection::default());
}

#[test]
fn marked_lines_go_to_stderr_without_the_marker() {
    assert_eq!(route_line("!ERR!boom"), (true, "boom".to_string()));
    assert_eq!(route_line("plain !ERR!"), (false, "plain !ERR!".to_string()));
}

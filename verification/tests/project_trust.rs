use vibe_core::project::trust::scan;

#[test]
fn empty_workspace_scans_clean() {
    let s = scan(vec![], vec![], vec![]);
    assert!(s.is_empty());
}

#[test]
fn finds_hooks_mcp_servers_and_agents() {
    let s = scan(
        vec!["SessionStart".into(), "PreToolUse".into()],
        vec!["weather".into(), "filesystem".into()],
        vec!["critic".into(), "planner".into()],
    );
    assert!(!s.is_empty());
    assert_eq!(s.hooks, vec!["PreToolUse", "SessionStart"]);
    assert_eq!(s.mcp_servers, vec!["filesystem", "weather"]);
    assert_eq!(s.agents, vec!["critic", "planner"]);
}

#[test]
fn names_sort_in_string_order() {
    let s = scan(vec!["b".into(), "B".into(), "a".into(), "ä".into(), "ab".into()], vec![], vec![]);
    let mut expected = vec!["b", "B", "a", "ä", "ab"];
    expected.sort();
    assert_eq!(s.hooks, expected);
}

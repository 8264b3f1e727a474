use vibe_core::claude::argv::SessionRef;
use vibe_core::claude::ndjson::ParsedEvent;
use vibe_core::claude::session::{session_for_turn, ToolCallRecord, TurnLog};

fn completed(id: &str, name: &str, input: &str) -> ParsedEvent {
    ParsedEvent::ToolCallCompleted { tool_use_id: id.into(), name: name.into(), input_json: input.into() }
}

fn result(id: &str, is_error: bool) -> ParsedEvent {
    ParsedEvent::ToolResult { tool_use_id: id.into(), is_error, summary: String::new(), full: None }
}

#[test]
fn an_existing_session_is_resumed_and_a_missing_one_started() {
    assert_eq!(session_for_turn(Some("s1".to_string())), (SessionRef::Resume("s1".to_string()), false));
    let (session, must_save) = session_for_turn(None);
    assert!(must_save);
    match session {
        SessionRef::New(id) => {
            assert_eq!(id.len(), 36);
            let c: Vec<char> = id.chars().collect();
            assert!(c[8] == '-' && c[13] == '-' && c[18] == '-' && c[23] == '-');
            assert_eq!(c[14], '4');
            assert!(id.chars().all(|ch| ch == '-' || ch.is_ascii_digit() || ('a'..='f').contains(&ch)));
        },
        other => panic!("expected a new session, got {other:?}"),
    }
}

#[test]
fn turn_log_pairs_results_with_their_completions() {
    let mut log = TurnLog::new();
    log.observe(&ParsedEvent::TextBlock { block_index: 0, text: "Hello ".into() });
    log.observe(&completed("a", "Write", "{\"x\":1}"));
    log.observe(&completed("b", "Read", "{}"));
    log.observe(&result("zzz", false));
    log.observe(&completed("a", "Write", "{\"x\":2}"));
    log.observe(&result("a", true));
    log.observe(&result("a", false));
    log.observe(&ParsedEvent::TextBlock { block_index: 1, text: "world".into() });
    log.observe(&result("b", false));
    assert_eq!(log.assistant_text(), "Hello world");
    assert_eq!(
        log.into_tool_calls(),
        vec![
            ToolCallRecord { tool_use_id: "a".into(), name: "Write".into(), input_json: "{\"x\":2}".into(), is_error: true },
            ToolCallRecord { tool_use_id: "b".into(), name: "Read".into(), input_json: "{}".into(), is_error: false },
        ]
    );
}

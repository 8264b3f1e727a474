use vibe_core::claude::ndjson::{
    should_parse, Coalescer, ContentItem, MessageRole, NdjsonParser, ParsedEvent, StreamLine, ToolResultContent,
    MAX_LINE_BYTES, SUMMARY_CHARS, TOOL_RESULT_FULL_CAP,
};

fn parser() -> NdjsonParser {
    NdjsonParser::new("t1".to_string())
}

fn block_start(index: u64) -> StreamLine {
    StreamLine::BlockStart { index, tool_use: None }
}

fn text_delta(index: u64, text: &str) -> StreamLine {
    StreamLine::TextDelta { index, text: text.to_string() }
}

#[test]
fn malformed_line_is_skipped_not_fatal() {
    let mut p = parser();
    let mut c = Coalescer::new();
    assert!(p.feed_line("{ not json", &mut c).is_empty());
    assert!(p.feed_line("", &mut c).is_empty());
}

#[test]
fn unknown_type_is_skipped() {
    let mut p = parser();
    let mut c = Coalescer::new();
    assert!(p.feed_line(r#"{"type":"some_future_type","foo":"bar"}"#, &mut c).is_empty());
}

#[test]
fn unknown_system_subtype_is_skipped() {
    let mut p = parser();
    let mut c = Coalescer::new();
    assert!(p
        .feed_line(r#"{"type":"system","subtype":"plugin_install","status":"started"}"#, &mut c)
        .is_empty());
}

#[test]
fn huge_line_is_skipped_not_parsed() {
    let mut p = parser();
    let mut c = Coalescer::new();
    let huge = format!(
        r#"{{"type":"assistant","message":{{"content":[{{"type":"text","text":"{}"}}]}}}}"#,
        "x".repeat(MAX_LINE_BYTES + 10)
    );
    assert!(!should_parse(&huge));
    assert!(p.feed_line(&huge, &mut c).is_empty());
}

#[test]
fn session_ready_from_system_init() {
    let mut p = parser();
    let mut c = Coalescer::new();
    let events = p.feed_line(
        r#"{"type":"system","subtype":"init","session_id":"s1","model":"opus-5","tools":["Read","Edit"],"mcp_servers":[],"mcp_server_errors":[],"plugins":[],"plugin_errors":[],"capabilities":["partial-messages"]}"#,
        &mut c,
    );
    assert_eq!(events.len(), 1);
    match &events[0] {
        ParsedEvent::SessionReady { session_id, model, tools, capabilities, .. } => {
            assert_eq!(session_id, "s1");
            assert_eq!(model, "opus-5");
            assert_eq!(tools, &vec!["Read".to_string(), "Edit".to_string()]);
            assert_eq!(capabilities, &vec!["partial-messages".to_string()]);
        }
        other => panic!("expected SessionReady, got {other:?}"),
    }
}

#[test]
fn text_deltas_are_buffered_then_flushed_before_the_text_block() {
    let mut p = parser();
    let mut c = Coalescer::new();

    assert!(p
        .feed_line(r#"{"type":"stream_event","event":{"type":"content_block_start","index":0,"content_block":{"type":"text","text":""}}}"#, &mut c)
        .is_empty());
    assert!(p
        .feed_line(r#"{"type":"stream_event","event":{"type":"content_block_delta","index":0,"delta":{"type":"text_delta","text":"Hello"}}}"#, &mut c)
        .is_empty());
    assert!(p
        .feed_line(r#"{"type":"stream_event","event":{"type":"content_block_delta","index":0,"delta":{"type":"text_delta","text":" world"}}}"#, &mut c)
        .is_empty());
    assert!(!c.is_empty());

    let events = p.feed_line(
        r#"{"type":"assistant","message":{"role":"assistant","parent_tool_use_id":null,"content":[{"type":"text","text":"Hello world"}]}}"#,
        &mut c,
    );
    assert_eq!(events.len(), 2);
    match &events[0] {
        ParsedEvent::TextDelta { block_index, text } => {
            assert_eq!(*block_index, 0);
            assert_eq!(text, "Hello world");
        }
        other => panic!("expected TextDelta first, got {other:?}"),
    }
    match &events[1] {
        ParsedEvent::TextBlock { block_index, text } => {
            assert_eq!(*block_index, 0);
            assert_eq!(text, "Hello world");
        }
        other => panic!("expected TextBlock second, got {other:?}"),
    }
    assert!(c.is_empty());
}

#[test]
fn full_tool_call_lifecycle_in_order() {
    let mut p = parser();
    let mut c = Coalescer::new();

    let started = p.feed_line(
        r#"{"type":"stream_event","event":{"type":"content_block_start","index":1,"content_block":{"type":"tool_use","id":"toolu_1","name":"Write","input":{}}}}"#,
        &mut c,
    );
    assert_eq!(started.len(), 1);
    assert!(matches!(&started[0], ParsedEvent::ToolCallStarted { tool_use_id, name } if tool_use_id == "toolu_1" && name == "Write"));

    assert!(p
        .feed_line(r#"{"type":"stream_event","event":{"type":"content_block_delta","index":1,"delta":{"type":"input_json_delta","partial_json":"{\"file_path\":"}}}"#, &mut c)
        .is_empty());

    let completed = p.feed_line(
        r#"{"type":"assistant","message":{"role":"assistant","parent_tool_use_id":null,"content":[{"type":"tool_use","id":"toolu_1","name":"Write","input":{"file_path":"src/main.cpp"}}]}}"#,
        &mut c,
    );
    assert_eq!(completed.len(), 2);
    assert!(matches!(&completed[0], ParsedEvent::ToolCallInputDelta { tool_use_id, .. } if tool_use_id == "toolu_1"));
    assert!(matches!(&completed[1], ParsedEvent::ToolCallCompleted { tool_use_id, .. } if tool_use_id == "toolu_1"));

    let result = p.feed_line(
        r#"{"type":"user","message":{"role":"user","parent_tool_use_id":null,"content":[{"type":"tool_result","tool_use_id":"toolu_1","is_error":false,"content":[{"type":"text","text":"File written successfully."}]}]}}"#,
        &mut c,
    );
    assert_eq!(result.len(), 1);
    match &result[0] {
        ParsedEvent::ToolResult { tool_use_id, is_error, summary, full } => {
            assert_eq!(tool_use_id, "toolu_1");
            assert!(!is_error);
            assert_eq!(summary, "File written successfully.");
            assert_eq!(full.as_deref(), Some("File written successfully."));
        }
        other => panic!("expected ToolResult, got {other:?}"),
    }
}

#[test]
fn api_retry_and_permission_denied_flush_pending_deltas_first() {
    let mut p = parser();
    let mut c = Coalescer::new();
    p.feed_line(r#"{"type":"stream_event","event":{"type":"content_block_start","index":0,"content_block":{"type":"text","text":""}}}"#, &mut c);
    p.feed_line(r#"{"type":"stream_event","event":{"type":"content_block_delta","index":0,"delta":{"type":"text_delta","text":"thinking..."}}}"#, &mut c);

    let events = p.feed_line(
        r#"{"type":"system","subtype":"api_retry","attempt":1,"max_retries":5,"retry_delay_ms":2000,"error":"overloaded","error_status":529}"#,
        &mut c,
    );
    assert_eq!(events.len(), 2);
    assert!(matches!(&events[0], ParsedEvent::TextDelta { .. }));
    match &events[1] {
        ParsedEvent::ApiRetry { attempt, max_retries, error, error_status, .. } => {
            assert_eq!(*attempt, 1);
            assert_eq!(*max_retries, 5);
            assert_eq!(error, "overloaded");
            assert_eq!(*error_status, Some(529));
        }
        other => panic!("expected ApiRetry, got {other:?}"),
    }

    let denied = p.feed_line(
        r#"{"type":"system","subtype":"permission_denied","tool":"Bash","reason":"not in allowedTools"}"#,
        &mut c,
    );
    assert_eq!(denied.len(), 1);
    match &denied[0] {
        ParsedEvent::PermissionDenied { tool, reason } => {
            assert_eq!(tool, "Bash");
            assert_eq!(reason, "not in allowedTools");
        }
        other => panic!("expected PermissionDenied, got {other:?}"),
    }
}

#[test]
fn thinking_delta_has_no_structural_block_event() {
    let mut p = parser();
    let mut c = Coalescer::new();
    p.feed_line(r#"{"type":"stream_event","event":{"type":"content_block_start","index":0,"content_block":{"type":"thinking"}}}"#, &mut c);
    p.feed_line(r#"{"type":"stream_event","event":{"type":"content_block_delta","index":0,"delta":{"type":"thinking_delta","thinking":"hmm"}}}"#, &mut c);

    let events = p.feed_line(
        r#"{"type":"assistant","message":{"role":"assistant","parent_tool_use_id":null,"content":[{"type":"thinking","thinking":"hmm"}]}}"#,
        &mut c,
    );
    assert_eq!(events.len(), 1);
    assert!(matches!(&events[0], ParsedEvent::ThinkingDelta { text, .. } if text == "hmm"));
}

#[test]
fn subagent_messages_are_flattened_by_role() {
    let mut p = parser();
    let mut c = Coalescer::new();
    let events = p.feed_line(
        r#"{"type":"assistant","message":{"role":"assistant","parent_tool_use_id":"toolu_task","content":[{"type":"text","text":"Investigating..."}]}}"#,
        &mut c,
    );
    assert_eq!(events.len(), 1);
    match &events[0] {
        ParsedEvent::SubagentMessage { parent_tool_use_id, role, text } => {
            assert_eq!(parent_tool_use_id, "toolu_task");
            assert_eq!(role, "assistant");
            assert_eq!(text, "Investigating...");
        }
        other => panic!("expected SubagentMessage, got {other:?}"),
    }
}

#[test]
fn result_event_extracts_all_fields() {
    let mut p = parser();
    let mut c = Coalescer::new();
    let events = p.feed_line(
        r#"{"type":"result","subtype":"success","is_error":false,"duration_ms":4213,"duration_api_ms":3190,"num_turns":1,"result":"Done.","session_id":"s1","total_cost_usd":0.0431,"permission_denials":[]}"#,
        &mut c,
    );
    assert_eq!(events.len(), 1);
    match &events[0] {
        ParsedEvent::Result {
            session_id,
            subtype,
            is_error,
            num_turns,
            duration_ms,
            duration_api_ms,
            result_text,
            permission_denials,
        } => {
            assert_eq!(session_id, "s1");
            assert_eq!(subtype, "success");
            assert!(!is_error);
            assert_eq!(*num_turns, 1);
            assert_eq!(*duration_ms, 4213);
            assert_eq!(*duration_api_ms, 3190);
            assert_eq!(result_text.as_deref(), Some("Done."));
            assert!(permission_denials.is_empty());
        }
        other => panic!("expected Result, got {other:?}"),
    }
}

#[test]
fn large_tool_result_is_truncated_with_no_full_copy() {
    let mut p = parser();
    let mut c = Coalescer::new();
    let big = "x".repeat(TOOL_RESULT_FULL_CAP + 1);
    let line = format!(
        r#"{{"type":"user","message":{{"role":"user","parent_tool_use_id":null,"content":[{{"type":"tool_result","tool_use_id":"t1","is_error":false,"content":[{{"type":"text","text":"{big}"}}]}}]}}}}"#
    );
    let events = p.feed_line(&line, &mut c);
    match &events[0] {
        ParsedEvent::ToolResult { full, summary, .. } => {
            assert!(full.is_none());
            assert!(summary.chars().count() <= SUMMARY_CHARS + 1);
        }
        other => panic!("expected ToolResult, got {other:?}"),
    }
}

#[test]
fn a_decoded_line_gives_what_the_raw_line_gives() {
    let raw = r#"{"type":"system","subtype":"permission_denied","message":"blocked"}"#;
    let mut p1 = parser();
    let mut c1 = Coalescer::new();
    let from_raw = p1.feed_line(raw, &mut c1);
    let mut p2 = parser();
    let mut c2 = Coalescer::new();
    let from_decoded = p2.handle_line(
        StreamLine::PermissionDenied { tool: None, reason: None, message: Some("blocked".to_string()) },
        &mut c2,
    );
    assert_eq!(format!("{from_raw:?}"), format!("{from_decoded:?}"));
    assert_eq!(from_raw.len(), 1);
}

#[test]
fn a_line_without_a_type_is_skipped() {
    let mut p = parser();
    let mut c = Coalescer::new();
    p.handle_line(text_delta(0, "pending"), &mut c);
    assert!(p.feed_line(r#"{"subtype":"init"}"#, &mut c).is_empty());
    assert!(p.feed_line(r#"[1,2,3]"#, &mut c).is_empty());
    assert!(!c.is_empty());
}

#[test]
fn chunks_for_one_block_coalesce_into_one_delta() {
    let mut p = parser();
    let mut c = Coalescer::new();
    p.handle_line(text_delta(2, "a"), &mut c);
    p.handle_line(text_delta(3, "x"), &mut c);
    p.handle_line(text_delta(2, "b"), &mut c);
    p.handle_line(StreamLine::ThinkingDelta { index: 2, thinking: "t".to_string() }, &mut c);
    let out = c.flush();
    assert_eq!(out.len(), 3);
    assert!(matches!(&out[0], ParsedEvent::TextDelta { block_index: 2, text } if text == "ab"));
    assert!(matches!(&out[1], ParsedEvent::TextDelta { block_index: 3, text } if text == "x"));
    assert!(matches!(&out[2], ParsedEvent::ThinkingDelta { block_index: 2, text } if text == "t"));
    assert!(c.is_empty());
    assert!(c.flush().is_empty());
}

#[test]
fn input_json_for_an_unknown_block_is_dropped() {
    let mut p = parser();
    let mut c = Coalescer::new();
    p.handle_line(StreamLine::InputJsonDelta { index: 7, partial_json: "{".to_string() }, &mut c);
    assert!(c.is_empty());
}

#[test]
fn text_block_takes_the_open_block_index_until_its_stop() {
    let mut p = parser();
    let mut c = Coalescer::new();
    p.handle_line(block_start(4), &mut c);
    let text = |t: &str| StreamLine::Message {
        role: MessageRole::Assistant,
        parent_tool_use_id: None,
        content: vec![ContentItem::Text { text: t.to_string() }],
    };
    let a = p.handle_line(text("a"), &mut c);
    assert!(matches!(&a[0], ParsedEvent::TextBlock { block_index: 4, .. }));
    p.handle_line(StreamLine::BlockStop { index: 3 }, &mut c);
    let b = p.handle_line(text("b"), &mut c);
    assert!(matches!(&b[0], ParsedEvent::TextBlock { block_index: 4, .. }));
    p.handle_line(StreamLine::BlockStop { index: 4 }, &mut c);
    let d = p.handle_line(text("d"), &mut c);
    assert!(matches!(&d[0], ParsedEvent::TextBlock { block_index: 0, .. }));
}

#[test]
fn subagent_items_flatten_tool_calls_results_and_other_kinds() {
    let mut p = parser();
    let mut c = Coalescer::new();
    let events = p.handle_line(
        StreamLine::Message {
            role: MessageRole::User,
            parent_tool_use_id: Some("toolu_task".to_string()),
            content: vec![
                ContentItem::ToolUse { id: "x".to_string(), name: None, input_json: None },
                ContentItem::ToolResult {
                    tool_use_id: "x".to_string(),
                    content: ToolResultContent::Blocks(vec![Some("a".to_string()), None, Some("b".to_string())]),
                    is_error: true,
                },
                ContentItem::Other { kind: "image".to_string() },
                ContentItem::Untyped,
            ],
        },
        &mut c,
    );
    let texts: Vec<(String, String)> = events
        .iter()
        .map(|e| match e {
            ParsedEvent::SubagentMessage { role, text, .. } => (role.clone(), text.clone()),
            other => panic!("unexpected {other:?}"),
        })
        .collect();
    assert_eq!(
        texts,
        vec![
            ("user".to_string(), "Tool: ?(null)".to_string()),
            ("user".to_string(), "Result: a\nb".to_string()),
            ("user".to_string(), "[image]".to_string()),
            ("user".to_string(), String::new()),
        ]
    );
}

#[test]
fn tool_use_without_input_completes_with_an_empty_object() {
    let mut p = parser();
    let mut c = Coalescer::new();
    let events = p.handle_line(
        StreamLine::Message {
            role: MessageRole::Assistant,
            parent_tool_use_id: None,
            content: vec![ContentItem::ToolUse { id: "t".to_string(), name: None, input_json: None }],
        },
        &mut c,
    );
    assert!(matches!(&events[0], ParsedEvent::ToolCallCompleted { name, input_json, .. } if name.is_empty() && input_json == "{}"));
}

#[test]
fn permission_denied_falls_back_to_message_and_unknown_tool() {
    let mut p = parser();
    let mut c = Coalescer::new();
    let events = p.handle_line(
        StreamLine::PermissionDenied { tool: None, reason: None, message: Some("blocked".to_string()) },
        &mut c,
    );
    assert!(matches!(&events[0], ParsedEvent::PermissionDenied { tool, reason } if tool == "unknown" && reason == "blocked"));
}

#[test]
fn long_summary_is_cut_with_an_ellipsis() {
    let mut p = parser();
    let mut c = Coalescer::new();
    let text = "y".repeat(SUMMARY_CHARS + 5);
    let events = p.handle_line(
        StreamLine::Message {
            role: MessageRole::User,
            parent_tool_use_id: None,
            content: vec![ContentItem::ToolResult {
                tool_use_id: "t".to_string(),
                content: ToolResultContent::Plain(text.clone()),
                is_error: false,
            }],
        },
        &mut c,
    );
    match &events[0] {
        ParsedEvent::ToolResult { summary, full, .. } => {
            assert_eq!(summary, &format!("{}\u{2026}", "y".repeat(SUMMARY_CHARS)));
            assert_eq!(full.as_deref(), Some(text.as_str()));
        }
        other => panic!("expected ToolResult, got {other:?}"),
    }
}

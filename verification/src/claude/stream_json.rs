//! Reading one stream-JSON line of the assistant CLI into a [`StreamLine`]: dispatch on
//! `type` (and `subtype`, and a stream event's `type`), with the fields each kind carries.
//! A missing string field reads as empty, a missing number as 0, a missing flag as false;
//! an unknown kind is `Ignored`.
use crate::claude::ndjson::{ContentItem, MessageRole, StreamLine, ToolResultContent};
use crate::json::{
    bool_field_exec, bool_of, get, get_exec, json_text, json_to_text, opt_str_field_exec, str_field, str_field_exec,
    str_list, str_list_exec, str_of, u64_field, u64_field_exec, JsonValue,
};
use crate::matching::opt_view;
use crate::text::{str_eq, strings_view};
use vstd::prelude::*;

verus! {

pub enum ResultContentModel {
    Plain(Seq<char>),
    Blocks(Seq<Option<Seq<char>>>),
    Absent,
}

pub enum ContentModel {
    Text(Seq<char>),
    Thinking,
    ToolUse(Seq<char>, Option<Seq<char>>, Option<Seq<char>>),
    ToolResult(Seq<char>, ResultContentModel, bool),
    Other(Seq<char>),
    Untyped,
}

pub enum LineModel {
    SystemInit(Seq<char>, Seq<char>, Seq<Seq<char>>, Seq<Seq<char>>, Seq<Seq<char>>, Seq<Seq<char>>),
    ApiRetry(u64, u64, u64, Seq<char>, Option<u64>),
    PermissionDenied(Option<Seq<char>>, Option<Seq<char>>, Option<Seq<char>>),
    BlockStart(u64, Option<(Seq<char>, Seq<char>)>),
    TextDelta(u64, Seq<char>),
    ThinkingDelta(u64, Seq<char>),
    InputJsonDelta(u64, Seq<char>),
    BlockStop(u64),
    Message(MessageRole, Option<Seq<char>>, Seq<ContentModel>),
    Result(Seq<char>, Seq<char>, bool, u64, u64, u64, Option<Seq<char>>, Seq<Seq<char>>),
    Ignored,
}

pub open spec fn result_content_view(c: ToolResultContent) -> ResultContentModel {
    match c {
        ToolResultContent::Plain(s) => ResultContentModel::Plain(s@),
        ToolResultContent::Blocks(b) => ResultContentModel::Blocks(b@.map_values(|o: Option<String>| opt_view(o))),
        ToolResultContent::Absent => ResultContentModel::Absent,
    }
}

pub open spec fn content_view(c: ContentItem) -> ContentModel {
    match c {
        ContentItem::Text { text } => ContentModel::Text(text@),
        ContentItem::Thinking => ContentModel::Thinking,
        ContentItem::ToolUse { id, name, input_json } => ContentModel::ToolUse(id@, opt_view(name), opt_view(input_json)),
        ContentItem::ToolResult { tool_use_id, content, is_error } => ContentModel::ToolResult(
            tool_use_id@,
            result_content_view(content),
            is_error,
        ),
        ContentItem::Other { kind } => ContentModel::Other(kind@),
        ContentItem::Untyped => ContentModel::Untyped,
    }
}

pub open spec fn line_view(l: StreamLine) -> LineModel {
    match l {
        StreamLine::SystemInit { session_id, model, tools, capabilities, mcp_errors, plugin_errors } => LineModel::SystemInit(
            session_id@,
            model@,
            strings_view(tools@),
            strings_view(capabilities@),
            strings_view(mcp_errors@),
            strings_view(plugin_errors@),
        ),
        StreamLine::ApiRetry { attempt, max_retries, retry_delay_ms, error, error_status } => LineModel::ApiRetry(
            attempt,
            max_retries,
            retry_delay_ms,
            error@,
            error_status,
        ),
        StreamLine::PermissionDenied { tool, reason, message } => LineModel::PermissionDenied(
            opt_view(tool),
            opt_view(reason),
            opt_view(message),
        ),
        StreamLine::BlockStart { index, tool_use } => LineModel::BlockStart(
            index,
            match tool_use {
                Some((id, name)) => Some((id@, name@)),
                None => None,
            },
        ),
        StreamLine::TextDelta { index, text } => LineModel::TextDelta(index, text@),
        StreamLine::ThinkingDelta { index, thinking } => LineModel::ThinkingDelta(index, thinking@),
        StreamLine::InputJsonDelta { index, partial_json } => LineModel::InputJsonDelta(index, partial_json@),
        StreamLine::BlockStop { index } => LineModel::BlockStop(index),
        StreamLine::Message { role, parent_tool_use_id, content } => LineModel::Message(
            role,
            opt_view(parent_tool_use_id),
            content@.map_values(|c: ContentItem| content_view(c)),
        ),
        StreamLine::Result {
            session_id,
            subtype,
            is_error,
            num_turns,
            duration_ms,
            duration_api_ms,
            result_text,
            permission_denials,
        } => LineModel::Result(
            session_id@,
            subtype@,
            is_error,
            num_turns,
            duration_ms,
            duration_api_ms,
            opt_view(result_text),
            strings_view(permission_denials@),
        ),
        StreamLine::Ignored => LineModel::Ignored,
    }
}

// ---------------------------------------------------------------------------------------
// What a JSON value reads as
// ---------------------------------------------------------------------------------------

pub open spec fn flag_field(v: JsonValue, key: Seq<char>) -> bool {
    match bool_of(get(v, key)) {
        Some(b) => b,
        None => false,
    }
}

/// A tool result's `content`: a string, or an array of blocks each with its `text` (if
/// a string), or absent.
pub open spec fn result_content_model(item: JsonValue) -> ResultContentModel {
    match get(item, "content"@) {
        Some(JsonValue::Str(s)) => ResultContentModel::Plain(s@),
        Some(JsonValue::Array(arr)) => ResultContentModel::Blocks(arr@.map_values(|b: JsonValue| str_of(get(b, "text"@)))),
        _ => ResultContentModel::Absent,
    }
}

/// One item of a message's `content`, by its `type`.
pub open spec fn content_model(item: JsonValue) -> ContentModel {
    match str_of(get(item, "type"@)) {
        Some(t) => if t == "text"@ {
            ContentModel::Text(str_field(item, "text"@))
        } else if t == "thinking"@ {
            ContentModel::Thinking
        } else if t == "tool_use"@ {
            ContentModel::ToolUse(
                str_field(item, "id"@),
                str_of(get(item, "name"@)),
                match get(item, "input"@) {
                    Some(x) => Some(json_text(x)),
                    None => None,
                },
            )
        } else if t == "tool_result"@ {
            ContentModel::ToolResult(str_field(item, "tool_use_id"@), result_content_model(item), flag_field(item, "is_error"@))
        } else {
            ContentModel::Other(t)
        },
        None => ContentModel::Untyped,
    }
}

/// A message line: its `message`'s parent tool use and content items.
pub open spec fn message_model(v: JsonValue, role: MessageRole) -> LineModel {
    match get(v, "message"@) {
        Some(m) => LineModel::Message(
            role,
            str_of(get(m, "parent_tool_use_id"@)),
            match get(m, "content"@) {
                Some(JsonValue::Array(items)) => items@.map_values(|x: JsonValue| content_model(x)),
                _ => Seq::empty(),
            },
        ),
        None => LineModel::Message(role, None, Seq::empty()),
    }
}

/// A `system` line, by its `subtype`.
pub open spec fn system_model(v: JsonValue) -> LineModel {
    match str_of(get(v, "subtype"@)) {
        Some(t) => if t == "init"@ {
            LineModel::SystemInit(
                str_field(v, "session_id"@),
                str_field(v, "model"@),
                str_list(v, "tools"@),
                str_list(v, "capabilities"@),
                str_list(v, "mcp_server_errors"@),
                str_list(v, "plugin_errors"@),
            )
        } else if t == "api_retry"@ {
            LineModel::ApiRetry(
                u64_field(v, "attempt"@),
                u64_field(v, "max_retries"@),
                u64_field(v, "retry_delay_ms"@),
                str_field(v, "error"@),
                crate::json::u64_of(get(v, "error_status"@)),
            )
        } else if t == "permission_denied"@ {
            LineModel::PermissionDenied(str_of(get(v, "tool"@)), str_of(get(v, "reason"@)), str_of(get(v, "message"@)))
        } else {
            LineModel::Ignored
        },
        None => LineModel::Ignored,
    }
}

/// A `stream_event` line, by its event's `type` (and a delta's `type`).
pub open spec fn event_model(v: JsonValue) -> LineModel {
    match get(v, "event"@) {
        None => LineModel::Ignored,
        Some(ev) => {
            let index = u64_field(ev, "index"@);
            match str_of(get(ev, "type"@)) {
                Some(t) => if t == "content_block_start"@ {
                    LineModel::BlockStart(
                        index,
                        match get(ev, "content_block"@) {
                            Some(b) => if str_of(get(b, "type"@)) == Some("tool_use"@) {
                                Some((str_field(b, "id"@), str_field(b, "name"@)))
                            } else {
                                None
                            },
                            None => None,
                        },
                    )
                } else if t == "content_block_delta"@ {
                    match get(ev, "delta"@) {
                        None => LineModel::Ignored,
                        Some(d) => match str_of(get(d, "type"@)) {
                            Some(dt) => if dt == "text_delta"@ {
                                LineModel::TextDelta(index, str_field(d, "text"@))
                            } else if dt == "thinking_delta"@ {
                                LineModel::ThinkingDelta(index, str_field(d, "thinking"@))
                            } else if dt == "input_json_delta"@ {
                                LineModel::InputJsonDelta(index, str_field(d, "partial_json"@))
                            } else {
                                LineModel::Ignored
                            },
                            None => LineModel::Ignored,
                        },
                    }
                } else if t == "content_block_stop"@ {
                    LineModel::BlockStop(index)
                } else {
                    LineModel::Ignored
                },
                None => LineModel::Ignored,
            }
        },
    }
}

/// A line's JSON value, by its `type`.
pub open spec fn line_model(v: JsonValue) -> LineModel {
    match str_of(get(v, "type"@)) {
        Some(t) => if t == "system"@ {
            system_model(v)
        } else if t == "stream_event"@ {
            event_model(v)
        } else if t == "assistant"@ {
            message_model(v, MessageRole::Assistant)
        } else if t == "user"@ {
            message_model(v, MessageRole::User)
        } else if t == "result"@ {
            LineModel::Result(
                str_field(v, "session_id"@),
                str_field(v, "subtype"@),
                flag_field(v, "is_error"@),
                u64_field(v, "num_turns"@),
                u64_field(v, "duration_ms"@),
                u64_field(v, "duration_api_ms"@),
                str_of(get(v, "result"@)),
                str_list(v, "permission_denials"@),
            )
        } else {
            LineModel::Ignored
        },
        None => LineModel::Ignored,
    }
}

// ---------------------------------------------------------------------------------------
// Executable
// ---------------------------------------------------------------------------------------

fn flag_field_exec(v: &JsonValue, key: &str) -> (r: bool)
    ensures
        r == flag_field(*v, key@),
{
    match bool_field_exec(v, key) {
        Some(b) => b,
        None => false,
    }
}

fn result_content_of(item: &JsonValue) -> (r: ToolResultContent)
    ensures
        result_content_view(r) == result_content_model(*item),
{
    match get_exec(item, "content") {
        Some(JsonValue::Str(s)) => ToolResultContent::Plain(s.clone()),
        Some(JsonValue::Array(arr)) => {
            let mut out: Vec<Option<String>> = Vec::new();
            let mut i: usize = 0;
            while i < arr.len()
                invariant
                    i <= arr@.len(),
                    out@.map_values(|o: Option<String>| opt_view(o)) == arr@.take(i as int).map_values(
                        |b: JsonValue| str_of(get(b, "text"@)),
                    ),
                decreases arr@.len() - i,
            {
                let t = opt_str_field_exec(&arr[i], "text");
                let ghost before = out@.map_values(|o: Option<String>| opt_view(o));
                out.push(t);
                proof {
                    assert(out@.map_values(|o: Option<String>| opt_view(o)) =~= before.push(opt_view(t)));
                    assert(arr@.take(i + 1).map_values(|b: JsonValue| str_of(get(b, "text"@))) =~= arr@.take(
                        i as int,
                    ).map_values(|b: JsonValue| str_of(get(b, "text"@))).push(str_of(get(arr@[i as int], "text"@))));
                }
                i += 1;
            }
            assert(arr@.take(arr@.len() as int) =~= arr@);
            ToolResultContent::Blocks(out)
        },
        _ => ToolResultContent::Absent,
    }
}

fn content_item_of(item: &JsonValue) -> (r: ContentItem)
    ensures
        content_view(r) == content_model(*item),
{
    match opt_str_field_exec(item, "type") {
        Some(t) => {
            if str_eq(t.as_str(), "text") {
                ContentItem::Text { text: str_field_exec(item, "text") }
            } else if str_eq(t.as_str(), "thinking") {
                ContentItem::Thinking
            } else if str_eq(t.as_str(), "tool_use") {
                let input_json = match get_exec(item, "input") {
                    Some(x) => Some(json_to_text(x)),
                    None => None,
                };
                ContentItem::ToolUse { id: str_field_exec(item, "id"), name: opt_str_field_exec(item, "name"), input_json }
            } else if str_eq(t.as_str(), "tool_result") {
                ContentItem::ToolResult {
                    tool_use_id: str_field_exec(item, "tool_use_id"),
                    content: result_content_of(item),
                    is_error: flag_field_exec(item, "is_error"),
                }
            } else {
                ContentItem::Other { kind: t }
            }
        },
        None => ContentItem::Untyped,
    }
}

fn message_of(v: &JsonValue, role: MessageRole) -> (r: StreamLine)
    ensures
        line_view(r) == message_model(*v, role),
{
    match get_exec(v, "message") {
        Some(m) => {
            let parent = opt_str_field_exec(m, "parent_tool_use_id");
            let mut content: Vec<ContentItem> = Vec::new();
            match get_exec(m, "content") {
                Some(JsonValue::Array(items)) => {
                    let mut i: usize = 0;
                    while i < items.len()
                        invariant
                            i <= items@.len(),
                            content@.map_values(|c: ContentItem| content_view(c)) == items@.take(i as int).map_values(
                                |x: JsonValue| content_model(x),
                            ),
                        decreases items@.len() - i,
                    {
                        let c = content_item_of(&items[i]);
                        let ghost before = content@.map_values(|c: ContentItem| content_view(c));
                        content.push(c);
                        proof {
                            assert(content@.map_values(|c: ContentItem| content_view(c)) =~= before.push(content_view(c)));
                            assert(items@.take(i + 1).map_values(|x: JsonValue| content_model(x)) =~= items@.take(
                                i as int,
                            ).map_values(|x: JsonValue| content_model(x)).push(content_model(items@[i as int])));
                        }
                        i += 1;
                    }
                    assert(items@.take(items@.len() as int) =~= items@);
                },
                _ => {
                    assert(content@.map_values(|c: ContentItem| content_view(c)) =~= Seq::<ContentModel>::empty());
                },
            }
            StreamLine::Message { role, parent_tool_use_id: parent, content }
        },
        None => {
            let content: Vec<ContentItem> = Vec::new();
            assert(content@.map_values(|c: ContentItem| content_view(c)) =~= Seq::<ContentModel>::empty());
            StreamLine::Message { role, parent_tool_use_id: None, content }
        },
    }
}

fn system_of(v: &JsonValue) -> (r: StreamLine)
    ensures
        line_view(r) == system_model(*v),
{
    match opt_str_field_exec(v, "subtype") {
        Some(t) => {
            if str_eq(t.as_str(), "init") {
                StreamLine::SystemInit {
                    session_id: str_field_exec(v, "session_id"),
                    model: str_field_exec(v, "model"),
                    tools: str_list_exec(v, "tools"),
                    capabilities: str_list_exec(v, "capabilities"),
                    mcp_errors: str_list_exec(v, "mcp_server_errors"),
                    plugin_errors: str_list_exec(v, "plugin_errors"),
                }
            } else if str_eq(t.as_str(), "api_retry") {
                StreamLine::ApiRetry {
                    attempt: u64_field_exec(v, "attempt"),
                    max_retries: u64_field_exec(v, "max_retries"),
                    retry_delay_ms: u64_field_exec(v, "retry_delay_ms"),
                    error: str_field_exec(v, "error"),
                    error_status: crate::json::u64_of_exec(get_exec(v, "error_status")),
                }
            } else if str_eq(t.as_str(), "permission_denied") {
                StreamLine::PermissionDenied {
                    tool: opt_str_field_exec(v, "tool"),
                    reason: opt_str_field_exec(v, "reason"),
                    message: opt_str_field_exec(v, "message"),
                }
            } else {
                StreamLine::Ignored
            }
        },
        None => StreamLine::Ignored,
    }
}

fn event_of(v: &JsonValue) -> (r: StreamLine)
    ensures
        line_view(r) == event_model(*v),
{
    let ev = match get_exec(v, "event") {
        Some(e) => e,
        None => return StreamLine::Ignored,
    };
    let index = u64_field_exec(ev, "index");
    match opt_str_field_exec(ev, "type") {
        Some(t) => {
            if str_eq(t.as_str(), "content_block_start") {
                let tool_use = match get_exec(ev, "content_block") {
                    Some(b) => {
                        let bt = opt_str_field_exec(b, "type");
                        let is_tool_use = match &bt {
                            Some(s) => str_eq(s.as_str(), "tool_use"),
                            None => false,
                        };
                        proof {
                            reveal_strlit("tool_use");
                        }
                        if is_tool_use {
                            Some((str_field_exec(b, "id"), str_field_exec(b, "name")))
                        } else {
                            None
                        }
                    },
                    None => None,
                };
                StreamLine::BlockStart { index, tool_use }
            } else if str_eq(t.as_str(), "content_block_delta") {
                match get_exec(ev, "delta") {
                    None => StreamLine::Ignored,
                    Some(d) => match opt_str_field_exec(d, "type") {
                        Some(dt) => {
                            if str_eq(dt.as_str(), "text_delta") {
                                StreamLine::TextDelta { index, text: str_field_exec(d, "text") }
                            } else if str_eq(dt.as_str(), "thinking_delta") {
                                StreamLine::ThinkingDelta { index, thinking: str_field_exec(d, "thinking") }
                            } else if str_eq(dt.as_str(), "input_json_delta") {
                                StreamLine::InputJsonDelta { index, partial_json: str_field_exec(d, "partial_json") }
                            } else {
                                StreamLine::Ignored
                            }
                        },
                        None => StreamLine::Ignored,
                    },
                }
            } else if str_eq(t.as_str(), "content_block_stop") {
                StreamLine::BlockStop { index }
            } else {
                StreamLine::Ignored
            }
        },
        None => StreamLine::Ignored,
    }
}

/// The stream line a parsed JSON value reads as.
pub fn stream_line_of(v: &JsonValue) -> (r: StreamLine)
    ensures
        line_view(r) == line_model(*v),
{
    match opt_str_field_exec(v, "type") {
        Some(t) => {
            if str_eq(t.as_str(), "system") {
                system_of(v)
            } else if str_eq(t.as_str(), "stream_event") {
                event_of(v)
            } else if str_eq(t.as_str(), "assistant") {
                message_of(v, MessageRole::Assistant)
            } else if str_eq(t.as_str(), "user") {
                message_of(v, MessageRole::User)
            } else if str_eq(t.as_str(), "result") {
                StreamLine::Result {
                    session_id: str_field_exec(v, "session_id"),
                    subtype: str_field_exec(v, "subtype"),
                    is_error: flag_field_exec(v, "is_error"),
                    num_turns: u64_field_exec(v, "num_turns"),
                    duration_ms: u64_field_exec(v, "duration_ms"),
                    duration_api_ms: u64_field_exec(v, "duration_api_ms"),
                    result_text: opt_str_field_exec(v, "result"),
                    permission_denials: str_list_exec(v, "permission_denials"),
                }
            } else {
                StreamLine::Ignored
            }
        },
        None => StreamLine::Ignored,
    }
}

} // verus!

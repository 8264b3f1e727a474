//! The pieces of the assistant's streaming-JSON output handling that do not read JSON:
//! which lines are parsed at all, the delta coalescer (deltas are buffered between
//! flushes and flushed before every structural event, so a block's deltas always precede
//! its completion), the content-block bookkeeping of stream events, and the truncation of
//! tool results.
use crate::matching::opt_view;
use crate::text::{append_str, is_ws, lead_ws, str_chars, str_eq, str_to_string, string_from_chars, sub_chars, trim, trim_chars, utf8_len};
use vstd::prelude::*;

verus! {

/// A line longer than this (in bytes) is skipped, not parsed.
pub const MAX_LINE_BYTES: usize = 33554432;

/// A tool result longer than this (in bytes) is sent without its full text.
pub const TOOL_RESULT_FULL_CAP: usize = 262144;

/// A tool result's summary keeps at most this many characters.
pub const SUMMARY_CHARS: usize = 200;

/// A line is parsed only when it is not blank and not longer than `MAX_LINE_BYTES`.
pub open spec fn should_parse_spec(line: Seq<char>) -> bool {
    trim(line).len() > 0 && utf8_len(line) <= MAX_LINE_BYTES
}

pub fn should_parse(line: &str) -> (r: bool)
    ensures
        r == should_parse_spec(line@),
{
    let v = str_chars(line);
    let t = trim_chars(v.as_slice());
    if t.len() == 0 {
        return false;
    }
    utf8_fits(v.as_slice(), MAX_LINE_BYTES)
}

/// Whether `v` takes at most `cap` bytes in UTF-8.
fn utf8_fits(v: &[char], cap: usize) -> (r: bool)
    ensures
        r == (utf8_len(v@) <= cap),
{
    let mut total: u128 = 0;
    let mut i: usize = 0;
    proof {
        crate::text::lemma_utf8_len_bounds(v@);
    }
    while i < v.len()
        invariant
            i <= v@.len(),
            total as nat == utf8_len(v@.take(i as int)),
            utf8_len(v@) <= 4 * v@.len(),
        decreases v@.len() - i,
    {
        proof {
            assert(v@.take(i + 1).drop_last() =~= v@.take(i as int));
            crate::text::lemma_utf8_len_split(v@, i + 1);
            crate::text::lemma_utf8_len_split(v@, i as int);
        }
        total = total + crate::text::char_utf8_len_exec(v[i]) as u128;
        i += 1;
    }
    assert(v@.take(v@.len() as int) =~= v@);
    total <= cap as u128
}

/// The first entry with key `k`, or -1.
pub open spec fn key_index<K, V>(b: Seq<(K, V)>, k: K) -> int
    decreases b.len(),
{
    if b.len() == 0 {
        -1
    } else {
        let r = key_index(b.drop_last(), k);
        if r >= 0 {
            r
        } else if b.last().0 == k {
            b.len() - 1
        } else {
            -1
        }
    }
}

/// The buffer after a chunk for key `k`: appended to that key's text, or a new entry.
pub open spec fn push_or_append_spec<K>(b: Seq<(K, Seq<char>)>, k: K, chunk: Seq<char>) -> Seq<(K, Seq<char>)> {
    let i = key_index(b, k);
    if i >= 0 {
        b.update(i, (k, b[i].1 + chunk))
    } else {
        b.push((k, chunk))
    }
}

pub proof fn lemma_key_index<K, V>(b: Seq<(K, V)>, k: K)
    ensures
        -1 <= key_index(b, k) < b.len(),
        key_index(b, k) >= 0 ==> b[key_index(b, k)].0 == k,
        key_index(b, k) >= 0 ==> forall|j: int| 0 <= j < key_index(b, k) ==> (#[trigger] b[j]).0 != k,
        key_index(b, k) < 0 ==> forall|j: int| 0 <= j < b.len() ==> (#[trigger] b[j]).0 != k,
    decreases b.len(),
{
    if b.len() > 0 {
        lemma_key_index(b.drop_last(), k);
        assert forall|j: int| 0 <= j < b.len() - 1 implies b.drop_last()[j] == #[trigger] b[j] by {}
    }
}

pub proof fn lemma_key_index_of_update<K, V>(b: Seq<(K, V)>, i: int, k: K, t: V)
    requires
        key_index(b, k) == i,
        0 <= i < b.len(),
    ensures
        key_index(b.update(i, (k, t)), k) == i,
{
    lemma_key_index(b, k);
    let u = b.update(i, (k, t));
    lemma_prefix_absent(u, k, i);
    assert(u.take(i + 1).drop_last() =~= u.take(i));
    lemma_key_index_prefix(u, k, i + 1);
}

pub proof fn lemma_prefix_absent<K, V>(b: Seq<(K, V)>, k: K, i: int)
    requires
        0 <= i <= b.len(),
        forall|j: int| 0 <= j < i ==> (#[trigger] b[j]).0 != k,
    ensures
        key_index(b.take(i), k) == -1,
    decreases i,
{
    if i > 0 {
        assert(b.take(i).drop_last() =~= b.take(i - 1));
        lemma_prefix_absent(b, k, i - 1);
    }
}

pub proof fn lemma_key_index_prefix<K, V>(b: Seq<(K, V)>, k: K, n: int)
    requires
        0 <= n <= b.len(),
        key_index(b.take(n), k) >= 0,
    ensures
        key_index(b, k) == key_index(b.take(n), k),
    decreases b.len() - n,
{
    if n < b.len() {
        assert(b.take(n + 1).drop_last() =~= b.take(n));
        lemma_key_index_prefix(b, k, n + 1);
    } else {
        assert(b.take(n) =~= b);
    }
}

/// Two chunks for the same key coalesce into one: buffering them one after the other is
/// buffering their concatenation.
pub proof fn law_chunks_coalesce<K>(b: Seq<(K, Seq<char>)>, k: K, c1: Seq<char>, c2: Seq<char>)
    ensures
        push_or_append_spec(push_or_append_spec(b, k, c1), k, c2) == push_or_append_spec(b, k, c1 + c2),
{
    lemma_key_index(b, k);
    let i = key_index(b, k);
    let b1 = push_or_append_spec(b, k, c1);
    if i >= 0 {
        lemma_key_index_of_update(b, i, k, b[i].1 + c1);
        assert(b1[i].1 + c2 =~= b[i].1 + (c1 + c2));
        assert(b1.update(i, (k, b1[i].1 + c2)) =~= b.update(i, (k, b[i].1 + (c1 + c2))));
    } else {
        lemma_prefix_absent(b1, k, b.len() as int);
        assert(b1.take(b.len() as int + 1).drop_last() =~= b1.take(b.len() as int));
        assert(b1.take(b.len() as int + 1) =~= b1);
        assert(key_index(b1, k) == b.len());
        assert(b1.update(b.len() as int, (k, c1 + c2)) =~= b.push((k, c1 + c2)));
    }
}

pub open spec fn buf_view_u32(v: Seq<(u32, String)>) -> Seq<(u32, Seq<char>)> {
    v.map_values(|e: (u32, String)| (e.0, e.1@))
}

pub open spec fn buf_view_str(v: Seq<(String, String)>) -> Seq<(Seq<char>, Seq<char>)> {
    v.map_values(|e: (String, String)| (e.0@, e.1@))
}

fn concat_string(a: &String, b: &str) -> (r: String)
    ensures
        r@ == a@ + b@,
{
    let mut v = str_chars(a.as_str());
    append_str(&mut v, b);
    string_from_chars(v.as_slice())
}

fn push_or_append_u32(buf: &mut Vec<(u32, String)>, key: u32, chunk: &str)
    ensures
        buf_view_u32(final(buf)@) == push_or_append_spec(buf_view_u32(old(buf)@), key, chunk@),
{
    let ghost bv = buf_view_u32(buf@);
    let mut i: usize = 0;
    while i < buf.len()
        invariant
            i <= buf@.len(),
            bv == buf_view_u32(buf@),
            buf@ == old(buf)@,
            key_index(bv.take(i as int), key) == -1,
        decreases buf@.len() - i,
    {
        assert(bv.take(i + 1).drop_last() =~= bv.take(i as int));
        assert(bv[i as int] == (buf@[i as int].0, buf@[i as int].1@));
        if buf[i].0 == key {
            proof {
                lemma_key_index_prefix(bv, key, i + 1);
            }
            let joined = concat_string(&buf[i].1, chunk);
            let ghost jv = joined@;
            buf.set(i, (key, joined));
            assert(buf_view_u32(buf@) =~= bv.update(i as int, (key, bv[i as int].1 + chunk@)));
            return;
        }
        i += 1;
    }
    assert(bv.take(buf@.len() as int) =~= bv);
    buf.push((key, str_to_string(chunk)));
    assert(buf_view_u32(buf@) =~= bv.push((key, chunk@)));
}

fn push_or_append_str(buf: &mut Vec<(String, String)>, key: &str, chunk: &str)
    ensures
        buf_view_str(final(buf)@) == push_or_append_spec(buf_view_str(old(buf)@), key@, chunk@),
{
    let ghost bv = buf_view_str(buf@);
    let mut i: usize = 0;
    while i < buf.len()
        invariant
            i <= buf@.len(),
            bv == buf_view_str(buf@),
            buf@ == old(buf)@,
            key_index(bv.take(i as int), key@) == -1,
        decreases buf@.len() - i,
    {
        assert(bv.take(i + 1).drop_last() =~= bv.take(i as int));
        assert(bv[i as int] == (buf@[i as int].0@, buf@[i as int].1@));
        if str_eq(buf[i].0.as_str(), key) {
            proof {
                lemma_key_index_prefix(bv, key@, i + 1);
            }
            let joined = concat_string(&buf[i].1, chunk);
            let k = buf[i].0.clone();
            buf.set(i, (k, joined));
            assert(buf_view_str(buf@) =~= bv.update(i as int, (key@, bv[i as int].1 + chunk@)));
            return;
        }
        i += 1;
    }
    assert(bv.take(buf@.len() as int) =~= bv);
    buf.push((str_to_string(key), str_to_string(chunk)));
    assert(buf_view_str(buf@) =~= bv.push((key@, chunk@)));
}

/// Buffers deltas between flushes: per block for text and thinking, per tool call for
/// input JSON, each in the order its key first appeared.
pub struct Coalescer {
    text: Vec<(u32, String)>,
    thinking: Vec<(u32, String)>,
    tool_input: Vec<(String, String)>,
}

/// A delta event, by its fields' text; any other event maps to tag 3.
pub open spec fn delta_model(e: ParsedEvent) -> (int, u32, Seq<char>, Seq<char>) {
    match e {
        ParsedEvent::TextDelta { block_index, text } => (0, block_index, Seq::empty(), text@),
        ParsedEvent::ThinkingDelta { block_index, text } => (1, block_index, Seq::empty(), text@),
        ParsedEvent::ToolCallInputDelta { tool_use_id, partial_json } => (2, 0, tool_use_id@, partial_json@),
        _ => (3, 0, Seq::empty(), Seq::empty()),
    }
}

/// The deltas a flush emits: text, then thinking, then tool input, each in buffer order.
pub open spec fn flush_spec(
    text: Seq<(u32, Seq<char>)>,
    thinking: Seq<(u32, Seq<char>)>,
    tool_input: Seq<(Seq<char>, Seq<char>)>,
) -> Seq<(int, u32, Seq<char>, Seq<char>)> {
    text.map_values(|e: (u32, Seq<char>)| (0int, e.0, Seq::<char>::empty(), e.1))
        + thinking.map_values(|e: (u32, Seq<char>)| (1int, e.0, Seq::<char>::empty(), e.1))
        + tool_input.map_values(|e: (Seq<char>, Seq<char>)| (2int, 0u32, e.0, e.1))
}

impl Coalescer {
    pub closed spec fn text_buf(&self) -> Seq<(u32, Seq<char>)> {
        buf_view_u32(self.text@)
    }

    pub closed spec fn thinking_buf(&self) -> Seq<(u32, Seq<char>)> {
        buf_view_u32(self.thinking@)
    }

    pub closed spec fn tool_input_buf(&self) -> Seq<(Seq<char>, Seq<char>)> {
        buf_view_str(self.tool_input@)
    }

    /// What a flush would emit now.
    pub open spec fn flush_view(&self) -> Seq<(int, u32, Seq<char>, Seq<char>)> {
        flush_spec(self.text_buf(), self.thinking_buf(), self.tool_input_buf())
    }

    pub open spec fn pending_len(&self) -> nat {
        self.text_buf().len() + self.thinking_buf().len() + self.tool_input_buf().len()
    }

    pub open spec fn is_drained(&self) -> bool {
        self.text_buf().len() == 0 && self.thinking_buf().len() == 0 && self.tool_input_buf().len() == 0
    }

    pub fn new() -> (r: Coalescer)
        ensures
            r.text_buf().len() == 0 && r.thinking_buf().len() == 0 && r.tool_input_buf().len() == 0,
    {
        Coalescer { text: Vec::new(), thinking: Vec::new(), tool_input: Vec::new() }
    }

    pub fn is_empty(&self) -> (r: bool)
        ensures
            r == (self.text_buf().len() == 0 && self.thinking_buf().len() == 0 && self.tool_input_buf().len() == 0),
    {
        self.text.len() == 0 && self.thinking.len() == 0 && self.tool_input.len() == 0
    }

    pub fn push_text(&mut self, index: u32, chunk: &str)
        ensures
            final(self).text_buf() == push_or_append_spec(old(self).text_buf(), index, chunk@),
            final(self).thinking_buf() == old(self).thinking_buf(),
            final(self).tool_input_buf() == old(self).tool_input_buf(),
    {
        push_or_append_u32(&mut self.text, index, chunk);
    }

    pub fn push_thinking(&mut self, index: u32, chunk: &str)
        ensures
            final(self).thinking_buf() == push_or_append_spec(old(self).thinking_buf(), index, chunk@),
            final(self).text_buf() == old(self).text_buf(),
            final(self).tool_input_buf() == old(self).tool_input_buf(),
    {
        push_or_append_u32(&mut self.thinking, index, chunk);
    }

    pub fn push_tool_input(&mut self, tool_use_id: &str, chunk: &str)
        ensures
            final(self).tool_input_buf() == push_or_append_spec(old(self).tool_input_buf(), tool_use_id@, chunk@),
            final(self).text_buf() == old(self).text_buf(),
            final(self).thinking_buf() == old(self).thinking_buf(),
    {
        push_or_append_str(&mut self.tool_input, tool_use_id, chunk);
    }

    /// Drains every buffer into deltas: text, then thinking, then tool input.
    pub fn flush(&mut self) -> (r: Vec<ParsedEvent>)
        ensures
            r@.map_values(|d: ParsedEvent| delta_model(d)) == old(self).flush_view(),
            r@.len() == old(self).pending_len(),
            final(self).is_drained(),
    {
        let ghost t0 = self.text_buf();
        let ghost h0 = self.thinking_buf();
        let ghost u0 = self.tool_input_buf();
        let mut out: Vec<ParsedEvent> = Vec::new();
        let mut text: Vec<(u32, String)> = Vec::new();
        std::mem::swap(&mut text, &mut self.text);
        let mut thinking: Vec<(u32, String)> = Vec::new();
        std::mem::swap(&mut thinking, &mut self.thinking);
        let mut tool_input: Vec<(String, String)> = Vec::new();
        std::mem::swap(&mut tool_input, &mut self.tool_input);
        let mut i: usize = 0;
        while i < text.len()
            invariant
                i <= text@.len(),
                t0 == buf_view_u32(text@),
                out@.map_values(|d: ParsedEvent| delta_model(d)) == t0.take(i as int).map_values(
                    |e: (u32, Seq<char>)| (0int, e.0, Seq::<char>::empty(), e.1),
                ),
            decreases text@.len() - i,
        {
            let d = ParsedEvent::TextDelta { block_index: text[i].0, text: text[i].1.clone() };
            let ghost m0 = out@.map_values(|d: ParsedEvent| delta_model(d));
            out.push(d);
            proof {
                assert(t0[i as int] == (text@[i as int].0, text@[i as int].1@));
                assert(out@.map_values(|d: ParsedEvent| delta_model(d)) =~= m0.push(delta_model(d)));
                assert(t0.take(i + 1).map_values(|e: (u32, Seq<char>)| (0int, e.0, Seq::<char>::empty(), e.1))
                    =~= t0.take(i as int).map_values(|e: (u32, Seq<char>)| (0int, e.0, Seq::<char>::empty(), e.1)).push(delta_model(d)));
            }
            i += 1;
        }
        assert(t0.take(text@.len() as int) =~= t0);
        let ghost a = out@.map_values(|d: ParsedEvent| delta_model(d));
        let mut j: usize = 0;
        while j < thinking.len()
            invariant
                j <= thinking@.len(),
                h0 == buf_view_u32(thinking@),
                out@.map_values(|d: ParsedEvent| delta_model(d)) == a + h0.take(j as int).map_values(
                    |e: (u32, Seq<char>)| (1int, e.0, Seq::<char>::empty(), e.1),
                ),
            decreases thinking@.len() - j,
        {
            let d = ParsedEvent::ThinkingDelta { block_index: thinking[j].0, text: thinking[j].1.clone() };
            let ghost m0 = out@.map_values(|d: ParsedEvent| delta_model(d));
            out.push(d);
            proof {
                assert(h0[j as int] == (thinking@[j as int].0, thinking@[j as int].1@));
                assert(out@.map_values(|d: ParsedEvent| delta_model(d)) =~= m0.push(delta_model(d)));
                assert(h0.take(j + 1).map_values(|e: (u32, Seq<char>)| (1int, e.0, Seq::<char>::empty(), e.1))
                    =~= h0.take(j as int).map_values(|e: (u32, Seq<char>)| (1int, e.0, Seq::<char>::empty(), e.1)).push(delta_model(d)));
            }
            j += 1;
        }
        assert(h0.take(thinking@.len() as int) =~= h0);
        let ghost b = out@.map_values(|d: ParsedEvent| delta_model(d));
        let mut k: usize = 0;
        while k < tool_input.len()
            invariant
                k <= tool_input@.len(),
                u0 == buf_view_str(tool_input@),
                out@.map_values(|d: ParsedEvent| delta_model(d)) == b + u0.take(k as int).map_values(
                    |e: (Seq<char>, Seq<char>)| (2int, 0u32, e.0, e.1),
                ),
            decreases tool_input@.len() - k,
        {
            let d = ParsedEvent::ToolCallInputDelta { tool_use_id: tool_input[k].0.clone(), partial_json: tool_input[k].1.clone() };
            let ghost m0 = out@.map_values(|d: ParsedEvent| delta_model(d));
            out.push(d);
            proof {
                assert(u0[k as int] == (tool_input@[k as int].0@, tool_input@[k as int].1@));
                assert(out@.map_values(|d: ParsedEvent| delta_model(d)) =~= m0.push(delta_model(d)));
                assert(u0.take(k + 1).map_values(|e: (Seq<char>, Seq<char>)| (2int, 0u32, e.0, e.1))
                    =~= u0.take(k as int).map_values(|e: (Seq<char>, Seq<char>)| (2int, 0u32, e.0, e.1)).push(delta_model(d)));
            }
            k += 1;
        }
        assert(u0.take(tool_input@.len() as int) =~= u0);
        proof {
            assert(self.text@.len() == 0);
            assert(buf_view_u32(self.text@).len() == 0);
            assert(buf_view_u32(self.thinking@).len() == 0);
            assert(buf_view_str(self.tool_input@).len() == 0);
        }
        out
    }
}


/// An event the parser emits: the chat events of a turn, without the turn id, which
/// the parser holds and its caller attaches.
#[derive(Debug, Clone)]
pub enum ParsedEvent {
    SessionReady {
        session_id: String,
        model: String,
        tools: Vec<String>,
        capabilities: Vec<String>,
        mcp_errors: Vec<String>,
        plugin_errors: Vec<String>,
    },
    TextDelta { block_index: u32, text: String },
    TextBlock { block_index: u32, text: String },
    ThinkingDelta { block_index: u32, text: String },
    ToolCallStarted { tool_use_id: String, name: String },
    ToolCallInputDelta { tool_use_id: String, partial_json: String },
    /// `input_json` is the call's input as JSON text.
    ToolCallCompleted { tool_use_id: String, name: String, input_json: String },
    ToolResult { tool_use_id: String, is_error: bool, summary: String, full: Option<String> },
    ApiRetry { attempt: u32, max_retries: u32, retry_delay_ms: u64, error: String, error_status: Option<u16> },
    PermissionDenied { tool: String, reason: String },
    SubagentMessage { parent_tool_use_id: String, role: String, text: String },
    Result {
        session_id: String,
        subtype: String,
        is_error: bool,
        num_turns: u32,
        duration_ms: u64,
        duration_api_ms: u64,
        result_text: Option<String>,
        permission_denials: Vec<String>,
    },
}

/// Who wrote a message line.
#[derive(Debug, Clone, Copy, PartialEq, Eq, Structural)]
pub enum MessageRole {
    Assistant,
    User,
}

/// A tool result's `content`: a bare string, the `text` of each block of an array
/// (`None` for a block without one), or anything else.
#[derive(Debug, Clone)]
pub enum ToolResultContent {
    Plain(String),
    Blocks(Vec<Option<String>>),
    Absent,
}

/// One item of a message's `content`, with the fields the parser reads (a missing
/// `text`, `id` or `tool_use_id` reads as empty).
#[derive(Debug, Clone)]
pub enum ContentItem {
    Text { text: String },
    Thinking,
    /// `input_json` is the `input` field as JSON text, if present.
    ToolUse { id: String, name: Option<String>, input_json: Option<String> },
    ToolResult { tool_use_id: String, content: ToolResultContent, is_error: bool },
    /// Any other `type`.
    Other { kind: String },
    /// No `type` at all.
    Untyped,
}

/// A decoded stream line: what the parser reads of one JSON object. Numbers are the
/// JSON values read as `u64` (missing reads as 0); a line that is not JSON, or whose
/// `type`, `subtype`, event or delta the parser does not know, is `Ignored`.
#[derive(Debug, Clone)]
pub enum StreamLine {
    SystemInit {
        session_id: String,
        model: String,
        tools: Vec<String>,
        capabilities: Vec<String>,
        mcp_errors: Vec<String>,
        plugin_errors: Vec<String>,
    },
    ApiRetry { attempt: u64, max_retries: u64, retry_delay_ms: u64, error: String, error_status: Option<u64> },
    PermissionDenied { tool: Option<String>, reason: Option<String>, message: Option<String> },
    /// `tool_use` is the block's `(id, name)` when it is a `tool_use` block.
    BlockStart { index: u64, tool_use: Option<(String, String)> },
    TextDelta { index: u64, text: String },
    ThinkingDelta { index: u64, thinking: String },
    InputJsonDelta { index: u64, partial_json: String },
    BlockStop { index: u64 },
    Message { role: MessageRole, parent_tool_use_id: Option<String>, content: Vec<ContentItem> },
    Result {
        session_id: String,
        subtype: String,
        is_error: bool,
        num_turns: u64,
        duration_ms: u64,
        duration_api_ms: u64,
        result_text: Option<String>,
        permission_denials: Vec<String>,
    },
    Ignored,
}

pub open spec fn role_text(r: MessageRole) -> Seq<char> {
    match r {
        MessageRole::Assistant => "assistant"@,
        MessageRole::User => "user"@,
    }
}

pub open spec fn or_default(o: Option<String>, d: Seq<char>) -> Seq<char> {
    match o {
        Some(s) => s@,
        None => d,
    }
}

/// The texts of the blocks that have one, in order.
pub open spec fn present_texts(v: Seq<Option<String>>) -> Seq<Seq<char>>
    decreases v.len(),
{
    if v.len() == 0 {
        Seq::empty()
    } else {
        match v.last() {
            Some(t) => present_texts(v.drop_last()).push(t@),
            None => present_texts(v.drop_last()),
        }
    }
}

/// A tool result's text: the string, or the blocks' texts joined with newlines.
pub open spec fn result_text_spec(c: ToolResultContent) -> Seq<char> {
    match c {
        ToolResultContent::Plain(s) => s@,
        ToolResultContent::Blocks(v) => crate::textops::join_with(present_texts(v@), seq!['\n']),
        ToolResultContent::Absent => Seq::empty(),
    }
}

/// At most `max` characters: longer text keeps its first `max` and gains an ellipsis.
pub open spec fn truncate_spec(t: Seq<char>, max: nat) -> Seq<char> {
    if t.len() <= max {
        t
    } else {
        t.take(max as int).push('\u{2026}')
    }
}

/// A sub-agent's content item, flattened to one line of text.
pub open spec fn flatten_spec(item: ContentItem) -> Seq<char> {
    match item {
        ContentItem::Text { text } => text@,
        ContentItem::Thinking => "[thinking]"@,
        ContentItem::ToolUse { name, input_json, .. } => "Tool: "@ + or_default(name, "?"@) + "("@ + or_default(
            input_json,
            "null"@,
        ) + ")"@,
        ContentItem::ToolResult { content, .. } => "Result: "@ + result_text_spec(content),
        ContentItem::Other { kind } => "["@ + kind@ + "]"@,
        ContentItem::Untyped => Seq::empty(),
    }
}

/// Whether a content item flushes the pending deltas.
pub open spec fn item_flushes(role: MessageRole, parent: Option<String>, item: ContentItem) -> bool {
    parent is Some || match item {
        ContentItem::Text { .. } => role == MessageRole::Assistant,
        ContentItem::Thinking => role == MessageRole::Assistant,
        ContentItem::ToolUse { .. } => role == MessageRole::Assistant,
        ContentItem::ToolResult { .. } => role == MessageRole::User,
        _ => false,
    }
}

/// Whether a content item emits an event.
pub open spec fn item_emits(role: MessageRole, parent: Option<String>, item: ContentItem) -> bool {
    parent is Some || match item {
        ContentItem::Text { .. } => role == MessageRole::Assistant,
        ContentItem::ToolUse { .. } => role == MessageRole::Assistant,
        ContentItem::ToolResult { .. } => role == MessageRole::User,
        _ => false,
    }
}

pub open spec fn flush_pred(role: MessageRole, parent: Option<String>) -> spec_fn(ContentItem) -> bool {
    |it: ContentItem| item_flushes(role, parent, it)
}

pub open spec fn emit_pred(role: MessageRole, parent: Option<String>) -> spec_fn(ContentItem) -> bool {
    |it: ContentItem| item_emits(role, parent, it)
}

/// The event of a tool result: the summary is the text cut to `SUMMARY_CHARS`, and the
/// full text rides along only when it fits in `TOOL_RESULT_FULL_CAP` bytes.
pub open spec fn tool_result_ok(id: Seq<char>, text: Seq<char>, is_error: bool, e: ParsedEvent) -> bool {
    &&& e matches ParsedEvent::ToolResult { tool_use_id, is_error: b, summary, full }
    &&& tool_use_id@ == id
    &&& b == is_error
    &&& summary@ == truncate_spec(text, SUMMARY_CHARS as nat)
    &&& opt_view(full) == (if utf8_len(text) <= TOOL_RESULT_FULL_CAP {
        Some(text)
    } else {
        None::<Seq<char>>
    })
}

/// The event an emitting content item gives.
pub open spec fn item_event_ok(
    role: MessageRole,
    parent: Option<String>,
    item: ContentItem,
    block_index: u32,
    e: ParsedEvent,
) -> bool {
    match parent {
        Some(p) => {
            &&& e matches ParsedEvent::SubagentMessage { parent_tool_use_id, role: r, text }
            &&& parent_tool_use_id@ == p@
            &&& r@ == role_text(role)
            &&& text@ == flatten_spec(item)
        },
        None => match item {
            ContentItem::Text { text } => {
                &&& e matches ParsedEvent::TextBlock { block_index: b, text: t }
                &&& b == block_index
                &&& t@ == text@
            },
            ContentItem::ToolUse { id, name, input_json } => {
                &&& e matches ParsedEvent::ToolCallCompleted { tool_use_id, name: n, input_json: j }
                &&& tool_use_id@ == id@
                &&& n@ == or_default(name, Seq::empty())
                &&& j@ == or_default(input_json, "{}"@)
            },
            ContentItem::ToolResult { tool_use_id, content, is_error } => tool_result_ok(
                tool_use_id@,
                result_text_spec(content),
                is_error,
                e,
            ),
            _ => false,
        },
    }
}

/// Whether a line flushes the pending deltas before its events.
pub open spec fn line_flushes(line: StreamLine) -> bool {
    match line {
        StreamLine::ApiRetry { .. } => true,
        StreamLine::PermissionDenied { .. } => true,
        StreamLine::BlockStart { tool_use, .. } => tool_use is Some,
        StreamLine::Message { role, parent_tool_use_id, content } => content@.filter(
            flush_pred(role, parent_tool_use_id),
        ).len() > 0,
        StreamLine::Result { .. } => true,
        _ => false,
    }
}

/// The content items of a message line that emit an event, in order.
pub open spec fn emitted_items(line: StreamLine) -> Seq<ContentItem> {
    match line {
        StreamLine::Message { role, parent_tool_use_id, content } => content@.filter(
            emit_pred(role, parent_tool_use_id),
        ),
        _ => Seq::empty(),
    }
}

/// How many events a line emits after the flushed deltas.
pub open spec fn line_events(line: StreamLine) -> nat {
    match line {
        StreamLine::SystemInit { .. } => 1,
        StreamLine::ApiRetry { .. } => 1,
        StreamLine::PermissionDenied { .. } => 1,
        StreamLine::BlockStart { tool_use, .. } => if tool_use is Some {
            1
        } else {
            0
        },
        StreamLine::Message { .. } => emitted_items(line).len(),
        StreamLine::Result { .. } => 1,
        _ => 0,
    }
}

pub open spec fn open_or_zero(open: Option<u32>) -> u32 {
    match open {
        Some(i) => i,
        None => 0,
    }
}

/// The `j`th event of a line (after the flushed deltas), given the open block.
pub open spec fn line_event_ok(line: StreamLine, open: Option<u32>, j: int, e: ParsedEvent) -> bool {
    match line {
        StreamLine::SystemInit { session_id, model, tools, capabilities, mcp_errors, plugin_errors } => e
            == ParsedEvent::SessionReady {
            session_id,
            model,
            tools,
            capabilities,
            mcp_errors,
            plugin_errors,
        },
        StreamLine::ApiRetry { attempt, max_retries, retry_delay_ms, error, error_status } => e
            == ParsedEvent::ApiRetry {
            attempt: attempt as u32,
            max_retries: max_retries as u32,
            retry_delay_ms,
            error,
            error_status: match error_status {
                Some(s) => Some(s as u16),
                None => None,
            },
        },
        StreamLine::PermissionDenied { tool, reason, message } => {
            &&& e matches ParsedEvent::PermissionDenied { tool: t, reason: r }
            &&& t@ == or_default(tool, "unknown"@)
            &&& r@ == (match reason {
                Some(x) => x@,
                None => or_default(message, Seq::empty()),
            })
        },
        StreamLine::BlockStart { tool_use, .. } => match tool_use {
            Some((id, name)) => e == ParsedEvent::ToolCallStarted { tool_use_id: id, name },
            None => false,
        },
        StreamLine::Message { role, parent_tool_use_id, .. } => item_event_ok(
            role,
            parent_tool_use_id,
            emitted_items(line)[j],
            open_or_zero(open),
            e,
        ),
        StreamLine::Result {
            session_id,
            subtype,
            is_error,
            num_turns,
            duration_ms,
            duration_api_ms,
            result_text,
            permission_denials,
        } => e == ParsedEvent::Result {
            session_id,
            subtype,
            is_error,
            num_turns: num_turns as u32,
            duration_ms,
            duration_api_ms,
            result_text,
            permission_denials,
        },
        _ => false,
    }
}

/// `k`'s entry set to `v`: replaced in place, or added at the end.
pub open spec fn set_key<K, V>(b: Seq<(K, V)>, k: K, v: V) -> Seq<(K, V)> {
    let i = key_index(b, k);
    if i >= 0 {
        b.update(i, (k, v))
    } else {
        b.push((k, v))
    }
}

pub open spec fn lookup_key<K, V>(b: Seq<(K, V)>, k: K) -> Option<V> {
    let i = key_index(b, k);
    if i >= 0 {
        Some(b[i].1)
    } else {
        None
    }
}

/// The open block after a line: a block start opens its block, the stop of the open
/// block closes it.
pub open spec fn open_after(open: Option<u32>, line: StreamLine) -> Option<u32> {
    match line {
        StreamLine::BlockStart { index, .. } => Some(index as u32),
        StreamLine::BlockStop { index } => if open == Some(index as u32) {
            None
        } else {
            open
        },
        _ => open,
    }
}

/// The tool-call ids by block after a line: a tool-use block start records its id.
pub open spec fn ids_after(ids: Seq<(u32, Seq<char>)>, line: StreamLine) -> Seq<(u32, Seq<char>)> {
    match line {
        StreamLine::BlockStart { index, tool_use } => match tool_use {
            Some(t) => set_key(ids, index as u32, t.0@),
            None => ids,
        },
        _ => ids,
    }
}

pub open spec fn text_after(t: Seq<(u32, Seq<char>)>, line: StreamLine) -> Seq<(u32, Seq<char>)> {
    match line {
        StreamLine::TextDelta { index, text } => push_or_append_spec(t, index as u32, text@),
        _ => t,
    }
}

pub open spec fn thinking_after(t: Seq<(u32, Seq<char>)>, line: StreamLine) -> Seq<(u32, Seq<char>)> {
    match line {
        StreamLine::ThinkingDelta { index, thinking } => push_or_append_spec(t, index as u32, thinking@),
        _ => t,
    }
}

/// Input-JSON deltas are kept only for a block whose tool-call id is known.
pub open spec fn tool_input_after(
    u: Seq<(Seq<char>, Seq<char>)>,
    ids: Seq<(u32, Seq<char>)>,
    line: StreamLine,
) -> Seq<(Seq<char>, Seq<char>)> {
    match line {
        StreamLine::InputJsonDelta { index, partial_json } => match lookup_key(ids, index as u32) {
            Some(id) => push_or_append_spec(u, id, partial_json@),
            None => u,
        },
        _ => u,
    }
}

/// How many flushed deltas lead a line's output.
pub open spec fn flushed_len(line: StreamLine, c: Coalescer) -> nat {
    if line_flushes(line) {
        c.pending_len()
    } else {
        0
    }
}


fn lookup_u32(buf: &Vec<(u32, String)>, key: u32) -> (r: Option<usize>)
    ensures
        match r {
            Some(i) => i < buf@.len() && i as int == key_index(buf_view_u32(buf@), key),
            None => key_index(buf_view_u32(buf@), key) < 0,
        },
{
    let ghost bv = buf_view_u32(buf@);
    let mut i: usize = 0;
    while i < buf.len()
        invariant
            i <= buf@.len(),
            bv == buf_view_u32(buf@),
            key_index(bv.take(i as int), key) == -1,
        decreases buf@.len() - i,
    {
        assert(bv.take(i + 1).drop_last() =~= bv.take(i as int));
        assert(bv[i as int] == (buf@[i as int].0, buf@[i as int].1@));
        if buf[i].0 == key {
            proof {
                lemma_key_index_prefix(bv, key, i + 1);
            }
            return Some(i);
        }
        i += 1;
    }
    assert(bv.take(buf@.len() as int) =~= bv);
    None
}

fn set_u32(buf: &mut Vec<(u32, String)>, key: u32, v: String)
    ensures
        buf_view_u32(final(buf)@) == set_key(buf_view_u32(old(buf)@), key, v@),
{
    let ghost bv = buf_view_u32(buf@);
    match lookup_u32(buf, key) {
        Some(i) => {
            proof {
                lemma_key_index(bv, key);
            }
            let ghost vv = v@;
            buf.set(i, (key, v));
            assert(buf_view_u32(buf@) =~= bv.update(i as int, (key, vv)));
        },
        None => {
            let ghost vv = v@;
            buf.push((key, v));
            assert(buf_view_u32(buf@) =~= bv.push((key, vv)));
        },
    }
}

fn truncate_text(t: &str, max: usize) -> (r: String)
    ensures
        r@ == truncate_spec(t@, max as nat),
{
    let v = str_chars(t);
    if v.len() <= max {
        return str_to_string(t);
    }
    let mut head = sub_chars(v.as_slice(), 0, max);
    head.push('\u{2026}');
    string_from_chars(head.as_slice())
}

fn join_present(v: &Vec<Option<String>>) -> (r: String)
    ensures
        r@ == crate::textops::join_with(present_texts(v@), seq!['\n']),
{
    let mut out: Vec<char> = Vec::new();
    let mut n: usize = 0;
    let mut i: usize = 0;
    while i < v.len()
        invariant
            i <= v@.len(),
            n <= i,
            n == present_texts(v@.take(i as int)).len(),
            out@ == crate::textops::join_with(present_texts(v@.take(i as int)), seq!['\n']),
        decreases v@.len() - i,
    {
        let ghost p = present_texts(v@.take(i as int));
        proof {
            assert(v@.take(i + 1).drop_last() =~= v@.take(i as int));
            assert(v@.take(i + 1).last() == v@[i as int]);
        }
        match &v[i] {
            Some(t) => {
                proof {
                    assert(p.push(t@).drop_last() =~= p);
                }
                if n > 0 {
                    out.push('\n');
                }
                append_str(&mut out, t.as_str());
                n += 1;
            },
            None => {},
        }
        i += 1;
    }
    assert(v@.take(v@.len() as int) =~= v@);
    string_from_chars(out.as_slice())
}

fn result_text(c: &ToolResultContent) -> (r: String)
    ensures
        r@ == result_text_spec(*c),
{
    match c {
        ToolResultContent::Plain(s) => s.clone(),
        ToolResultContent::Blocks(v) => join_present(v),
        ToolResultContent::Absent => String::new(),
    }
}

fn flatten(item: &ContentItem) -> (r: String)
    ensures
        r@ == flatten_spec(*item),
{
    match item {
        ContentItem::Text { text } => text.clone(),
        ContentItem::Thinking => str_to_string("[thinking]"),
        ContentItem::ToolUse { name, input_json, .. } => {
            let mut v = str_chars("Tool: ");
            match name {
                Some(n) => append_str(&mut v, n.as_str()),
                None => append_str(&mut v, "?"),
            }
            append_str(&mut v, "(");
            match input_json {
                Some(j) => append_str(&mut v, j.as_str()),
                None => append_str(&mut v, "null"),
            }
            append_str(&mut v, ")");
            string_from_chars(v.as_slice())
        },
        ContentItem::ToolResult { content, .. } => {
            let t = result_text(content);
            crate::text::concat_str("Result: ", t.as_str())
        },
        ContentItem::Other { kind } => {
            let mut v = str_chars("[");
            append_str(&mut v, kind.as_str());
            append_str(&mut v, "]");
            string_from_chars(v.as_slice())
        },
        ContentItem::Untyped => String::new(),
    }
}

fn role_string(role: MessageRole) -> (r: String)
    ensures
        r@ == role_text(role),
{
    match role {
        MessageRole::Assistant => str_to_string("assistant"),
        MessageRole::User => str_to_string("user"),
    }
}

fn item_flushes_exec(role: MessageRole, parent: &Option<String>, item: &ContentItem) -> (r: bool)
    ensures
        r == item_flushes(role, *parent, *item),
{
    if parent.is_some() {
        return true;
    }
    match item {
        ContentItem::Text { .. } => role == MessageRole::Assistant,
        ContentItem::Thinking => role == MessageRole::Assistant,
        ContentItem::ToolUse { .. } => role == MessageRole::Assistant,
        ContentItem::ToolResult { .. } => role == MessageRole::User,
        _ => false,
    }
}

fn item_emits_exec(role: MessageRole, parent: &Option<String>, item: &ContentItem) -> (r: bool)
    ensures
        r == item_emits(role, *parent, *item),
{
    if parent.is_some() {
        return true;
    }
    match item {
        ContentItem::Text { .. } => role == MessageRole::Assistant,
        ContentItem::ToolUse { .. } => role == MessageRole::Assistant,
        ContentItem::ToolResult { .. } => role == MessageRole::User,
        _ => false,
    }
}

fn tool_result_event(id: String, text: String, is_error: bool) -> (e: ParsedEvent)
    ensures
        tool_result_ok(id@, text@, is_error, e),
{
    let summary = truncate_text(text.as_str(), SUMMARY_CHARS);
    let v = str_chars(text.as_str());
    let full = if utf8_fits(v.as_slice(), TOOL_RESULT_FULL_CAP) {
        Some(text)
    } else {
        None
    };
    ParsedEvent::ToolResult { tool_use_id: id, is_error, summary, full }
}

fn item_event(role: MessageRole, parent: &Option<String>, item: &ContentItem, block_index: u32) -> (e: ParsedEvent)
    requires
        item_emits(role, *parent, *item),
    ensures
        item_event_ok(role, *parent, *item, block_index, e),
{
    match parent {
        Some(p) => ParsedEvent::SubagentMessage {
            parent_tool_use_id: p.clone(),
            role: role_string(role),
            text: flatten(item),
        },
        None => match item {
            ContentItem::Text { text } => ParsedEvent::TextBlock { block_index, text: text.clone() },
            ContentItem::ToolUse { id, name, input_json } => {
                let n = match name {
                    Some(n) => n.clone(),
                    None => String::new(),
                };
                let j = match input_json {
                    Some(j) => j.clone(),
                    None => str_to_string("{}"),
                };
                ParsedEvent::ToolCallCompleted { tool_use_id: id.clone(), name: n, input_json: j }
            },
            ContentItem::ToolResult { tool_use_id, content, is_error } => {
                let text = result_text(content);
                tool_result_event(tool_use_id.clone(), text, *is_error)
            },
            _ => {
                proof {
                    assert(false);
                }
                ParsedEvent::TextBlock { block_index, text: String::new() }
            },
        },
    }
}

/// The pending deltas, then `e`.
fn flush_then(coalescer: &mut Coalescer, e: ParsedEvent) -> (r: Vec<ParsedEvent>)
    ensures
        r@.len() == old(coalescer).pending_len() + 1,
        r@.take(old(coalescer).pending_len() as int).map_values(|d: ParsedEvent| delta_model(d))
            == old(coalescer).flush_view(),
        r@[old(coalescer).pending_len() as int] == e,
        final(coalescer).is_drained(),
{
    let mut out = coalescer.flush();
    let ghost before = out@;
    out.push(e);
    assert(out@.take(before.len() as int) =~= before);
    out
}

/// The stream parser's state across the lines of one turn: the content block open
/// between its start and stop, and the tool-call id of each tool-use block.
pub struct NdjsonParser {
    turn_id: String,
    open_block_index: Option<u32>,
    tool_use_id_by_index: Vec<(u32, String)>,
}

impl NdjsonParser {
    pub closed spec fn turn(&self) -> Seq<char> {
        self.turn_id@
    }

    pub closed spec fn open_block(&self) -> Option<u32> {
        self.open_block_index
    }

    pub closed spec fn tool_ids(&self) -> Seq<(u32, Seq<char>)> {
        buf_view_u32(self.tool_use_id_by_index@)
    }

    pub fn new(turn_id: String) -> (r: NdjsonParser)
        ensures
            r.turn() == turn_id@,
            r.open_block() is None,
            r.tool_ids().len() == 0,
    {
        NdjsonParser { turn_id, open_block_index: None, tool_use_id_by_index: Vec::new() }
    }

    pub fn turn_id(&self) -> (r: String)
        ensures
            r@ == self.turn(),
    {
        self.turn_id.clone()
    }

    fn handle_message(
        &self,
        role: MessageRole,
        parent: Option<String>,
        content: Vec<ContentItem>,
        coalescer: &mut Coalescer,
    ) -> (r: Vec<ParsedEvent>)
        ensures
            content@.filter(flush_pred(role, parent)).len() > 0 ==> {
                &&& r@.len() == old(coalescer).pending_len() + content@.filter(emit_pred(role, parent)).len()
                &&& r@.take(old(coalescer).pending_len() as int).map_values(|e: ParsedEvent| delta_model(e))
                    == old(coalescer).flush_view()
                &&& final(coalescer).is_drained()
                &&& forall|j: int|
                    0 <= j < content@.filter(emit_pred(role, parent)).len() ==> item_event_ok(
                        role,
                        parent,
                        content@.filter(emit_pred(role, parent))[j],
                        open_or_zero(self.open_block()),
                        #[trigger] r@.skip(old(coalescer).pending_len() as int)[j],
                    )
            },
            content@.filter(flush_pred(role, parent)).len() == 0 ==> {
                &&& r@.len() == 0
                &&& *final(coalescer) == *old(coalescer)
                &&& content@.filter(emit_pred(role, parent)).len() == 0
            },
    {
        let ghost c0 = *coalescer;
        let ghost p = c0.pending_len();
        let ghost fp = flush_pred(role, parent);
        let ghost ep = emit_pred(role, parent);
        let block = match self.open_block_index {
            Some(b) => b,
            None => 0,
        };
        let mut out: Vec<ParsedEvent> = Vec::new();
        proof {
            assert(content@.take(0) =~= Seq::<ContentItem>::empty());
            reveal(Seq::filter);
        }
        let mut i: usize = 0;
        while i < content.len()
            invariant
                i <= content@.len(),
                fp == flush_pred(role, parent),
                ep == emit_pred(role, parent),
                block == open_or_zero(self.open_block()),
                p == c0.pending_len(),
                content@.take(i as int).filter(fp).len() == 0 ==> {
                    &&& out@.len() == 0
                    &&& *coalescer == c0
                    &&& content@.take(i as int).filter(ep).len() == 0
                },
                content@.take(i as int).filter(fp).len() > 0 ==> {
                    &&& coalescer.is_drained()
                    &&& out@.len() == p + content@.take(i as int).filter(ep).len()
                    &&& out@.take(p as int).map_values(|e: ParsedEvent| delta_model(e)) == c0.flush_view()
                    &&& forall|j: int|
                        0 <= j < content@.take(i as int).filter(ep).len() ==> item_event_ok(
                            role,
                            parent,
                            content@.take(i as int).filter(ep)[j],
                            block,
                            #[trigger] out@.skip(p as int)[j],
                        )
                },
            decreases content@.len() - i,
        {
            let item = &content[i];
            let ghost prev = content@.take(i as int);
            let ghost out0 = out@;
            proof {
                assert(content@.take(i + 1) =~= prev.push(content@[i as int]));
                prev.lemma_filter_push(content@[i as int], fp);
                prev.lemma_filter_push(content@[i as int], ep);
            }
            if item_flushes_exec(role, &parent, item) {
                let mut ds = coalescer.flush();
                proof {
                    if prev.filter(fp).len() > 0 {
                        assert(ds@.len() == 0);
                    }
                }
                let ghost dv = ds@;
                out.append(&mut ds);
                proof {
                    if prev.filter(fp).len() == 0 {
                        assert(out@ =~= dv);
                        assert(out@.take(p as int) =~= out@);
                    } else {
                        assert(out@ =~= out0);
                    }
                }
            }
            let ghost out1 = out@;
            if item_emits_exec(role, &parent, item) {
                let e = item_event(role, &parent, item, block);
                out.push(e);
                proof {
                    assert(out@.take(p as int) =~= out1.take(p as int));
                    assert(out@.skip(p as int) =~= out1.skip(p as int).push(e));
                }
            }
            i += 1;
        }
        assert(content@.take(content@.len() as int) =~= content@);
        out
    }

    /// Feeds one line of output to the parser. Blank lines, lines over the size limit and
    /// lines that do not parse as JSON are skipped and change nothing; any other line is
    /// decoded with `stream_line_of` and passed to `handle_line`.
    pub fn feed_line(&mut self, line: &str, coalescer: &mut Coalescer) -> (r: Vec<ParsedEvent>)
        ensures
            !should_parse_spec(line@) || crate::json::json_parse_result(line@) is Err ==> r@.len() == 0
                && *final(self) == *old(self) && *final(coalescer) == *old(coalescer),
            should_parse_spec(line@) && crate::json::json_parse_result(line@) is Ok ==> exists|sl: StreamLine|
                #![trigger crate::claude::stream_json::line_view(sl)]
                crate::claude::stream_json::line_view(sl) == crate::claude::stream_json::line_model(
                    crate::json::json_parse_result(line@)->Ok_0,
                ) && handled(*old(self), *final(self), *old(coalescer), *final(coalescer), sl, r@),
    {
        if !should_parse(line) {
            return Vec::new();
        }
        let v = match crate::json::parse_json(line) {
            Ok(v) => v,
            Err(_) => return Vec::new(),
        };
        let sl = crate::claude::stream_json::stream_line_of(&v);
        let ghost g = sl;
        let r = self.handle_line(sl, coalescer);
        assert(handled(*old(self), *self, *old(coalescer), *coalescer, g, r@));
        r
    }

    /// Handles one decoded line: structural events flush the pending deltas first, so
    /// every delta precedes the event that follows it; deltas are buffered.
    pub fn handle_line(&mut self, line: StreamLine, coalescer: &mut Coalescer) -> (r: Vec<ParsedEvent>)
        ensures
            r@.len() == flushed_len(line, *old(coalescer)) + line_events(line),
            line_flushes(line) ==> r@.take(old(coalescer).pending_len() as int).map_values(
                |e: ParsedEvent| delta_model(e),
            ) == old(coalescer).flush_view() && final(coalescer).is_drained(),
            !line_flushes(line) ==> {
                &&& final(coalescer).text_buf() == text_after(old(coalescer).text_buf(), line)
                &&& final(coalescer).thinking_buf() == thinking_after(old(coalescer).thinking_buf(), line)
                &&& final(coalescer).tool_input_buf() == tool_input_after(
                    old(coalescer).tool_input_buf(),
                    old(self).tool_ids(),
                    line,
                )
            },
            forall|j: int|
                0 <= j < line_events(line) ==> line_event_ok(
                    line,
                    old(self).open_block(),
                    j,
                    #[trigger] r@.skip(flushed_len(line, *old(coalescer)) as int)[j],
                ),
            final(self).open_block() == open_after(old(self).open_block(), line),
            final(self).tool_ids() == ids_after(old(self).tool_ids(), line),
            final(self).turn() == old(self).turn(),
    {
        match line {
            StreamLine::SystemInit { session_id, model, tools, capabilities, mcp_errors, plugin_errors } => {
                let mut out: Vec<ParsedEvent> = Vec::new();
                out.push(
                    ParsedEvent::SessionReady { session_id, model, tools, capabilities, mcp_errors, plugin_errors },
                );
                out
            },
            StreamLine::ApiRetry { attempt, max_retries, retry_delay_ms, error, error_status } => {
                let status = match error_status {
                    Some(s) => Some(s as u16),
                    None => None,
                };
                flush_then(
                    coalescer,
                    ParsedEvent::ApiRetry {
                        attempt: attempt as u32,
                        max_retries: max_retries as u32,
                        retry_delay_ms,
                        error,
                        error_status: status,
                    },
                )
            },
            StreamLine::PermissionDenied { tool, reason, message } => {
                let t = match tool {
                    Some(t) => t,
                    None => str_to_string("unknown"),
                };
                let r = match reason {
                    Some(x) => x,
                    None => match message {
                        Some(m) => m,
                        None => String::new(),
                    },
                };
                flush_then(coalescer, ParsedEvent::PermissionDenied { tool: t, reason: r })
            },
            StreamLine::BlockStart { index, tool_use } => {
                self.open_block_index = Some(index as u32);
                match tool_use {
                    Some((id, name)) => {
                        set_u32(&mut self.tool_use_id_by_index, index as u32, id.clone());
                        flush_then(coalescer, ParsedEvent::ToolCallStarted { tool_use_id: id, name })
                    },
                    None => Vec::new(),
                }
            },
            StreamLine::TextDelta { index, text } => {
                coalescer.push_text(index as u32, text.as_str());
                Vec::new()
            },
            StreamLine::ThinkingDelta { index, thinking } => {
                coalescer.push_thinking(index as u32, thinking.as_str());
                Vec::new()
            },
            StreamLine::InputJsonDelta { index, partial_json } => {
                match lookup_u32(&self.tool_use_id_by_index, index as u32) {
                    Some(i) => {
                        proof {
                            lemma_key_index(self.tool_ids(), index as u32);
                        }
                        coalescer.push_tool_input(self.tool_use_id_by_index[i].1.as_str(), partial_json.as_str());
                    },
                    None => {},
                }
                Vec::new()
            },
            StreamLine::BlockStop { index } => {
                match self.open_block_index {
                    Some(b) => {
                        if b == index as u32 {
                            self.open_block_index = None;
                        }
                    },
                    None => {},
                }
                Vec::new()
            },
            StreamLine::Message { role, parent_tool_use_id, content } => {
                self.handle_message(role, parent_tool_use_id, content, coalescer)
            },
            StreamLine::Result {
                session_id,
                subtype,
                is_error,
                num_turns,
                duration_ms,
                duration_api_ms,
                result_text,
                permission_denials,
            } => flush_then(
                coalescer,
                ParsedEvent::Result {
                    session_id,
                    subtype,
                    is_error,
                    num_turns: num_turns as u32,
                    duration_ms,
                    duration_api_ms,
                    result_text,
                    permission_denials,
                },
            ),
            StreamLine::Ignored => Vec::new(),
        }
    }
}


/// Buffered deltas always come out before the structural block they belong to: for an
/// assistant message (of the main thread) holding one text block, `handle_line` flushes
/// every pending delta first and then emits exactly that block, at the open block index
/// (0 when none is open), leaving the coalescer drained.
pub proof fn law_deltas_come_before_the_text_block(
    content: Vec<ContentItem>,
    text: String,
    open: Option<u32>,
    c: Coalescer,
    e: ParsedEvent,
)
    requires
        content@ == seq![ContentItem::Text { text }],
    ensures
        ({
            let line = StreamLine::Message { role: MessageRole::Assistant, parent_tool_use_id: None, content };
            &&& line_flushes(line)
            &&& flushed_len(line, c) == c.pending_len()
            &&& line_events(line) == 1
            &&& (line_event_ok(line, open, 0, e) <==> (e matches ParsedEvent::TextBlock { block_index, text: t }
                && block_index == open_or_zero(open) && t@ == text@))
        }),
{
    let item = ContentItem::Text { text };
    let fp = flush_pred(MessageRole::Assistant, None);
    let ep = emit_pred(MessageRole::Assistant, None);
    reveal_with_fuel(Seq::filter, 2);
    assert(seq![item].drop_last() =~= Seq::<ContentItem>::empty());
    assert(seq![item].last() == item);
    assert(fp(item));
    assert(ep(item));
    assert(Seq::<ContentItem>::empty().filter(fp) =~= Seq::<ContentItem>::empty());
    assert(Seq::<ContentItem>::empty().filter(ep) =~= Seq::<ContentItem>::empty());
    assert(content@.filter(fp) =~= seq![item]);
    assert(content@.filter(ep) =~= seq![item]);
}

/// What handling one decoded line does, as [`NdjsonParser::handle_line`] states it: the
/// pending deltas first (when the line flushes), then the line's own events; the buffers,
/// the open block and the tool ids move on as the line says.
pub open spec fn handled(
    p0: NdjsonParser,
    p1: NdjsonParser,
    c0: Coalescer,
    c1: Coalescer,
    line: StreamLine,
    r: Seq<ParsedEvent>,
) -> bool {
    &&& r.len() == flushed_len(line, c0) + line_events(line)
    &&& line_flushes(line) ==> r.take(c0.pending_len() as int).map_values(|e: ParsedEvent| delta_model(e))
        == c0.flush_view() && c1.is_drained()
    &&& !line_flushes(line) ==> {
        &&& c1.text_buf() == text_after(c0.text_buf(), line)
        &&& c1.thinking_buf() == thinking_after(c0.thinking_buf(), line)
        &&& c1.tool_input_buf() == tool_input_after(c0.tool_input_buf(), p0.tool_ids(), line)
    }
    &&& forall|j: int|
        0 <= j < line_events(line) ==> line_event_ok(
            line,
            p0.open_block(),
            j,
            #[trigger] r.skip(flushed_len(line, c0) as int)[j],
        )
    &&& p1.open_block() == open_after(p0.open_block(), line)
    &&& p1.tool_ids() == ids_after(p0.tool_ids(), line)
    &&& p1.turn() == p0.turn()
}
} // verus!

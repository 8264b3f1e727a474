//! Session bookkeeping that does not touch the disk: the session a turn runs in, the
//! title a session gets from its first prompt, which turns a history request shows, and
//! what a turn's record gathers from its events.
use crate::text::{append_str, lines_chars, lines_of, string_from_chars, sub_chars};
use crate::claude::argv::SessionRef;
use crate::claude::ndjson::{key_index, lemma_key_index, lemma_key_index_of_update, lemma_key_index_prefix, lemma_prefix_absent, lookup_key, set_key, ParsedEvent};
use vstd::prelude::*;

verus! {

/// A session's title keeps at most this many characters of the first prompt line.
pub const TITLE_CHARS: usize = 60;

/// The first line of `s` (`str::lines`), or nothing for empty text.
pub open spec fn first_line(s: Seq<char>) -> Seq<char> {
    if lines_of(s).len() == 0 {
        Seq::empty()
    } else {
        lines_of(s)[0]
    }
}

/// The first line of the prompt; past `TITLE_CHARS` characters it is cut there and an
/// ellipsis is added.
pub open spec fn title_spec(prompt: Seq<char>) -> Seq<char> {
    let f = first_line(prompt);
    if f.len() <= TITLE_CHARS {
        f
    } else {
        f.take(TITLE_CHARS as int) + "\u{2026}"@
    }
}

pub fn truncate_title(prompt: &str) -> (r: String)
    ensures
        r@ == title_spec(prompt@),
{
    let lines = lines_chars(prompt);
    proof {
        assert(lines@.map_values(|l: Vec<char>| l@).len() == lines@.len());
    }
    if lines.len() == 0 {
        return string_from_chars(&[]);
    }
    let f = &lines[0];
    proof {
        assert(lines@.map_values(|l: Vec<char>| l@)[0] == lines@[0]@);
    }
    if f.len() <= TITLE_CHARS {
        string_from_chars(f.as_slice())
    } else {
        let mut head = sub_chars(f.as_slice(), 0, TITLE_CHARS);
        append_str(&mut head, "\u{2026}");
        string_from_chars(head.as_slice())
    }
}

/// A title is never longer than `TITLE_CHARS` characters and the ellipsis.
pub proof fn law_title_is_bounded(prompt: Seq<char>)
    ensures
        title_spec(prompt).len() <= TITLE_CHARS + 1,
{
    reveal_strlit("\u{2026}");
}

/// The index of the first occurrence of `x`, or -1.
pub open spec fn first_position(s: Seq<Seq<char>>, x: Seq<char>) -> int
    decreases s.len(),
{
    if s.len() == 0 {
        -1
    } else {
        let r = first_position(s.drop_last(), x);
        if r >= 0 {
            r
        } else if s.last() == x {
            s.len() - 1
        } else {
            -1
        }
    }
}

proof fn lemma_first_position_prefix(s: Seq<Seq<char>>, x: Seq<char>, k: int)
    requires
        0 <= k <= s.len(),
        first_position(s.take(k), x) >= 0,
    ensures
        first_position(s, x) == first_position(s.take(k), x),
    decreases s.len() - k,
{
    if k < s.len() {
        assert(s.take(k + 1).drop_last() =~= s.take(k));
        lemma_first_position_prefix(s, x, k + 1);
    } else {
        assert(s.take(k) =~= s);
    }
}

/// The turns shown by a history request, as the index range `[start, end)` of the
/// session's turns (oldest first): those before the turn `before` (all of them when it is
/// not given or not found), at most the `limit` newest of those.
pub open spec fn history_window_spec(ids: Seq<Seq<char>>, before: Option<Seq<char>>, limit: nat) -> (int, int) {
    let end = match before {
        Some(b) => if first_position(ids, b) >= 0 { first_position(ids, b) } else { ids.len() as int },
        None => ids.len() as int,
    };
    let start = if end > limit { end - limit } else { 0 };
    (start, end)
}

pub fn history_window(ids: &Vec<String>, before: Option<&str>, limit: u32) -> (r: (usize, usize))
    ensures
        (r.0 as int, r.1 as int) == history_window_spec(
            crate::text::strings_view(ids@),
            match before {
                Some(b) => Some(b@),
                None => None,
            },
            limit as nat,
        ),
{
    let ghost sv = crate::text::strings_view(ids@);
    assert(sv.take(ids@.len() as int) =~= sv);
    let mut end = ids.len();
    match before {
        Some(b) => {
            let mut i: usize = 0;
            while i < ids.len()
                invariant_except_break
                    i <= ids@.len(),
                    end == ids@.len(),
                    sv == crate::text::strings_view(ids@),
                    first_position(sv.take(i as int), b@) == -1,
                    sv.take(ids@.len() as int) == sv,
                ensures
                    sv == crate::text::strings_view(ids@),
                    end == (if first_position(sv, b@) >= 0 { first_position(sv, b@) } else { ids@.len() as int }),
                decreases ids@.len() - i,
            {
                proof {
                    assert(sv.take(i + 1).drop_last() =~= sv.take(i as int));
                    assert(sv[i as int] == ids@[i as int]@);
                }
                if crate::text::str_eq(ids[i].as_str(), b) {
                    proof {
                        lemma_first_position_prefix(sv, b@, i + 1);
                    }
                    end = i;
                    break;
                }
                i += 1;
                if i == ids.len() {
                    assert(sv.take(ids@.len() as int) =~= sv);
                }
            }
        },
        None => {},
    }
    let lim = limit as usize;
    let start = if end > lim { end - lim } else { 0 };
    (start, end)
}


/// The session a turn runs in: the workspace's current session is resumed; without one a
/// fresh version-4 UUID starts a new session, which the workspace must then record (the
/// `bool`).
pub fn session_for_turn(current: Option<String>) -> (r: (SessionRef, bool))
    ensures
        match current {
            Some(id) => r == (SessionRef::Resume(id), false),
            None => r.1 && (r.0 matches SessionRef::New(id) && crate::ids::uuid_v4_text(id@)),
        },
{
    match current {
        Some(id) => (SessionRef::Resume(id), false),
        None => (SessionRef::New(crate::ids::new_uuid_v4()), true),
    }
}

/// A tool call as a turn's record keeps it: the name and input its completion gave, and
/// whether its result was an error.
#[derive(Debug, Clone, PartialEq, Eq)]
pub struct ToolCallRecord {
    pub tool_use_id: String,
    pub name: String,
    pub input_json: String,
    pub is_error: bool,
}

/// A completed tool call still waiting for its result.
struct PendingCall {
    id: String,
    name: String,
    input_json: String,
}

pub open spec fn call_view(c: ToolCallRecord) -> (Seq<char>, Seq<char>, Seq<char>, bool) {
    (c.tool_use_id@, c.name@, c.input_json@, c.is_error)
}

/// The entry for `k` taken out, if there is one.
pub open spec fn remove_key<K, V>(b: Seq<(K, V)>, k: K) -> Seq<(K, V)> {
    let i = key_index(b, k);
    if i >= 0 {
        b.remove(i)
    } else {
        b
    }
}

/// No two entries share a key.
pub open spec fn keys_unique<K, V>(b: Seq<(K, V)>) -> bool {
    forall|i: int, j: int| 0 <= i < j < b.len() ==> (#[trigger] b[i]).0 != (#[trigger] b[j]).0
}

proof fn lemma_set_key_unique<K, V>(b: Seq<(K, V)>, k: K, v: V)
    requires
        keys_unique(b),
    ensures
        keys_unique(set_key(b, k, v)),
{
    lemma_key_index(b, k);
}

proof fn lemma_remove_key_unique<K, V>(b: Seq<(K, V)>, k: K)
    requires
        keys_unique(b),
    ensures
        keys_unique(remove_key(b, k)),
        lookup_key(remove_key(b, k), k) is None,
{
    lemma_key_index(b, k);
    let i = key_index(b, k);
    let r = remove_key(b, k);
    if i >= 0 {
        assert forall|x: int, y: int| 0 <= x < y < r.len() implies (#[trigger] r[x]).0 != (#[trigger] r[y]).0 by {
            let x1 = if x < i { x } else { x + 1 };
            let y1 = if y < i { y } else { y + 1 };
            assert(r[x] == b[x1]);
            assert(r[y] == b[y1]);
        }
        assert forall|x: int| 0 <= x < r.len() implies (#[trigger] r[x]).0 != k by {
            if x >= i {
                assert(r[x] == b[x + 1]);
            }
        }
    }
    lemma_prefix_absent(r, k, r.len() as int);
    assert(r.take(r.len() as int) =~= r);
}

/// What a turn's record has gathered: the assistant's text, the completed tool calls that
/// await a result (by id), and the tool calls recorded so far.
pub struct TurnLog {
    assistant_text: String,
    pending: Vec<PendingCall>,
    tool_calls: Vec<ToolCallRecord>,
}

/// The state after one event: text blocks add to the text; a completed call waits for its
/// result (a later completion with the same id replaces it); a result records its waiting
/// call, and a result with none waiting records nothing.
pub open spec fn observe_spec(
    text: Seq<char>,
    pending: Seq<(Seq<char>, (Seq<char>, Seq<char>))>,
    calls: Seq<(Seq<char>, Seq<char>, Seq<char>, bool)>,
    e: ParsedEvent,
) -> (Seq<char>, Seq<(Seq<char>, (Seq<char>, Seq<char>))>, Seq<(Seq<char>, Seq<char>, Seq<char>, bool)>) {
    match e {
        ParsedEvent::TextBlock { text: t, .. } => (text + t@, pending, calls),
        ParsedEvent::ToolCallCompleted { tool_use_id, name, input_json } => (
            text,
            set_key(pending, tool_use_id@, (name@, input_json@)),
            calls,
        ),
        ParsedEvent::ToolResult { tool_use_id, is_error, .. } => match lookup_key(pending, tool_use_id@) {
            Some(v) => (text, remove_key(pending, tool_use_id@), calls.push((tool_use_id@, v.0, v.1, is_error))),
            None => (text, pending, calls),
        },
        _ => (text, pending, calls),
    }
}

impl TurnLog {
    /// Each waiting call has its own id.
    #[verifier::type_invariant]
    spec fn ids_unique(&self) -> bool {
        keys_unique(self.pending())
    }

    pub closed spec fn text(&self) -> Seq<char> {
        self.assistant_text@
    }

    pub closed spec fn pending(&self) -> Seq<(Seq<char>, (Seq<char>, Seq<char>))> {
        self.pending@.map_values(|c: PendingCall| (c.id@, (c.name@, c.input_json@)))
    }

    pub closed spec fn calls(&self) -> Seq<(Seq<char>, Seq<char>, Seq<char>, bool)> {
        self.tool_calls@.map_values(|c: ToolCallRecord| call_view(c))
    }

    pub fn new() -> (r: TurnLog)
        ensures
            r.text().len() == 0,
            r.pending().len() == 0,
            r.calls().len() == 0,
    {
        TurnLog { assistant_text: String::new(), pending: Vec::new(), tool_calls: Vec::new() }
    }

    fn find_pending(&self, id: &str) -> (r: Option<usize>)
        ensures
            match r {
                Some(i) => i < self.pending@.len() && i as int == key_index(self.pending(), id@),
                None => key_index(self.pending(), id@) < 0,
            },
    {
        let ghost pv = self.pending();
        let mut i: usize = 0;
        while i < self.pending.len()
            invariant
                i <= self.pending@.len(),
                pv == self.pending(),
                key_index(pv.take(i as int), id@) == -1,
            decreases self.pending@.len() - i,
        {
            assert(pv.take(i + 1).drop_last() =~= pv.take(i as int));
            assert(pv[i as int].0 == self.pending@[i as int].id@);
            if crate::text::str_eq(self.pending[i].id.as_str(), id) {
                proof {
                    lemma_key_index_prefix(pv, id@, i + 1);
                }
                return Some(i);
            }
            i += 1;
        }
        assert(pv.take(self.pending@.len() as int) =~= pv);
        None
    }

    /// Takes in one event of the turn.
    pub fn observe(&mut self, e: &ParsedEvent)
        ensures
            (final(self).text(), final(self).pending(), final(self).calls()) == observe_spec(
                old(self).text(),
                old(self).pending(),
                old(self).calls(),
                *e,
            ),
    {
        proof {
            use_type_invariant(&*self);
        }
        let ghost pv = self.pending();
        proof {
            if let ParsedEvent::ToolCallCompleted { tool_use_id, name, input_json } = e {
                lemma_set_key_unique(pv, tool_use_id@, (name@, input_json@));
            }
            if let ParsedEvent::ToolResult { tool_use_id, .. } = e {
                lemma_remove_key_unique(pv, tool_use_id@);
            }
        }
        match e {
            ParsedEvent::TextBlock { text, .. } => {
                self.assistant_text = crate::text::concat_str(self.assistant_text.as_str(), text.as_str());
            },
            ParsedEvent::ToolCallCompleted { tool_use_id, name, input_json } => {
                let entry = PendingCall { id: tool_use_id.clone(), name: name.clone(), input_json: input_json.clone() };
                let found = self.find_pending(tool_use_id.as_str());
                let mut pending: Vec<PendingCall> = Vec::new();
                std::mem::swap(&mut pending, &mut self.pending);
                match found {
                    Some(i) => {
                        proof {
                            lemma_key_index(pv, tool_use_id@);
                        }
                        pending.set(i, entry);
                    },
                    None => {
                        pending.push(entry);
                    },
                }
                assert(pending@.map_values(|c: PendingCall| (c.id@, (c.name@, c.input_json@))) =~= set_key(
                    pv,
                    tool_use_id@,
                    (name@, input_json@),
                ));
                self.pending = pending;
            },
            ParsedEvent::ToolResult { tool_use_id, is_error, .. } => {
                match self.find_pending(tool_use_id.as_str()) {
                    Some(i) => {
                        let ghost cv = self.calls();
                        let ghost nv = pv[i as int].1;
                        proof {
                            lemma_key_index(pv, tool_use_id@);
                        }
                        let mut pending: Vec<PendingCall> = Vec::new();
                        std::mem::swap(&mut pending, &mut self.pending);
                        let c = pending.remove(i);
                        assert(pending@.map_values(|c: PendingCall| (c.id@, (c.name@, c.input_json@))) =~= pv.remove(
                            i as int,
                        ));
                        self.pending = pending;
                        let mut calls: Vec<ToolCallRecord> = Vec::new();
                        std::mem::swap(&mut calls, &mut self.tool_calls);
                        calls.push(
                            ToolCallRecord { tool_use_id: c.id, name: c.name, input_json: c.input_json, is_error: *is_error },
                        );
                        self.tool_calls = calls;
                        assert(self.calls() =~= cv.push((tool_use_id@, nv.0, nv.1, *is_error)));
                    },
                    None => {},
                }
            },
            _ => {},
        }
    }

    /// The assistant's text, as the record keeps it.
    pub fn assistant_text(&self) -> (r: String)
        ensures
            r@ == self.text(),
    {
        self.assistant_text.clone()
    }

    /// The recorded tool calls, oldest first.
    pub fn into_tool_calls(self) -> (r: Vec<ToolCallRecord>)
        ensures
            r@.map_values(|c: ToolCallRecord| call_view(c)) == self.calls(),
    {
        self.tool_calls
    }
}

/// A tool call's result records exactly what its completion said, once: after the
/// completion and then the result, one call is recorded with the completion's name and
/// input and the result's error flag, and nothing waits under that id any more.
pub proof fn law_result_records_its_completion(
    text: Seq<char>,
    pending: Seq<(Seq<char>, (Seq<char>, Seq<char>))>,
    calls: Seq<(Seq<char>, Seq<char>, Seq<char>, bool)>,
    completion: ParsedEvent,
    result: ParsedEvent,
)
    requires
        keys_unique(pending),
        completion matches ParsedEvent::ToolCallCompleted { tool_use_id: a, .. } && result matches ParsedEvent::ToolResult {
            tool_use_id: b,
            ..
        } && a@ == b@,
    ensures
        ({
            let s1 = observe_spec(text, pending, calls, completion);
            let s2 = observe_spec(s1.0, s1.1, s1.2, result);
            &&& s2.0 == text
            &&& s2.2 == calls.push(completed_call(completion, result))
            &&& lookup_key(s2.1, completed_call(completion, result).0) is None
        }),
{
    match (completion, result) {
        (
            ParsedEvent::ToolCallCompleted { tool_use_id: a, name, input_json },
            ParsedEvent::ToolResult { tool_use_id: b, is_error, .. },
        ) => {
            let v = (name@, input_json@);
            lemma_key_index(pending, a@);
            let i = key_index(pending, a@);
            let p1 = set_key(pending, a@, v);
            if i >= 0 {
                lemma_key_index_of_update(pending, i, a@, v);
            } else {
                lemma_prefix_absent(p1, a@, pending.len() as int);
                assert(p1.take(pending.len() as int + 1).drop_last() =~= p1.take(pending.len() as int));
                assert(p1.take(pending.len() as int + 1) =~= p1);
            }
            lemma_set_key_unique(pending, a@, v);
            lemma_key_index(p1, a@);
            lemma_remove_key_unique(p1, a@);
        },
        _ => {},
    }
}

/// The call a completion and its result record.
pub open spec fn completed_call(completion: ParsedEvent, result: ParsedEvent) -> (Seq<char>, Seq<char>, Seq<char>, bool) {
    match (completion, result) {
        (
            ParsedEvent::ToolCallCompleted { tool_use_id, name, input_json },
            ParsedEvent::ToolResult { is_error, .. },
        ) => (tool_use_id@, name@, input_json@, is_error),
        _ => (Seq::empty(), Seq::empty(), Seq::empty(), false),
    }
}
} // verus!

//! What one assistant turn runs, how its stderr tail is kept, and how a turn that ended
//! without a result is reported.
use crate::claude::argv::{build_turn_args, turn_args_spec, SessionRef};
use crate::error::AppError;
use crate::proc::{ProcKind, SpawnSpec};
use crate::project::types::TrustScan;
use crate::settings::PermissionPolicySetting;
use crate::text::{
    append_chars, append_str, char_utf8_len, char_utf8_len_exec, is_ws, is_ws_exec, lemma_utf8_len_bounds, lemma_utf8_len_split,
    str_chars, string_from_chars, strings_view, sub_chars, utf8_len,
};
use crate::textops::{find_from_exec, find_sub, lemma_word_len, word_len, word_len_exec};
use vstd::prelude::*;

verus! {

/// The stderr tail kept for a failure report holds at most this many bytes.
pub const STDERR_TAIL_CAP: usize = 4096;

/// The exit code of a turn ended by `SIGTERM`: a clean interruption.
pub const SIGTERM_EXIT_CODE: i32 = 143;

/// Everything a turn needs to be spawned.
#[derive(Debug, Clone)]
pub struct RunTurnRequest {
    /// The resolved assistant CLI and the arguments that always precede its own.
    pub program: String,
    pub extra_args: Vec<String>,
    pub workspace: String,
    pub turn_id: String,
    pub prompt: String,
    pub session: SessionRef,
    pub policy: PermissionPolicySetting,
    pub model: String,
    pub permission_prompts_none_supported: bool,
    /// Extra environment of the child process only (an API key, never put in the argv).
    pub env: Vec<(String, String)>,
}

/// The process of a turn: the CLI with its fixed arguments and then the turn's own, run in
/// the workspace with the request's extra environment.
pub fn turn_spawn_spec(req: RunTurnRequest) -> (r: SpawnSpec)
    ensures
        r.program == req.program,
        strings_view(r.args@) == strings_view(req.extra_args@) + turn_args_spec(
            req.prompt@,
            req.policy,
            req.permission_prompts_none_supported,
            req.model@,
            req.session,
        ),
        r.cwd == req.workspace,
        r.env == req.env,
        r.kind == ProcKind::Claude,
        r.label@ == "assistant-turn"@,
{
    let turn = build_turn_args(req.prompt.as_str(), req.policy, req.permission_prompts_none_supported, req.model.as_str(), &req.session);
    let mut args = req.extra_args;
    let ghost a0 = strings_view(args@);
    let mut i: usize = 0;
    while i < turn.len()
        invariant
            i <= turn@.len(),
            strings_view(args@) == a0 + strings_view(turn@).take(i as int),
        decreases turn@.len() - i,
    {
        let ghost before = strings_view(args@);
        let s = turn[i].clone();
        args.push(s);
        assert(strings_view(args@) =~= before.push(turn@[i as int]@));
        assert(strings_view(turn@).take(i + 1) =~= strings_view(turn@).take(i as int).push(turn@[i as int]@));
        i += 1;
    }
    assert(strings_view(turn@).take(turn@.len() as int) =~= strings_view(turn@));
    SpawnSpec {
        program: req.program,
        args,
        cwd: req.workspace,
        env: req.env,
        kind: ProcKind::Claude,
        label: crate::text::str_to_string("assistant-turn"),
    }
}

/// The fewest leading characters, from `k` on, that take up at least `need` bytes.
pub open spec fn prefix_reaching(t: Seq<char>, need: nat, k: nat) -> nat
    decreases t.len() - k,
{
    if k >= t.len() || utf8_len(t.take(k as int)) >= need {
        k
    } else {
        prefix_reaching(t, need, k + 1)
    }
}

/// The tail after appending a line and a line feed: when it is over `STDERR_TAIL_CAP`
/// bytes, its oldest characters are dropped until it is within the cap again (a character
/// is never split).
pub open spec fn append_tail_spec(tail: Seq<char>, line: Seq<char>) -> Seq<char> {
    let t = tail + line + seq!['\n'];
    if utf8_len(t) > STDERR_TAIL_CAP {
        t.skip(prefix_reaching(t, (utf8_len(t) - STDERR_TAIL_CAP) as nat, 0) as int)
    } else {
        t
    }
}

proof fn lemma_prefix_reaching(t: Seq<char>, need: nat, k: nat)
    requires
        k <= t.len(),
        need <= utf8_len(t),
    ensures
        k <= prefix_reaching(t, need, k) <= t.len(),
        utf8_len(t.take(prefix_reaching(t, need, k) as int)) >= need,
    decreases t.len() - k,
{
    if k >= t.len() {
        assert(t.take(k as int) =~= t);
    } else if utf8_len(t.take(k as int)) < need {
        lemma_prefix_reaching(t, need, k + 1);
    }
}

/// Appends `line` and a line feed to the stderr tail, keeping its newest part within
/// `STDERR_TAIL_CAP` bytes.
pub fn append_tail(tail: &mut String, line: &str)
    ensures
        final(tail)@ == append_tail_spec(old(tail)@, line@),
{
    let mut t = str_chars(tail.as_str());
    append_str(&mut t, line);
    t.push('\n');
    let ghost tv = old(tail)@ + line@ + seq!['\n'];
    assert(t@ =~= tv);
    let mut total: u128 = 0;
    let mut i: usize = 0;
    proof {
        lemma_utf8_len_bounds(t@);
    }
    while i < t.len()
        invariant
            i <= t@.len(),
            total as nat == utf8_len(t@.take(i as int)),
            utf8_len(t@) <= 4 * t@.len(),
            t@.len() == t.len(),
        decreases t@.len() - i,
    {
        proof {
            assert(t@.take(i + 1).drop_last() =~= t@.take(i as int));
            lemma_utf8_len_split(t@, i as int);
            lemma_utf8_len_split(t@, i + 1);
        }
        total = total + char_utf8_len_exec(t[i]) as u128;
        i += 1;
    }
    assert(t@.take(t@.len() as int) =~= t@);
    if total <= STDERR_TAIL_CAP as u128 {
        *tail = string_from_chars(t.as_slice());
        return;
    }
    let need: u128 = total - STDERR_TAIL_CAP as u128;
    let mut k: usize = 0;
    let mut acc: u128 = 0;
    while k < t.len() && acc < need
        invariant
            k <= t@.len(),
            acc as nat == utf8_len(t@.take(k as int)),
            acc <= total,
            total as nat == utf8_len(t@),
            need as nat == utf8_len(t@) - STDERR_TAIL_CAP,
            prefix_reaching(t@, need as nat, 0) == prefix_reaching(t@, need as nat, k as nat),
        decreases t@.len() - k,
    {
        proof {
            assert(t@.take(k + 1).drop_last() =~= t@.take(k as int));
            lemma_utf8_len_split(t@, k + 1);
        }
        acc = acc + char_utf8_len_exec(t[k]) as u128;
        k += 1;
    }
    let kept = sub_chars(t.as_slice(), k, t.len());
    *tail = string_from_chars(kept.as_slice());
}

/// The kept tail never exceeds `STDERR_TAIL_CAP` bytes once it has been over it, and it
/// always ends with the line just appended.
pub proof fn law_tail_is_capped(tail: Seq<char>, line: Seq<char>)
    ensures
        utf8_len(append_tail_spec(tail, line)) <= STDERR_TAIL_CAP
            || append_tail_spec(tail, line) == tail + line + seq!['\n'],
{
    let t = tail + line + seq!['\n'];
    if utf8_len(t) > STDERR_TAIL_CAP {
        let need = (utf8_len(t) - STDERR_TAIL_CAP) as nat;
        lemma_prefix_reaching(t, need, 0);
        let k = prefix_reaching(t, need, 0);
        lemma_utf8_len_split(t, k as int);
    }
}

/// Text with every whitespace-separated token that contains an API key (`sk-ant-`)
/// replaced by `[REDACTED]`; whitespace and every other token are kept.
pub open spec fn redact_spec(s: Seq<char>) -> Seq<char>
    decreases s.len(),
{
    if s.len() == 0 {
        Seq::empty()
    } else if is_ws(s[0]) {
        seq![s[0]] + redact_spec(s.drop_first())
    } else {
        let k = word_len(s);
        proof {
            lemma_word_len(s);
        }
        let w = s.take(k as int);
        (if find_sub(w, "sk-ant-"@) >= 0 {
            "[REDACTED]"@
        } else {
            w
        }) + redact_spec(s.skip(k as int))
    }
}

pub fn redact(text: &str) -> (r: String)
    ensures
        r@ == redact_spec(text@),
{
    let key = str_chars("sk-ant-");
    let mut out: Vec<char> = Vec::new();
    let mut rest = str_chars(text);
    while rest.len() > 0
        invariant
            out@ + redact_spec(rest@) == redact_spec(text@),
            key@ == "sk-ant-"@,
        decreases rest@.len(),
    {
        let ghost before = out@;
        let ghost r0 = rest@;
        if is_ws_exec(rest[0]) {
            out.push(rest[0]);
            rest = sub_chars(rest.as_slice(), 1, rest.len());
            assert(rest@ =~= r0.drop_first());
            assert(out@ + redact_spec(rest@) =~= before + redact_spec(r0));
        } else {
            let k = word_len_exec(rest.as_slice());
            proof {
                lemma_word_len(rest@);
            }
            let w = sub_chars(rest.as_slice(), 0, k);
            if find_from_exec(w.as_slice(), key.as_slice(), 0).is_some() {
                append_str(&mut out, "[REDACTED]");
            } else {
                append_chars(&mut out, w.as_slice());
            }
            rest = sub_chars(rest.as_slice(), k, rest.len());
            assert(out@ + redact_spec(rest@) =~= before + redact_spec(r0));
        }
    }
    assert(out@ + Seq::<char>::empty() == out@);
    string_from_chars(out.as_slice())
}

/// A turn whose process ended without a result: exit 143 is a clean interruption of the
/// session (it resumes later); anything else is a failure carrying the redacted stderr
/// tail.
pub fn classify_failure(exit_code: i32, session_id: &str, stderr_tail: &str) -> (r: AppError)
    ensures
        exit_code == SIGTERM_EXIT_CODE ==> (r matches AppError::ClaudeInterrupted { session_id: s } && s@ == session_id@),
        exit_code != SIGTERM_EXIT_CODE ==> (r matches AppError::ClaudeProcessFailed { exit_code: c, tail }
            && c == exit_code && tail@ == redact_spec(stderr_tail@)),
{
    if exit_code == SIGTERM_EXIT_CODE {
        AppError::ClaudeInterrupted { session_id: crate::text::str_to_string(session_id) }
    } else {
        AppError::ClaudeProcessFailed { exit_code, tail: redact(stderr_tail) }
    }
}


/// A turn runs only in a trusted workspace: in any other the CLI would run the workspace's
/// hooks and connect its MCP servers unasked, so the turn is refused with what the trust
/// scan found.
pub fn trust_gate(trusted: bool, scan: TrustScan) -> (r: Result<(), AppError>)
    ensures
        trusted ==> r is Ok,
        !trusted ==> r == Err::<(), AppError>(AppError::WorkspaceUntrusted { hooks: scan.hooks, mcp_servers: scan.mcp_servers }),
{
    if trusted {
        Ok(())
    } else {
        Err(AppError::WorkspaceUntrusted { hooks: scan.hooks, mcp_servers: scan.mcp_servers })
    }
}

/// The argv a turn's record keeps: the program, its fixed arguments and the turn's own,
/// each redacted.
pub fn redacted_argv(program: &str, extra_args: &Vec<String>, turn_args: &Vec<String>) -> (r: Vec<String>)
    ensures
        strings_view(r@) == (seq![program@] + strings_view(extra_args@) + strings_view(turn_args@)).map_values(
            |a: Seq<char>| redact_spec(a),
        ),
{
    let ghost all = seq![program@] + strings_view(extra_args@) + strings_view(turn_args@);
    let mut out: Vec<String> = Vec::new();
    out.push(redact(program));
    assert(strings_view(out@) =~= all.take(1).map_values(|a: Seq<char>| redact_spec(a)));
    let mut i: usize = 0;
    while i < extra_args.len()
        invariant
            i <= extra_args@.len(),
            all == seq![program@] + strings_view(extra_args@) + strings_view(turn_args@),
            strings_view(out@) == all.take(1 + i).map_values(|a: Seq<char>| redact_spec(a)),
        decreases extra_args@.len() - i,
    {
        let ghost o0 = strings_view(out@);
        out.push(redact(extra_args[i].as_str()));
        assert(all[1 + i] == extra_args@[i as int]@);
        assert(all.take(1 + i + 1) =~= all.take(1 + i).push(all[1 + i]));
        assert(strings_view(out@) =~= o0.push(redact_spec(all[1 + i])));
        i += 1;
    }
    let mut j: usize = 0;
    let n = extra_args.len();
    while j < turn_args.len()
        invariant
            j <= turn_args@.len(),
            n == extra_args@.len(),
            all == seq![program@] + strings_view(extra_args@) + strings_view(turn_args@),
            strings_view(out@) == all.take(1 + n + j).map_values(|a: Seq<char>| redact_spec(a)),
        decreases turn_args@.len() - j,
    {
        let ghost o0 = strings_view(out@);
        out.push(redact(turn_args[j].as_str()));
        assert(all[1 + n + j] == turn_args@[j as int]@);
        assert(all.take(1 + n + j + 1) =~= all.take(1 + n + j).push(all[1 + n + j]));
        assert(strings_view(out@) =~= o0.push(redact_spec(all[1 + n + j])));
        j += 1;
    }
    assert(all.take(1 + n + turn_args@.len()) =~= all);
    out
}
} // verus!

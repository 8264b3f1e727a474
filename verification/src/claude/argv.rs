//! The argument vector of one assistant turn. `--bare` is never passed: it would skip the
//! project notes file and the stored credentials.
use crate::settings::PermissionPolicySetting;
use crate::text::{push_str, push_string, str_to_string, strings_view};
use vstd::prelude::*;

verus! {

/// The first turn of a session names a fresh id; every later turn resumes it.
#[derive(Debug, Clone, PartialEq, Eq)]
pub enum SessionRef {
    New(String),
    Resume(String),
}

impl SessionRef {
    pub open spec fn id_spec(&self) -> Seq<char> {
        match self {
            SessionRef::New(id) => id@,
            SessionRef::Resume(id) => id@,
        }
    }

    pub fn id(&self) -> (r: &str)
        ensures
            r@ == self.id_spec(),
    {
        match self {
            SessionRef::New(id) => id.as_str(),
            SessionRef::Resume(id) => id.as_str(),
        }
    }
}

/// The permission mode and allowed tools of each policy; the unrestricted policy has
/// neither, it skips permission checks instead.
pub open spec fn mode_and_allowed_tools_spec(policy: PermissionPolicySetting) -> Option<(Seq<char>, Seq<char>)> {
    match policy {
        PermissionPolicySetting::Guarded => Some(("acceptEdits"@, "Read,Edit,Write,Glob,Grep,Bash(pio *)"@)),
        PermissionPolicySetting::Assisted => Some(("auto"@, "Read,Edit,Write,Glob,Grep,Bash"@)),
        PermissionPolicySetting::Unrestricted => None,
    }
}

pub fn mode_and_allowed_tools(policy: PermissionPolicySetting) -> (r: Option<(&'static str, &'static str)>)
    ensures
        match r {
            Some((m, t)) => mode_and_allowed_tools_spec(policy) == Some((m@, t@)),
            None => mode_and_allowed_tools_spec(policy) is None,
        },
{
    match policy {
        PermissionPolicySetting::Guarded => Some(("acceptEdits", "Read,Edit,Write,Glob,Grep,Bash(pio *)")),
        PermissionPolicySetting::Assisted => Some(("auto", "Read,Edit,Write,Glob,Grep,Bash")),
        PermissionPolicySetting::Unrestricted => None,
    }
}

/// The turn's arguments after the program: the prompt in streaming JSON mode, the
/// policy's permission flags, `--permission-prompts none` where the CLI supports it, the
/// model, and the session to start or resume.
pub open spec fn turn_args_spec(
    prompt: Seq<char>,
    policy: PermissionPolicySetting,
    prompts_none: bool,
    model: Seq<char>,
    session: SessionRef,
) -> Seq<Seq<char>> {
    seq!["-p"@, prompt, "--output-format"@, "stream-json"@, "--verbose"@, "--include-partial-messages"@]
        + match mode_and_allowed_tools_spec(policy) {
            Some((m, t)) => seq!["--permission-mode"@, m, "--allowedTools"@, t],
            None => seq!["--dangerously-skip-permissions"@],
        }
        + (if prompts_none { seq!["--permission-prompts"@, "none"@] } else { Seq::empty() })
        + seq!["--model"@, model]
        + match session {
            SessionRef::New(id) => seq!["--session-id"@, id@],
            SessionRef::Resume(id) => seq!["--resume"@, id@],
        }
}

pub fn build_turn_args(
    prompt: &str,
    policy: PermissionPolicySetting,
    permission_prompts_none_supported: bool,
    model: &str,
    session: &SessionRef,
) -> (r: Vec<String>)
    ensures
        strings_view(r@) == turn_args_spec(prompt@, policy, permission_prompts_none_supported, model@, *session),
{
    let mut args: Vec<String> = Vec::new();
    push_str(&mut args, "-p");
    push_str(&mut args, prompt);
    push_str(&mut args, "--output-format");
    push_str(&mut args, "stream-json");
    push_str(&mut args, "--verbose");
    push_str(&mut args, "--include-partial-messages");
    let ghost a0 = strings_view(args@);
    match mode_and_allowed_tools(policy) {
        Some((mode, tools)) => {
            push_str(&mut args, "--permission-mode");
            push_str(&mut args, mode);
            push_str(&mut args, "--allowedTools");
            push_str(&mut args, tools);
        },
        None => push_str(&mut args, "--dangerously-skip-permissions"),
    }
    let ghost a1 = strings_view(args@);
    if permission_prompts_none_supported {
        push_str(&mut args, "--permission-prompts");
        push_str(&mut args, "none");
    }
    let ghost a2 = strings_view(args@);
    push_str(&mut args, "--model");
    push_str(&mut args, model);
    let ghost a3 = strings_view(args@);
    match session {
        SessionRef::New(id) => {
            push_str(&mut args, "--session-id");
            push_string(&mut args, id.clone());
        },
        SessionRef::Resume(id) => {
            push_str(&mut args, "--resume");
            push_string(&mut args, id.clone());
        },
    }
    proof {
        let s0 = seq!["-p"@, prompt@, "--output-format"@, "stream-json"@, "--verbose"@, "--include-partial-messages"@];
        assert(a0 =~= s0);
        let m = match mode_and_allowed_tools_spec(policy) {
            Some((m, t)) => seq!["--permission-mode"@, m, "--allowedTools"@, t],
            None => seq!["--dangerously-skip-permissions"@],
        };
        assert(a1 =~= a0 + m);
        let p = if permission_prompts_none_supported { seq!["--permission-prompts"@, "none"@] } else { Seq::<Seq<char>>::empty() };
        assert(a2 =~= a1 + p);
        assert(a3 =~= a2 + seq!["--model"@, model@]);
        let s = match session {
            SessionRef::New(id) => seq!["--session-id"@, id@],
            SessionRef::Resume(id) => seq!["--resume"@, id@],
        };
        assert(strings_view(args@) =~= a3 + s);
    }
    args
}

/// Every turn runs in streaming JSON mode with partial messages, and with an explicit
/// permission decision: a mode for the guarded and assisted policies, skipped checks for
/// the unrestricted one.
pub proof fn law_turn_always_has_a_permission_decision(
    prompt: Seq<char>,
    policy: PermissionPolicySetting,
    prompts_none: bool,
    model: Seq<char>,
    session: SessionRef,
)
    ensures
        ({
            let a = turn_args_spec(prompt, policy, prompts_none, model, session);
            &&& a[2] == "--output-format"@ && a[3] == "stream-json"@
            &&& a[4] == "--verbose"@ && a[5] == "--include-partial-messages"@
            &&& policy == PermissionPolicySetting::Unrestricted ==> a[6] == "--dangerously-skip-permissions"@
            &&& policy != PermissionPolicySetting::Unrestricted ==> a[6] == "--permission-mode"@
        }),
{
}

/// `--bare` is never passed: it can only appear where the caller's own prompt, model or
/// session id is that very word.
pub proof fn law_never_passes_bare(
    prompt: Seq<char>,
    policy: PermissionPolicySetting,
    prompts_none: bool,
    model: Seq<char>,
    session: SessionRef,
)
    requires
        prompt != "--bare"@,
        model != "--bare"@,
        session.id_spec() != "--bare"@,
    ensures
        !turn_args_spec(prompt, policy, prompts_none, model, session).contains("--bare"@),
{
    reveal_strlit("--bare");
    reveal_strlit("-p");
    reveal_strlit("--output-format");
    reveal_strlit("stream-json");
    reveal_strlit("--verbose");
    reveal_strlit("--include-partial-messages");
    reveal_strlit("--permission-mode");
    reveal_strlit("--allowedTools");
    reveal_strlit("acceptEdits");
    reveal_strlit("auto");
    reveal_strlit("Read,Edit,Write,Glob,Grep,Bash(pio *)");
    reveal_strlit("Read,Edit,Write,Glob,Grep,Bash");
    reveal_strlit("--dangerously-skip-permissions");
    reveal_strlit("--permission-prompts");
    reveal_strlit("none");
    reveal_strlit("--model");
    reveal_strlit("--session-id");
    reveal_strlit("--resume");
    let a = turn_args_spec(prompt, policy, prompts_none, model, session);
    assert forall|i: int| 0 <= i < a.len() implies a[i] != "--bare"@ by {
        if i != 1 && a[i] == "--bare"@ {
            assert(a[i].len() == 6);
            assert(a[i][2] == 'b');
        }
    }
}

} // verus!

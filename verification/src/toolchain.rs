//! How the sign-in terminal for the assistant CLI is opened on each platform.
use crate::error::AppError;
use crate::text::{append_str, push_str, str_chars, str_to_string, string_from_chars, strings_view};
use vstd::prelude::*;

verus! {

/// The operating system the app runs on.
#[derive(Debug, Clone, Copy, PartialEq, Eq, Structural)]
pub enum Platform {
    MacOs,
    Windows,
    Linux,
}

/// The programs looked up on `PATH`, in order, to open a terminal: `cmd.exe` on Windows,
/// the common terminal emulators on Linux, none on macOS (which uses `open`).
pub open spec fn terminal_candidates_spec(platform: Platform) -> Seq<Seq<char>> {
    match platform {
        Platform::MacOs => Seq::empty(),
        Platform::Windows => seq!["cmd.exe"@],
        Platform::Linux => seq![
            "x-terminal-emulator"@,
            "gnome-terminal"@,
            "konsole"@,
            "xfce4-terminal"@,
            "alacritty"@,
            "kitty"@,
        ],
    }
}

pub fn terminal_candidates(platform: Platform) -> (r: Vec<String>)
    ensures
        strings_view(r@) == terminal_candidates_spec(platform),
{
    let mut v: Vec<String> = Vec::new();
    match platform {
        Platform::MacOs => {},
        Platform::Windows => {
            push_str(&mut v, "cmd.exe");
        },
        Platform::Linux => {
            push_str(&mut v, "x-terminal-emulator");
            push_str(&mut v, "gnome-terminal");
            push_str(&mut v, "konsole");
            push_str(&mut v, "xfce4-terminal");
            push_str(&mut v, "alacritty");
            push_str(&mut v, "kitty");
        },
    }
    assert(strings_view(v@) =~= terminal_candidates_spec(platform));
    v
}

/// The first lookup that found its program.
pub open spec fn first_found(located: Seq<Option<String>>) -> Option<Seq<char>>
    decreases located.len(),
{
    if located.len() == 0 {
        None
    } else {
        match located[0] {
            Some(p) => Some(p@),
            None => first_found(located.drop_first()),
        }
    }
}

fn first_found_exec(located: &Vec<Option<String>>) -> (r: Option<String>)
    ensures
        match r {
            Some(p) => first_found(located@) == Some(p@),
            None => first_found(located@) is None,
        },
{
    let mut i: usize = 0;
    assert(located@.skip(0) =~= located@);
    while i < located.len()
        invariant
            i <= located@.len(),
            first_found(located@) == first_found(located@.skip(i as int)),
        decreases located@.len() - i,
    {
        proof {
            assert(located@.skip(i as int).drop_first() =~= located@.skip(i + 1));
        }
        match &located[i] {
            Some(p) => {
                return Some(p.clone());
            },
            None => {},
        }
        i += 1;
    }
    None
}

/// The command that opens a terminal running `program` (the CLI, to sign in): macOS's
/// `open -a Terminal`; on Windows `cmd.exe /c start "" cmd /k`; on Linux the first
/// terminal emulator found, with `-e`. `located[i]` is where the `i`th of
/// `terminal_candidates(platform)` was found, if it was.
pub open spec fn auth_terminal_spec(
    platform: Platform,
    program: Seq<char>,
    located: Seq<Option<String>>,
) -> Result<(Seq<char>, Seq<Seq<char>>), (int, Seq<char>)> {
    match platform {
        Platform::MacOs => Ok(("/usr/bin/open"@, seq!["-a"@, "Terminal"@, program])),
        Platform::Windows => match first_found(located) {
            Some(p) => Ok((p, seq!["/c"@, "start"@, Seq::empty(), "cmd"@, "/k"@, program])),
            None => Err((0, "cmd.exe"@)),
        },
        Platform::Linux => match first_found(located) {
            Some(t) => Ok((t, seq!["-e"@, program])),
            None => Err((1, "no terminal emulator found; run "@ + program + " yourself to sign in"@)),
        },
    }
}

/// An error by its kind: a missing tool (0, its name) that cannot be installed, or an
/// I/O error (1, its message).
pub open spec fn terminal_error_view(e: AppError) -> (int, Seq<char>) {
    match e {
        AppError::ToolMissing { tool, install_action } => if install_action {
            (2, tool@)
        } else {
            (0, tool@)
        },
        AppError::Io { message } => (1, message@),
        _ => (3, Seq::empty()),
    }
}

pub fn auth_terminal_command(platform: Platform, program: &str, located: &Vec<Option<String>>) -> (r: Result<
    (String, Vec<String>),
    AppError,
>)
    ensures
        match (r, auth_terminal_spec(platform, program@, located@)) {
            (Ok((p, args)), Ok((sp, sargs))) => p@ == sp && strings_view(args@) == sargs,
            (Err(e), Err(se)) => terminal_error_view(e) == se,
            _ => false,
        },
{
    match platform {
        Platform::MacOs => {
            let mut args: Vec<String> = Vec::new();
            push_str(&mut args, "-a");
            push_str(&mut args, "Terminal");
            push_str(&mut args, program);
            assert(strings_view(args@) =~= seq!["-a"@, "Terminal"@, program@]);
            Ok((str_to_string("/usr/bin/open"), args))
        },
        Platform::Windows => match first_found_exec(located) {
            Some(p) => {
                let mut args: Vec<String> = Vec::new();
                push_str(&mut args, "/c");
                push_str(&mut args, "start");
                let empty = String::new();
                let ghost before = args@;
                args.push(empty);
                assert(strings_view(args@) =~= strings_view(before).push(Seq::<char>::empty()));
                push_str(&mut args, "cmd");
                push_str(&mut args, "/k");
                push_str(&mut args, program);
                assert(strings_view(args@) =~= seq!["/c"@, "start"@, Seq::empty(), "cmd"@, "/k"@, program@]);
                Ok((p, args))
            },
            None => Err(AppError::ToolMissing { tool: str_to_string("cmd.exe"), install_action: false }),
        },
        Platform::Linux => match first_found_exec(located) {
            Some(t) => {
                let mut args: Vec<String> = Vec::new();
                push_str(&mut args, "-e");
                push_str(&mut args, program);
                assert(strings_view(args@) =~= seq!["-e"@, program@]);
                Ok((t, args))
            },
            None => {
                let mut m = str_chars("no terminal emulator found; run ");
                append_str(&mut m, program);
                append_str(&mut m, " yourself to sign in");
                Err(AppError::Io { message: string_from_chars(m.as_slice()) })
            },
        },
    }
}

} // verus!

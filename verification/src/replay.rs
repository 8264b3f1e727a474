//! The fixture-replaying stand-in for `pio` and the assistant CLI: which fixture it
//! replays (and how fast, and with which exit code), chosen from its arguments, its
//! environment and a marker file in that order, and where each fixture line goes.
use crate::text::{lines_chars, lines_of, parse_unsigned, parse_unsigned_chars, starts_with, starts_with_str, str_chars, str_eq, str_to_string, string_from_chars, sub_chars};
use vstd::prelude::*;

verus! {

/// A fixture line starting with this goes to stderr, without it.
pub const STDERR_MARKER: &'static str = "!ERR!";

/// The marker file in the working directory: fixture path, then interval, then exit code.
pub const MARKER_FILE: &'static str = ".fake-cli-fixture";

/// What to replay; each part may come from a different source.
#[derive(Debug, Clone, PartialEq, Eq, Default)]
pub struct Selection {
    pub fixture: Option<String>,
    pub interval_ms: Option<u64>,
    pub exit_code: Option<u8>,
    /// `curl -o <path>`: the fixture's stdout lines go to this file instead.
    pub output_file: Option<String>,
}

/// A selection by its parts' text and numbers.
pub struct SelectionView {
    pub fixture: Option<Seq<char>>,
    pub interval_ms: Option<nat>,
    pub exit_code: Option<nat>,
    pub output_file: Option<Seq<char>>,
}

pub open spec fn opt_text(o: Option<String>) -> Option<Seq<char>> {
    match o {
        Some(s) => Some(s@),
        None => None,
    }
}

pub open spec fn view_of(s: Selection) -> SelectionView {
    SelectionView {
        fixture: opt_text(s.fixture),
        interval_ms: match s.interval_ms {
            Some(n) => Some(n as nat),
            None => None,
        },
        exit_code: match s.exit_code {
            Some(n) => Some(n as nat),
            None => None,
        },
        output_file: opt_text(s.output_file),
    }
}

/// A number as `str::parse` reads it, if there is text at all.
pub open spec fn parse_opt(t: Option<Seq<char>>, max: nat) -> Option<nat> {
    match t {
        Some(x) => parse_unsigned(x, max),
        None => None,
    }
}

/// The selection the arguments give, from `sel` on: `--fixture`, `--interval-ms`,
/// `--exit-code` and `-o` each take the next argument (none when they come last; a later
/// one wins); every other argument is passed over.
pub open spec fn args_spec(args: Seq<Seq<char>>, sel: SelectionView) -> SelectionView
    decreases args.len(),
{
    if args.len() == 0 {
        sel
    } else {
        let a = args[0];
        let val: Option<Seq<char>> = if args.len() > 1 {
            Some(args[1])
        } else {
            None
        };
        let rest = if args.len() > 1 {
            args.skip(2)
        } else {
            args.skip(1)
        };
        if a == "--fixture"@ {
            args_spec(rest, SelectionView { fixture: val, ..sel })
        } else if a == "--interval-ms"@ {
            args_spec(rest, SelectionView { interval_ms: parse_opt(val, u64::MAX as nat), ..sel })
        } else if a == "--exit-code"@ {
            args_spec(rest, SelectionView { exit_code: parse_opt(val, u8::MAX as nat), ..sel })
        } else if a == "-o"@ {
            args_spec(rest, SelectionView { output_file: val, ..sel })
        } else {
            args_spec(args.skip(1), sel)
        }
    }
}

pub open spec fn empty_view() -> SelectionView {
    SelectionView { fixture: None, interval_ms: None, exit_code: None, output_file: None }
}

fn next_arg(args: &Vec<String>, i: usize) -> (r: Option<String>)
    requires
        i < args.len(),
    ensures
        opt_text(r) == (if i + 1 < args.len() { Some(args@[i + 1]@) } else { None::<Seq<char>> }),
{
    if i + 1 < args.len() {
        Some(args[i + 1].clone())
    } else {
        None
    }
}

fn parse_text(t: &Option<String>, max: u64) -> (r: Option<u64>)
    ensures
        match r {
            Some(n) => parse_opt(opt_text(*t), max as nat) == Some(n as nat),
            None => parse_opt(opt_text(*t), max as nat) is None,
        },
{
    match t {
        Some(s) => {
            let v = str_chars(s.as_str());
            parse_unsigned_chars(v.as_slice(), max)
        },
        None => None,
    }
}

fn parse_u8_text(t: &Option<String>) -> (r: Option<u8>)
    ensures
        match r {
            Some(n) => parse_opt(opt_text(*t), u8::MAX as nat) == Some(n as nat),
            None => parse_opt(opt_text(*t), u8::MAX as nat) is None,
        },
{
    match parse_text(t, 255) {
        Some(n) => Some(n as u8),
        None => None,
    }
}

/// The selection on the command line (the arguments after the program name).
pub fn from_args(args: &Vec<String>) -> (r: Selection)
    ensures
        view_of(r) == args_spec(args@.map_values(|s: String| s@), empty_view()),
{
    let ghost av = args@.map_values(|s: String| s@);
    let mut sel = Selection { fixture: None, interval_ms: None, exit_code: None, output_file: None };
    let mut i: usize = 0;
    assert(av.skip(0) =~= av);
    while i < args.len()
        invariant
            i <= args@.len(),
            av == args@.map_values(|s: String| s@),
            args_spec(av, empty_view()) == args_spec(av.skip(i as int), view_of(sel)),
        decreases args@.len() - i,
    {
        let ghost rest = av.skip(i as int);
        assert(rest[0] == args@[i as int]@);
        if i + 1 < args.len() {
            assert(rest[1] == args@[i + 1]@);
            assert(rest.skip(2) =~= av.skip(i + 2));
        } else {
            assert(rest.skip(1) =~= av.skip(i + 1));
        }
        assert(rest.skip(1) =~= av.skip(i + 1));
        let a = args[i].as_str();
        let step: usize = if i + 1 < args.len() {
            2
        } else {
            1
        };
        if str_eq(a, "--fixture") {
            sel.fixture = next_arg(args, i);
            i = i + step;
        } else if str_eq(a, "--interval-ms") {
            let v = next_arg(args, i);
            sel.interval_ms = parse_text(&v, u64::MAX);
            i = i + step;
        } else if str_eq(a, "--exit-code") {
            let v = next_arg(args, i);
            sel.exit_code = parse_u8_text(&v);
            i = i + step;
        } else if str_eq(a, "-o") {
            sel.output_file = next_arg(args, i);
            i = i + step;
        } else {
            i = i + 1;
        }
    }
    assert(av.skip(i as int) =~= Seq::<Seq<char>>::empty());
    sel
}

/// The selection the environment gives: the fixture, interval and exit-code variables,
/// numbers read as `str::parse` reads them.
pub fn from_env_values(fixture: Option<String>, interval_ms: Option<String>, exit_code: Option<String>) -> (r: Selection)
    ensures
        view_of(r) == (SelectionView {
            fixture: opt_text(fixture),
            interval_ms: parse_opt(opt_text(interval_ms), u64::MAX as nat),
            exit_code: parse_opt(opt_text(exit_code), u8::MAX as nat),
            output_file: None,
        }),
{
    let i = parse_text(&interval_ms, u64::MAX);
    let e = parse_u8_text(&exit_code);
    Selection { fixture, interval_ms: i, exit_code: e, output_file: None }
}

pub open spec fn line_at(ls: Seq<Seq<char>>, i: int) -> Option<Seq<char>> {
    if 0 <= i < ls.len() {
        Some(ls[i])
    } else {
        None
    }
}

fn line_string(lines: &Vec<Vec<char>>, i: usize) -> (r: Option<String>)
    ensures
        opt_text(r) == line_at(lines@.map_values(|l: Vec<char>| l@), i as int),
{
    if i < lines.len() {
        Some(string_from_chars(lines[i].as_slice()))
    } else {
        None
    }
}

/// The selection the marker file gives: its first line is the fixture, the second the
/// interval and the third the exit code.
pub fn from_marker(contents: &str) -> (r: Selection)
    ensures
        view_of(r) == (SelectionView {
            fixture: line_at(lines_of(contents@), 0),
            interval_ms: parse_opt(line_at(lines_of(contents@), 1), u64::MAX as nat),
            exit_code: parse_opt(line_at(lines_of(contents@), 2), u8::MAX as nat),
            output_file: None,
        }),
{
    let lines = lines_chars(contents);
    let f = line_string(&lines, 0);
    let i = line_string(&lines, 1);
    let e = line_string(&lines, 2);
    Selection { fixture: f, interval_ms: parse_text(&i, u64::MAX), exit_code: parse_u8_text(&e), output_file: None }
}

impl Selection {
    /// Each part from `self`, or else from `fallback`.
    pub fn merge(self, fallback: Selection) -> (r: Selection)
        ensures
            r.fixture == (if self.fixture is Some { self.fixture } else { fallback.fixture }),
            r.interval_ms == (if self.interval_ms is Some { self.interval_ms } else { fallback.interval_ms }),
            r.exit_code == (if self.exit_code is Some { self.exit_code } else { fallback.exit_code }),
            r.output_file == (if self.output_file is Some { self.output_file } else { fallback.output_file }),
    {
        Selection {
            fixture: match self.fixture {
                Some(x) => Some(x),
                None => fallback.fixture,
            },
            interval_ms: match self.interval_ms {
                Some(x) => Some(x),
                None => fallback.interval_ms,
            },
            exit_code: match self.exit_code {
                Some(x) => Some(x),
                None => fallback.exit_code,
            },
            output_file: match self.output_file {
                Some(x) => Some(x),
                None => fallback.output_file,
            },
        }
    }
}

/// Where a fixture line goes: a line starting with the marker goes to stderr (`true`)
/// without it; any other line goes to stdout (or the `-o` file) as it is.
pub fn route_line(line: &str) -> (r: (bool, String))
    ensures
        starts_with(line@, STDERR_MARKER@) ==> r.0 && r.1@ == line@.skip(STDERR_MARKER@.len() as int),
        !starts_with(line@, STDERR_MARKER@) ==> !r.0 && r.1@ == line@,
{
    let v = str_chars(line);
    if starts_with_str(v.as_slice(), STDERR_MARKER) {
        let m = str_chars(STDERR_MARKER);
        let rest = sub_chars(v.as_slice(), m.len(), v.len());
        (true, string_from_chars(rest.as_slice()))
    } else {
        (false, str_to_string(line))
    }
}

} // verus!

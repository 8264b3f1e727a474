//! The compiler and linker diagnostic parser, fed one line of combined build output at a
//! time. Two forms are recognized: the compiler's self-contained
//! `file:line:col: severity: message`, and the linker's `undefined reference` — either
//! with its own `file:line:` prefix, or on a line of its own after a bare `file:line:`
//! line, whose position it then takes.
use crate::matching::{captures_view, regex_captures, regex_captures_result};
use crate::proc::events::{Defect, DefectSource, Severity};
use crate::text::{append_str, parse_unsigned, parse_unsigned_chars, str_chars, str_to_string, string_from_chars};
use vstd::prelude::*;

verus! {

pub const COMPILER_FORM: &'static str = r"^(?P<file>[^\s:]+):(?P<line>\d+):(?:(?P<col>\d+):)?\s+(?P<sev>error|warning|note|fatal error):\s+(?P<msg>.*)$";

/// `file:line:` followed by the undefined-reference message on the same line.
pub const LINKER_COMBINED: &'static str = r"^(?P<file>[^\s:]+):(?P<line>\d+):\s*undefined reference to\s*[`'‘](?P<sym>[^'’]+)['’]";

/// An undefined reference with no position of its own.
pub const LINKER_BARE_SYMBOL: &'static str = r"undefined reference to\s*[`'‘](?P<sym>[^'’]+)['’]";

/// A bare `file:line:` prefix, kept as the position of a following bare undefined
/// reference.
pub const BARE_FILE_LINE: &'static str = r"^(?P<file>[^\s:]+):(?P<line>\d+):";

/// Group `i` of a match, if it took part.
pub open spec fn group(c: Seq<Option<Seq<char>>>, i: int) -> Option<Seq<char>> {
    if 0 <= i < c.len() {
        c[i]
    } else {
        None
    }
}

/// Group `i`'s text, or nothing.
pub open spec fn group_text(c: Seq<Option<Seq<char>>>, i: int) -> Seq<char> {
    match group(c, i) {
        Some(t) => t,
        None => Seq::empty(),
    }
}

/// `str::parse::<u32>`.
pub open spec fn parse_u32(s: Seq<char>) -> Option<u32> {
    match parse_unsigned(s, u32::MAX as nat) {
        Some(n) => Some(n as u32),
        None => None,
    }
}

pub open spec fn parse_u32_or_zero(s: Seq<char>) -> u32 {
    match parse_u32(s) {
        Some(n) => n,
        None => 0,
    }
}

pub open spec fn severity_of(word: Seq<char>) -> Severity {
    if word == "warning"@ {
        Severity::Warning
    } else if word == "note"@ {
        Severity::Note
    } else {
        Severity::Error
    }
}

/// A defect, described by its fields' text.
pub struct DefectModel {
    pub file: Seq<char>,
    pub line: u32,
    pub column: Option<u32>,
    pub severity: Severity,
    pub message: Seq<char>,
    pub source: DefectSource,
    pub raw: Seq<char>,
}

pub open spec fn defect_model(d: Defect) -> DefectModel {
    DefectModel {
        file: d.file@,
        line: d.line,
        column: d.column,
        severity: d.severity,
        message: d.message@,
        source: d.source,
        raw: d.raw@,
    }
}

pub open spec fn undefined_reference(sym: Seq<char>) -> Seq<char> {
    "undefined reference to `"@ + sym + "'"@
}

/// One step of the parser, given the line and the matches of the four patterns on it:
/// the new pending position and the defect found, if any.
pub open spec fn feed_spec(
    pending: Option<(Seq<char>, u32)>,
    line: Seq<char>,
    compiler: Option<Seq<Option<Seq<char>>>>,
    combined: Option<Seq<Option<Seq<char>>>>,
    bare_symbol: Option<Seq<Option<Seq<char>>>>,
    bare_file_line: Option<Seq<Option<Seq<char>>>>,
) -> (Option<(Seq<char>, u32)>, Option<DefectModel>) {
    if let Some(c) = compiler {
        (None, Some(DefectModel {
            file: group_text(c, 1),
            line: parse_u32_or_zero(group_text(c, 2)),
            column: match group(c, 3) {
                Some(t) => parse_u32(t),
                None => None,
            },
            severity: severity_of(group_text(c, 4)),
            message: group_text(c, 5),
            source: DefectSource::Compiler,
            raw: line,
        }))
    } else if let Some(c) = combined {
        (None, Some(DefectModel {
            file: group_text(c, 1),
            line: parse_u32_or_zero(group_text(c, 2)),
            column: None,
            severity: Severity::Error,
            message: undefined_reference(group_text(c, 3)),
            source: DefectSource::Linker,
            raw: line,
        }))
    } else if let Some(c) = bare_symbol {
        match pending {
            Some((file, l)) => (None, Some(DefectModel {
                file,
                line: l,
                column: None,
                severity: Severity::Error,
                message: undefined_reference(group_text(c, 1)),
                source: DefectSource::Linker,
                raw: line,
            })),
            None => (None, None),
        }
    } else if let Some(c) = bare_file_line {
        (Some((group_text(c, 1), parse_u32_or_zero(group_text(c, 2)))), None)
    } else {
        (pending, None)
    }
}

/// Remembers the last bare `file:line:` position across lines.
pub struct DiagnosticParser {
    pending_file_line: Option<(String, u32)>,
}

pub open spec fn pending_view(p: Option<(String, u32)>) -> Option<(Seq<char>, u32)> {
    match p {
        Some((f, l)) => Some((f@, l)),
        None => None,
    }
}

fn group_of(c: &Vec<Option<String>>, i: usize) -> (r: Option<String>)
    ensures
        r matches Some(s) ==> group(c@.map_values(|g: Option<String>| crate::matching::opt_view(g)), i as int) == Some(s@),
        r is None ==> group(c@.map_values(|g: Option<String>| crate::matching::opt_view(g)), i as int) is None,
{
    if i < c.len() {
        match &c[i] {
            Some(s) => Some(s.clone()),
            None => None,
        }
    } else {
        None
    }
}

fn text_of(c: &Vec<Option<String>>, i: usize) -> (r: String)
    ensures
        r@ == group_text(c@.map_values(|g: Option<String>| crate::matching::opt_view(g)), i as int),
{
    match group_of(c, i) {
        Some(s) => s,
        None => string_from_chars(&[]),
    }
}

fn parse_u32_exec(s: &str) -> (r: Option<u32>)
    ensures
        r == parse_u32(s@),
{
    let v = str_chars(s);
    match parse_unsigned_chars(v.as_slice(), u32::MAX as u64) {
        Some(n) => Some(n as u32),
        None => None,
    }
}

fn parse_u32_or_zero_exec(s: &str) -> (r: u32)
    ensures
        r == parse_u32_or_zero(s@),
{
    match parse_u32_exec(s) {
        Some(n) => n,
        None => 0,
    }
}

fn severity_of_exec(word: &str) -> (r: Severity)
    ensures
        r == severity_of(word@),
{
    if crate::text::str_eq(word, "warning") {
        Severity::Warning
    } else if crate::text::str_eq(word, "note") {
        Severity::Note
    } else {
        Severity::Error
    }
}

fn undefined_reference_exec(sym: &str) -> (r: String)
    ensures
        r@ == undefined_reference(sym@),
{
    let mut v = str_chars("undefined reference to `");
    append_str(&mut v, sym);
    append_str(&mut v, "'");
    string_from_chars(v.as_slice())
}

impl DiagnosticParser {
    pub closed spec fn pending(&self) -> Option<(Seq<char>, u32)> {
        pending_view(self.pending_file_line)
    }

    pub fn new() -> (r: DiagnosticParser)
        ensures
            r.pending() is None,
    {
        DiagnosticParser { pending_file_line: None }
    }

    /// The defect on `line`, if it is a recognized diagnostic, given the four patterns'
    /// matches on it (group 0 first, as `regex` reports them).
    pub fn feed_captures(
        &mut self,
        line: &str,
        compiler: Option<Vec<Option<String>>>,
        combined: Option<Vec<Option<String>>>,
        bare_symbol: Option<Vec<Option<String>>>,
        bare_file_line: Option<Vec<Option<String>>>,
    ) -> (r: Option<Defect>)
        ensures
            ({
                let (p, d) = feed_spec(
                    old(self).pending(),
                    line@,
                    captures_view(compiler),
                    captures_view(combined),
                    captures_view(bare_symbol),
                    captures_view(bare_file_line),
                );
                &&& final(self).pending() == p
                &&& match r {
                    Some(x) => d == Some(defect_model(x)),
                    None => d is None,
                }
            }),
    {
        if let Some(c) = &compiler {
            self.pending_file_line = None;
            let col = match group_of(c, 3) {
                Some(t) => parse_u32_exec(t.as_str()),
                None => None,
            };
            let line_text = text_of(c, 2);
            let sev = text_of(c, 4);
            return Some(Defect {
                file: text_of(c, 1),
                line: parse_u32_or_zero_exec(line_text.as_str()),
                column: col,
                severity: severity_of_exec(sev.as_str()),
                message: text_of(c, 5),
                source: DefectSource::Compiler,
                raw: str_to_string(line),
            });
        }
        if let Some(c) = &combined {
            self.pending_file_line = None;
            let line_text = text_of(c, 2);
            let sym = text_of(c, 3);
            return Some(Defect {
                file: text_of(c, 1),
                line: parse_u32_or_zero_exec(line_text.as_str()),
                column: None,
                severity: Severity::Error,
                message: undefined_reference_exec(sym.as_str()),
                source: DefectSource::Linker,
                raw: str_to_string(line),
            });
        }
        if let Some(c) = &bare_symbol {
            let pending = self.pending_file_line.take();
            match pending {
                Some((file, defect_line)) => {
                    let sym = text_of(c, 1);
                    return Some(Defect {
                        file,
                        line: defect_line,
                        column: None,
                        severity: Severity::Error,
                        message: undefined_reference_exec(sym.as_str()),
                        source: DefectSource::Linker,
                        raw: str_to_string(line),
                    });
                },
                None => {
                    return None;
                },
            }
        }
        if let Some(c) = &bare_file_line {
            let line_text = text_of(c, 2);
            self.pending_file_line = Some((text_of(c, 1), parse_u32_or_zero_exec(line_text.as_str())));
        }
        None
    }

    /// The defect on `line`, if it is a recognized diagnostic; ordinary build output gives
    /// none.
    pub fn feed_line(&mut self, line: &str) -> (r: Option<Defect>)
        ensures
            ({
                let (p, d) = feed_spec(
                    old(self).pending(),
                    line@,
                    regex_captures_result(COMPILER_FORM@, line@),
                    regex_captures_result(LINKER_COMBINED@, line@),
                    regex_captures_result(LINKER_BARE_SYMBOL@, line@),
                    regex_captures_result(BARE_FILE_LINE@, line@),
                );
                &&& final(self).pending() == p
                &&& match r {
                    Some(x) => d == Some(defect_model(x)),
                    None => d is None,
                }
            }),
    {
        let compiler = regex_captures(COMPILER_FORM, line);
        let combined = regex_captures(LINKER_COMBINED, line);
        let bare_symbol = regex_captures(LINKER_BARE_SYMBOL, line);
        let bare_file_line = regex_captures(BARE_FILE_LINE, line);
        self.feed_captures(line, compiler, combined, bare_symbol, bare_file_line)
    }
}

/// A recognized diagnostic line always clears the remembered position, so a bare
/// undefined reference is only ever attributed to the position line right before the
/// diagnostics that follow it.
pub proof fn law_defects_consume_the_pending_position(
    pending: Option<(Seq<char>, u32)>,
    line: Seq<char>,
    compiler: Option<Seq<Option<Seq<char>>>>,
    combined: Option<Seq<Option<Seq<char>>>>,
    bare_symbol: Option<Seq<Option<Seq<char>>>>,
    bare_file_line: Option<Seq<Option<Seq<char>>>>,
)
    ensures
        feed_spec(pending, line, compiler, combined, bare_symbol, bare_file_line).1 is Some
            ==> feed_spec(pending, line, compiler, combined, bare_symbol, bare_file_line).0 is None,
        compiler is None && combined is None && bare_symbol is Some && pending is None
            ==> feed_spec(pending, line, compiler, combined, bare_symbol, bare_file_line).1 is None,
{
}

/// Every linker defect is an error: whenever the compiler form does not match and a
/// defect comes out, it is an `Error` from the linker with no column, reporting an
/// undefined reference; and a line the combined linker form matches always gives one.
/// A compiler defect keeps its severity word: `warning` is a warning, `note` a note, and
/// `error` or `fatal error` an error.
pub proof fn law_linker_defects_are_errors(
    pending: Option<(Seq<char>, u32)>,
    line: Seq<char>,
    compiler: Option<Seq<Option<Seq<char>>>>,
    combined: Option<Seq<Option<Seq<char>>>>,
    bare_symbol: Option<Seq<Option<Seq<char>>>>,
    bare_file_line: Option<Seq<Option<Seq<char>>>>,
)
    ensures
        compiler is None ==> match feed_spec(pending, line, compiler, combined, bare_symbol, bare_file_line).1 {
            Some(d) => {
                &&& d.severity == Severity::Error
                &&& d.source == DefectSource::Linker
                &&& d.column is None
                &&& d.message.take(24) == "undefined reference to `"@
                &&& d.raw == line
            },
            None => true,
        },
        compiler is None && combined is Some ==> feed_spec(
            pending,
            line,
            compiler,
            combined,
            bare_symbol,
            bare_file_line,
        ).1 is Some,
        compiler matches Some(c) ==> match feed_spec(pending, line, compiler, combined, bare_symbol, bare_file_line).1 {
            Some(d) => {
                &&& d.source == DefectSource::Compiler
                &&& (group_text(c, 4) == "warning"@ ==> d.severity == Severity::Warning)
                &&& (group_text(c, 4) == "note"@ ==> d.severity == Severity::Note)
                &&& (group_text(c, 4) == "error"@ || group_text(c, 4) == "fatal error"@ ==> d.severity
                    == Severity::Error)
            },
            None => false,
        },
{
    reveal_strlit("undefined reference to `");
    reveal_strlit("warning");
    reveal_strlit("note");
    reveal_strlit("error");
    reveal_strlit("fatal error");
    assert("warning"@ != "note"@) by {
        assert("warning"@.len() != "note"@.len());
    }
    assert("error"@ != "warning"@ && "error"@ != "note"@) by {
        assert("error"@[0] != "warning"@[0]);
        assert("error"@.len() != "note"@.len());
    }
    assert("fatal error"@ != "warning"@ && "fatal error"@ != "note"@) by {
        assert("fatal error"@.len() != "warning"@.len());
        assert("fatal error"@.len() != "note"@.len());
    }
    assert forall|sym: Seq<char>| #[trigger] undefined_reference(sym).take(24) == "undefined reference to `"@ by {
        assert(undefined_reference(sym).take(24) =~= "undefined reference to `"@);
    }
}

} // verus!

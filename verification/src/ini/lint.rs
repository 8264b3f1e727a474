//! The plain-text report of `pio project config --lint`: one `<Kind>  <message>` row per
//! finding, where `Warning` rows are warnings and every other kind is an error whose
//! message may end with a `path:line` source after two or more spaces.
use crate::diag::parser::group_text;
use crate::matching::{captures_view, regex_captures, regex_captures_result};
use crate::text::{
    lines_chars, lines_of, str_chars, string_from_chars, strings_view, sub_chars, trail_ws_exec, trim,
    trim_chars, trim_end, trim_start, trim_start_chars, lemma_trail_ws_bound,
};
use crate::textops::{find_from_exec, find_sub, lemma_find_from_bounds};
use vstd::prelude::*;

verus! {

#[derive(Debug, Clone, PartialEq)]
pub struct LintError {
    /// The exception class name, e.g. `ProjectOptionValueError` or `ParsingError`.
    pub kind: String,
    pub message: String,
    /// `path:line`, when the report gives one (only some kinds do).
    pub source: Option<String>,
}

#[derive(Debug, Clone, PartialEq, Default)]
pub struct LintReport {
    pub errors: Vec<LintError>,
    pub warnings: Vec<String>,
}

/// The clean report's wording.
pub const CLEAN_MARKER: &'static str = "free from linting errors";

pub const TRAILING_SOURCE: &'static str = r"^(?P<message>.*)\s{2,}(?P<source>\S+:\d+)$";

/// A row's kind and the rest of it, after trailing whitespace is dropped: the text before
/// the first two spaces (trimmed) and the text after them (left-trimmed). Blank rows, the
/// clean message, and rows without two spaces or with either part empty are no finding.
pub open spec fn classify_row(line: Seq<char>) -> Option<(Seq<char>, Seq<char>)> {
    let l = trim_end(line);
    if l.len() == 0 || find_sub(l, CLEAN_MARKER@) >= 0 {
        None
    } else {
        let idx = find_sub(l, "  "@);
        if idx < 0 {
            None
        } else {
            let kind = trim(l.take(idx));
            let rest = trim_start(l.skip(idx));
            if kind.len() == 0 || rest.len() == 0 {
                None
            } else {
                Some((kind, rest))
            }
        }
    }
}

/// The message and source of an error row's rest, given the trailing-source pattern's
/// match on it.
pub open spec fn split_source_spec(rest: Seq<char>, caps: Option<Seq<Option<Seq<char>>>>) -> (Seq<char>, Option<Seq<char>>) {
    match caps {
        Some(c) => (group_text(c, 1), Some(group_text(c, 2))),
        None => (rest, None),
    }
}

/// An error finding: kind, message, source.
pub type LintErrorModel = (Seq<char>, Seq<char>, Option<Seq<char>>);

/// The findings of the report's rows, in order.
pub open spec fn lint_rows(rows: Seq<Seq<char>>) -> (Seq<LintErrorModel>, Seq<Seq<char>>)
    decreases rows.len(),
{
    if rows.len() == 0 {
        (Seq::empty(), Seq::empty())
    } else {
        let (e, w) = lint_rows(rows.drop_last());
        match classify_row(rows.last()) {
            None => (e, w),
            Some((kind, rest)) => if kind == "Warning"@ {
                (e, w.push(rest))
            } else {
                let (m, s) = split_source_spec(rest, regex_captures_result(TRAILING_SOURCE@, rest));
                (e.push((kind, m, s)), w)
            },
        }
    }
}

pub open spec fn lint_error_model(e: LintError) -> LintErrorModel {
    (e.kind@, e.message@, crate::matching::opt_view(e.source))
}

pub open spec fn report_model(r: LintReport) -> (Seq<LintErrorModel>, Seq<Seq<char>>) {
    (r.errors@.map_values(|e: LintError| lint_error_model(e)), strings_view(r.warnings@))
}

fn classify_row_exec(line: &[char]) -> (r: Option<(Vec<char>, Vec<char>)>)
    ensures
        match r {
            Some((k, rest)) => classify_row(line@) == Some((k@, rest@)),
            None => classify_row(line@) is None,
        },
{
    let n = trail_ws_exec(line);
    proof {
        lemma_trail_ws_bound(line@);
    }
    let l = sub_chars(line, 0, line.len() - n);
    let marker = str_chars(CLEAN_MARKER);
    if l.len() == 0 || find_from_exec(l.as_slice(), marker.as_slice(), 0).is_some() {
        return None;
    }
    let two = str_chars("  ");
    match find_from_exec(l.as_slice(), two.as_slice(), 0) {
        None => None,
        Some(idx) => {
            proof {
                lemma_find_from_bounds(l@, two@, 0);
            }
            let head = sub_chars(l.as_slice(), 0, idx);
            let kind = trim_chars(head.as_slice());
            let tail = sub_chars(l.as_slice(), idx, l.len());
            let rest = trim_start_chars(tail.as_slice());
            if kind.len() == 0 || rest.len() == 0 {
                None
            } else {
                Some((kind, rest))
            }
        },
    }
}

/// The message and source of an error row's rest, from the trailing-source pattern's
/// match on it (group 0 first).
pub fn split_source_captures(rest: &str, caps: Option<Vec<Option<String>>>) -> (r: (String, Option<String>))
    ensures
        (r.0@, crate::matching::opt_view(r.1)) == split_source_spec(rest@, captures_view(caps)),
{
    match caps {
        Some(c) => {
            let m = text_at(&c, 1);
            let s = text_at(&c, 2);
            (m, Some(s))
        },
        None => (crate::text::str_to_string(rest), None),
    }
}

fn text_at(c: &Vec<Option<String>>, i: usize) -> (r: String)
    ensures
        r@ == group_text(c@.map_values(|g: Option<String>| crate::matching::opt_view(g)), i as int),
{
    if i < c.len() {
        match &c[i] {
            Some(s) => s.clone(),
            None => string_from_chars(&[]),
        }
    } else {
        string_from_chars(&[])
    }
}

/// The findings of `pio project config --lint`'s text output. Rows that are not findings
/// (blank, the clean message, unrecognized text) are skipped.
pub fn parse_lint_output(text: &str) -> (r: LintReport)
    ensures
        report_model(r) == lint_rows(lines_of(text@)),
{
    let rows = lines_chars(text);
    let mut report = LintReport { errors: Vec::new(), warnings: Vec::new() };
    let mut i: usize = 0;
    while i < rows.len()
        invariant
            i <= rows@.len(),
            rows@.map_values(|l: Vec<char>| l@) == lines_of(text@),
            report_model(report) == lint_rows(lines_of(text@).take(i as int)),
        decreases rows@.len() - i,
    {
        let ghost taken = lines_of(text@).take(i + 1);
        proof {
            assert(taken.drop_last() =~= lines_of(text@).take(i as int));
            assert(rows@.map_values(|l: Vec<char>| l@)[i as int] == rows@[i as int]@);
            assert(taken.last() == rows@[i as int]@);
        }
        match classify_row_exec(rows[i].as_slice()) {
            None => {},
            Some((kind, rest)) => {
                let rest_s = string_from_chars(rest.as_slice());
                if crate::text::str_eq_chars("Warning", kind.as_slice()) {
                    let ghost w0 = strings_view(report.warnings@);
                    report.warnings.push(rest_s);
                    assert(strings_view(report.warnings@) =~= w0.push(rest@));
                } else {
                    let caps = regex_captures(TRAILING_SOURCE, rest_s.as_str());
                    let (message, source) = split_source_captures(rest_s.as_str(), caps);
                    let e = LintError { kind: string_from_chars(kind.as_slice()), message, source };
                    let ghost e0 = report.errors@.map_values(|e: LintError| lint_error_model(e));
                    report.errors.push(e);
                    assert(report.errors@.map_values(|e: LintError| lint_error_model(e)) =~= e0.push(lint_error_model(e)));
                }
            },
        }
        i += 1;
    }
    proof {
        assert(rows@.map_values(|l: Vec<char>| l@).len() == rows@.len());
        assert(lines_of(text@).take(rows@.len() as int) =~= lines_of(text@));
    }
    report
}

} // verus!

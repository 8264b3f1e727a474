//! Format-preserving `platformio.ini` parser. Every original line is kept verbatim in
//! [`IniDoc::lines`]; parsing only classifies line ranges into sections and entries, so
//! `lines` concatenated always gives back the exact input text.
use crate::text::{
    append_chars, concat, ends_with, ends_with_chars, find_char, first_index, lemma_concat_push, lemma_split_keep_concat,
    lemma_first_index_props, split_keep, split_keep_chars, str_chars, str_eq_chars, string_from_chars,
    strings_view, strip_eol, strip_eol_chars, sub_chars, trim, trim_chars, trim_start, trim_start_chars,
};
use vstd::prelude::*;

verus! {

#[derive(Debug, Clone, PartialEq, Default)]
pub struct IniDoc {
    /// Every source line, each still carrying its own original line ending (none for a
    /// final line with no trailing newline).
    pub lines: Vec<String>,
    pub sections: Vec<Section>,
}

#[derive(Debug, Clone, PartialEq)]
pub struct Section {
    /// `""` for the implicit preamble before the first `[section]` header.
    pub name: String,
    /// Line index of the `[name]` line itself; `None` for the preamble.
    pub header_line: Option<usize>,
    /// First line index belonging to this section's body.
    pub start: usize,
    /// Exclusive end: the next section's header line, or the number of lines.
    pub end: usize,
    pub entries: Vec<Entry>,
}

#[derive(Debug, Clone, PartialEq)]
pub struct Entry {
    pub name: String,
    /// The `key = ...` line index.
    pub start: usize,
    /// Exclusive: one past the last continuation line.
    pub end: usize,
    /// The trimmed value on the `key = ` line (when not empty), then each trimmed
    /// continuation line in order.
    pub values: Vec<String>,
}

// ---------------------------------------------------------------------------------------
// Mathematical model
// ---------------------------------------------------------------------------------------

pub struct SpecEntry {
    pub name: Seq<char>,
    pub start: int,
    pub end: int,
    pub values: Seq<Seq<char>>,
}

pub struct SpecSection {
    pub name: Seq<char>,
    pub header_line: Option<int>,
    pub start: int,
    pub end: int,
    pub entries: Seq<SpecEntry>,
}

impl Entry {
    pub open spec fn view(&self) -> SpecEntry {
        SpecEntry {
            name: self.name@,
            start: self.start as int,
            end: self.end as int,
            values: strings_view(self.values@),
        }
    }
}

pub open spec fn entries_view(v: Seq<Entry>) -> Seq<SpecEntry> {
    v.map_values(|e: Entry| e.view())
}

impl Section {
    pub open spec fn view(&self) -> SpecSection {
        SpecSection {
            name: self.name@,
            header_line: match self.header_line {
                Some(h) => Some(h as int),
                None => None,
            },
            start: self.start as int,
            end: self.end as int,
            entries: entries_view(self.entries@),
        }
    }
}

pub open spec fn sections_view(v: Seq<Section>) -> Seq<SpecSection> {
    v.map_values(|s: Section| s.view())
}

impl IniDoc {
    /// The lines, as character sequences.
    pub open spec fn lines_view(&self) -> Seq<Seq<char>> {
        strings_view(self.lines@)
    }

    pub open spec fn sections_view(&self) -> Seq<SpecSection> {
        sections_view(self.sections@)
    }
}

/// A line's text without its line ending.
pub open spec fn content(l: Seq<char>) -> Seq<char> {
    strip_eol(l)
}

/// `Some(name)` when the line, after leading whitespace, is `[name]`.
pub open spec fn header_name(l: Seq<char>) -> Option<Seq<char>> {
    let t = trim_start(content(l));
    if t.len() >= 2 && t[0] == '[' && t[t.len() - 1] == ']' {
        Some(t.subrange(1, t.len() - 1))
    } else {
        None
    }
}

pub open spec fn is_indented(c: Seq<char>) -> bool {
    c.len() > 0 && (c[0] == ' ' || c[0] == '\t')
}

/// Blank, a `;`/`#` comment, or indented: never the start of an entry.
pub open spec fn is_skip(l: Seq<char>) -> bool {
    let c = content(l);
    let t = trim_start(c);
    t.len() == 0 || t[0] == ';' || t[0] == '#' || is_indented(c)
}

/// The trimmed key and first value of a `key = value` line.
pub open spec fn entry_kv(l: Seq<char>) -> Option<(Seq<char>, Seq<char>)> {
    let t = trim_start(content(l));
    let k = first_index(t, '=');
    if k < 0 {
        None
    } else {
        Some((trim(t.take(k)), trim(t.skip(k + 1))))
    }
}

/// An indented, non-blank line: a continuation of the entry above it.
pub open spec fn is_cont(l: Seq<char>) -> bool {
    let c = content(l);
    trim(c).len() > 0 && is_indented(c)
}

/// The first line index at or after `j` that is not a continuation line.
pub open spec fn cont_end(ls: Seq<Seq<char>>, j: int) -> int
    decreases ls.len() - j,
{
    if j < 0 || j >= ls.len() {
        ls.len() as int
    } else if is_cont(ls[j]) {
        cont_end(ls, j + 1)
    } else {
        j
    }
}

/// The values of the entry whose key line is `i` and whose continuation ends at `e`.
pub open spec fn entry_values(ls: Seq<Seq<char>>, i: int, e: int) -> Seq<Seq<char>> {
    let first = entry_kv(ls[i]).unwrap().1;
    let head: Seq<Seq<char>> = if first.len() > 0 {
        seq![first]
    } else {
        Seq::empty()
    };
    head + ls.subrange(i + 1, e).map_values(|l: Seq<char>| trim(content(l)))
}

pub open spec fn close_section(cur: SpecSection, end: int) -> SpecSection {
    SpecSection { name: cur.name, header_line: cur.header_line, start: cur.start, end: end, entries: cur.entries }
}

pub open spec fn add_entry(cur: SpecSection, e: SpecEntry) -> SpecSection {
    SpecSection {
        name: cur.name,
        header_line: cur.header_line,
        start: cur.start,
        end: cur.end,
        entries: cur.entries.push(e),
    }
}

pub open spec fn preamble() -> SpecSection {
    SpecSection { name: Seq::empty(), header_line: None, start: 0, end: 0, entries: Seq::empty() }
}

/// The sections found by reading lines from `i` on, with `cur` the section being read and
/// `done` the ones already closed. A `[name]` line closes the current section and opens a
/// new one; a `key = value` line opens an entry that takes every continuation line after
/// it; any other line belongs to the current section without being an entry.
pub open spec fn scan(ls: Seq<Seq<char>>, i: int, cur: SpecSection, done: Seq<SpecSection>) -> Seq<
    SpecSection,
>
    decreases ls.len() - i,
{
    if i < 0 || i >= ls.len() {
        done.push(close_section(cur, ls.len() as int))
    } else if header_name(ls[i]) is Some {
        scan(
            ls,
            i + 1,
            SpecSection {
                name: header_name(ls[i]).unwrap(),
                header_line: Some(i),
                start: i + 1,
                end: i + 1,
                entries: Seq::empty(),
            },
            done.push(close_section(cur, i)),
        )
    } else if is_skip(ls[i]) {
        scan(ls, i + 1, cur, done)
    } else if entry_kv(ls[i]) is Some {
        let e = cont_end(ls, i + 1);
        proof {
            lemma_cont_end_bounds(ls, i + 1);
        }
        scan(
            ls,
            e,
            add_entry(
                cur,
                SpecEntry { name: entry_kv(ls[i]).unwrap().0, start: i, end: e, values: entry_values(ls, i, e) },
            ),
            done,
        )
    } else {
        scan(ls, i + 1, cur, done)
    }
}

/// The sections of the document whose lines are `ls`.
pub open spec fn parse_sections(ls: Seq<Seq<char>>) -> Seq<SpecSection> {
    scan(ls, 0, preamble(), Seq::empty())
}

/// Index of the first section named `name`, or -1.
pub open spec fn find_section(secs: Seq<SpecSection>, name: Seq<char>) -> int
    decreases secs.len(),
{
    if secs.len() == 0 {
        -1
    } else {
        let r = find_section(secs.drop_last(), name);
        if r >= 0 {
            r
        } else if secs.last().name == name {
            secs.len() - 1
        } else {
            -1
        }
    }
}

/// Index of the first entry named `name`, or -1.
pub open spec fn find_entry(es: Seq<SpecEntry>, name: Seq<char>) -> int
    decreases es.len(),
{
    if es.len() == 0 {
        -1
    } else {
        let r = find_entry(es.drop_last(), name);
        if r >= 0 {
            r
        } else if es.last().name == name {
            es.len() - 1
        } else {
            -1
        }
    }
}

// ---------------------------------------------------------------------------------------
// Lemmas
// ---------------------------------------------------------------------------------------

pub proof fn lemma_cont_end_bounds(ls: Seq<Seq<char>>, j: int)
    requires
        0 <= j <= ls.len(),
    ensures
        j <= cont_end(ls, j) <= ls.len(),
        forall|k: int| j <= k < cont_end(ls, j) ==> is_cont(#[trigger] ls[k]),
        cont_end(ls, j) < ls.len() ==> !is_cont(ls[cont_end(ls, j)]),
    decreases ls.len() - j,
{
    if j < ls.len() && is_cont(ls[j]) {
        lemma_cont_end_bounds(ls, j + 1);
    }
}

pub proof fn lemma_find_section_step(secs: Seq<SpecSection>, name: Seq<char>, i: int)
    requires
        0 <= i < secs.len(),
        find_section(secs.take(i), name) == -1,
    ensures
        secs[i].name == name ==> find_section(secs.take(i + 1), name) == i,
        secs[i].name != name ==> find_section(secs.take(i + 1), name) == -1,
{
    assert(secs.take(i + 1).drop_last() == secs.take(i));
}

pub proof fn lemma_find_entry_step(es: Seq<SpecEntry>, name: Seq<char>, i: int)
    requires
        0 <= i < es.len(),
        find_entry(es.take(i), name) == -1,
    ensures
        es[i].name == name ==> find_entry(es.take(i + 1), name) == i,
        es[i].name != name ==> find_entry(es.take(i + 1), name) == -1,
{
    assert(es.take(i + 1).drop_last() == es.take(i));
}

pub proof fn lemma_find_section_props(secs: Seq<SpecSection>, name: Seq<char>)
    ensures
        -1 <= find_section(secs, name) < secs.len(),
        find_section(secs, name) >= 0 ==> secs[find_section(secs, name)].name == name,
    decreases secs.len(),
{
    if secs.len() > 0 {
        lemma_find_section_props(secs.drop_last(), name);
    }
}

pub proof fn lemma_find_entry_props(es: Seq<SpecEntry>, name: Seq<char>)
    ensures
        -1 <= find_entry(es, name) < es.len(),
        find_entry(es, name) >= 0 ==> es[find_entry(es, name)].name == name,
    decreases es.len(),
{
    if es.len() > 0 {
        lemma_find_entry_props(es.drop_last(), name);
    }
}

// ---------------------------------------------------------------------------------------
// Line classification, executable
// ---------------------------------------------------------------------------------------

fn content_exec(l: &[char]) -> (r: Vec<char>)
    ensures
        r@ == content(l@),
{
    strip_eol_chars(l)
}

pub fn header_name_exec(l: &[char]) -> (r: Option<Vec<char>>)
    ensures
        match r {
            Some(n) => header_name(l@) == Some(n@),
            None => header_name(l@) is None,
        },
{
    let c = content_exec(l);
    let t = trim_start_chars(c.as_slice());
    let n = t.len();
    if n >= 2 && t[0] == '[' && t[n - 1] == ']' {
        Some(sub_chars(t.as_slice(), 1, n - 1))
    } else {
        None
    }
}

fn is_indented_exec(c: &[char]) -> (r: bool)
    ensures
        r == is_indented(c@),
{
    c.len() > 0 && (c[0] == ' ' || c[0] == '\t')
}

fn is_skip_exec(l: &[char]) -> (r: bool)
    ensures
        r == is_skip(l@),
{
    let c = content_exec(l);
    let t = trim_start_chars(c.as_slice());
    t.len() == 0 || t[0] == ';' || t[0] == '#' || is_indented_exec(c.as_slice())
}

fn entry_kv_exec(l: &[char]) -> (r: Option<(Vec<char>, Vec<char>)>)
    ensures
        match r {
            Some((k, v)) => entry_kv(l@) == Some((k@, v@)),
            None => entry_kv(l@) is None,
        },
{
    let c = content_exec(l);
    let t = trim_start_chars(c.as_slice());
    match find_char(t.as_slice(), '=') {
        Some(k) => {
            proof {
                lemma_first_index_props(t@, '=');
            }
            assert(k < t.len());
            let key_part = sub_chars(t.as_slice(), 0, k);
            let val_part = sub_chars(t.as_slice(), k + 1, t.len());
            let key = trim_chars(key_part.as_slice());
            let val = trim_chars(val_part.as_slice());
            proof {
                assert(key_part@ == t@.take(k as int));
                assert(val_part@ == t@.skip(k + 1));
            }
            Some((key, val))
        },
        None => None,
    }
}

fn is_cont_exec(l: &[char]) -> (r: bool)
    ensures
        r == is_cont(l@),
{
    let c = content_exec(l);
    let t = trim_chars(c.as_slice());
    t.len() > 0 && is_indented_exec(c.as_slice())
}

fn cont_value_exec(l: &[char]) -> (r: Vec<char>)
    ensures
        r@ == trim(content(l@)),
{
    let c = content_exec(l);
    trim_chars(c.as_slice())
}

// ---------------------------------------------------------------------------------------
// Executable parser
// ---------------------------------------------------------------------------------------

/// Splits `text` into lines, each still carrying its own line ending.
pub fn split_lines_keep_ends(text: &str) -> (res: Vec<String>)
    ensures
        strings_view(res@) == split_keep(text@),
{
    let v = str_chars(text);
    let pieces = split_keep_chars(v.as_slice());
    strings_of(&pieces)
}

/// Each character vector as a `String`.
pub fn strings_of(pieces: &Vec<Vec<char>>) -> (res: Vec<String>)
    ensures
        strings_view(res@) == pieces@.map_values(|l: Vec<char>| l@),
{
    let mut out: Vec<String> = Vec::new();
    let mut i: usize = 0;
    while i < pieces.len()
        invariant
            i <= pieces.len(),
            out.len() == i,
            forall|j: int| 0 <= j < i ==> #[trigger] out@[j]@ == pieces@[j]@,
        decreases pieces.len() - i,
    {
        out.push(string_from_chars(pieces[i].as_slice()));
        i += 1;
    }
    assert(strings_view(out@) =~= pieces@.map_values(|l: Vec<char>| l@));
    out
}

/// The number of lines that end in `\r\n`.
pub open spec fn crlf_count(ls: Seq<Seq<char>>) -> nat
    decreases ls.len(),
{
    if ls.len() == 0 {
        0
    } else {
        crlf_count(ls.drop_last()) + if ends_with(ls.last(), seq!['\r', '\n']) { 1nat } else { 0nat }
    }
}

/// The number of lines that end in a bare `\n`.
pub open spec fn lf_count(ls: Seq<Seq<char>>) -> nat
    decreases ls.len(),
{
    if ls.len() == 0 {
        0
    } else {
        lf_count(ls.drop_last()) + if ends_with(ls.last(), seq!['\n']) && !ends_with(ls.last(), seq!['\r', '\n']) {
            1nat
        } else {
            0nat
        }
    }
}

/// The file's predominant line ending, for lines this crate writes itself: `\r\n` when
/// at least as many lines end in it as in a bare `\n` (and some do), else `\n` (also for
/// a document with no line endings at all).
pub open spec fn detect_eol_spec(ls: Seq<Seq<char>>) -> Seq<char> {
    if crlf_count(ls) > 0 && crlf_count(ls) >= lf_count(ls) {
        seq!['\r', '\n']
    } else {
        seq!['\n']
    }
}

pub fn detect_eol(lines: &[String]) -> (r: &'static str)
    ensures
        r@ == detect_eol_spec(strings_view(lines@)),
{
    let mut i: usize = 0;
    let mut crlf: usize = 0;
    let mut lf: usize = 0;
    let ghost ls = strings_view(lines@);
    let crlf_end = ['\r', '\n'];
    let lf_end = ['\n'];
    assert(crlf_end@ == seq!['\r', '\n']);
    assert(lf_end@ == seq!['\n']);
    assert(ls.take(0) =~= Seq::<Seq<char>>::empty());
    while i < lines.len()
        invariant
            i <= lines.len(),
            ls == strings_view(lines@),
            crlf_end@ == seq!['\r', '\n'],
            lf_end@ == seq!['\n'],
            crlf as nat == crlf_count(ls.take(i as int)),
            lf as nat == lf_count(ls.take(i as int)),
            crlf + lf <= i,
        decreases lines.len() - i,
    {
        let l = str_chars(lines[i].as_str());
        proof {
            assert(ls.take(i + 1).drop_last() =~= ls.take(i as int));
            assert(ls.take(i + 1).last() == l@);
        }
        if ends_with_chars(l.as_slice(), &crlf_end) {
            crlf += 1;
        } else if ends_with_chars(l.as_slice(), &lf_end) {
            lf += 1;
        }
        i += 1;
    }
    assert(ls.take(lines.len() as int) =~= ls);
    if crlf > 0 && crlf >= lf {
        proof {
            reveal_strlit("\r\n");
        }
        "\r\n"
    } else {
        proof {
            reveal_strlit("\n");
        }
        "\n"
    }
}

/// Parses `raw` into a format-preserving [`IniDoc`]. Never fails: a line that is neither
/// blank, a comment, a section header nor `key = value` is kept in `lines` without being
/// modeled as an entry.
pub fn parse(raw: &str) -> (doc: IniDoc)
    ensures
        doc.lines_view() == split_keep(raw@),
        doc.sections_view() == parse_sections(split_keep(raw@)),
{
    let v = str_chars(raw);
    let lc = split_keep_chars(v.as_slice());
    let lines = strings_of(&lc);
    let ghost ls = split_keep(raw@);
    let n = lc.len();
    assert(lc@.map_values(|l: Vec<char>| l@).len() == n);

    let mut sections: Vec<Section> = Vec::new();
    let mut cur_name: Vec<char> = Vec::new();
    let mut cur_header_line: Option<usize> = None;
    let mut cur_start: usize = 0;
    let mut cur_entries: Vec<Entry> = Vec::new();
    let mut i: usize = 0;

    proof {
        assert(cur_name@ == Seq::<char>::empty());
        assert(entries_view(cur_entries@) =~= Seq::<SpecEntry>::empty());
        assert(sections_view(sections@) =~= Seq::<SpecSection>::empty());
    }

    while i < n
        invariant
            n == lc.len(),
            ls == lc@.map_values(|l: Vec<char>| l@),
            ls.len() == n,
            i <= n,
            cur_start <= i,
            scan(
                ls,
                i as int,
                SpecSection {
                    name: cur_name@,
                    header_line: match cur_header_line {
                        Some(h) => Some(h as int),
                        None => None,
                    },
                    start: cur_start as int,
                    end: cur_start as int,
                    entries: entries_view(cur_entries@),
                },
                sections_view(sections@),
            ) == parse_sections(ls),
        decreases n - i,
    {
        let line = &lc[i];
        proof {
            assert(ls[i as int] == line@);
        }
        let ghost cur = SpecSection {
            name: cur_name@,
            header_line: match cur_header_line {
                Some(h) => Some(h as int),
                None => None,
            },
            start: cur_start as int,
            end: cur_start as int,
            entries: entries_view(cur_entries@),
        };
        if let Some(name) = header_name_exec(line.as_slice()) {
            let sec = Section {
                name: string_from_chars(cur_name.as_slice()),
                header_line: cur_header_line,
                start: cur_start,
                end: i,
                entries: cur_entries,
            };
            let ghost old_secs = sections_view(sections@);
            sections.push(sec);
            proof {
                assert(sections_view(sections@) =~= old_secs.push(close_section(cur, i as int)));
            }
            cur_name = name;
            cur_header_line = Some(i);
            cur_start = i + 1;
            cur_entries = Vec::new();
            proof {
                assert(entries_view(cur_entries@) =~= Seq::<SpecEntry>::empty());
            }
            i += 1;
            continue;
        }
        if is_skip_exec(line.as_slice()) {
            i += 1;
            continue;
        }
        if let Some((key, first)) = entry_kv_exec(line.as_slice()) {
            let mut values: Vec<String> = Vec::new();
            if first.len() > 0 {
                values.push(string_from_chars(first.as_slice()));
            }
            let ghost head: Seq<Seq<char>> = if first@.len() > 0 {
                seq![first@]
            } else {
                Seq::empty()
            };
            assert(strings_view(values@) =~= head);
            let entry_start = i;
            i += 1;
            proof {
                lemma_cont_end_bounds(ls, i as int);
            }
            while i < n
                invariant
                    n == lc.len(),
                    ls == lc@.map_values(|l: Vec<char>| l@),
                    ls.len() == n,
                    entry_start < i <= n,
                    entry_start < n,
                    cont_end(ls, entry_start + 1) == cont_end(ls, i as int),
                    i <= cont_end(ls, entry_start + 1),
                    strings_view(values@) == head + ls.subrange(entry_start + 1, i as int).map_values(
                        |l: Seq<char>| trim(content(l)),
                    ),
                ensures
                    entry_start < i <= n,
                    cont_end(ls, entry_start + 1) == cont_end(ls, i as int),
                    i < n ==> !is_cont(ls[i as int]),
                    strings_view(values@) == head + ls.subrange(entry_start + 1, i as int).map_values(
                        |l: Seq<char>| trim(content(l)),
                    ),
                decreases n - i,
            {
                let c = &lc[i];
                proof {
                    assert(ls[i as int] == c@);
                }
                if !is_cont_exec(c.as_slice()) {
                    break;
                }
                let v = cont_value_exec(c.as_slice());
                let ghost old_vals = strings_view(values@);
                values.push(string_from_chars(v.as_slice()));
                proof {
                    assert(strings_view(values@) =~= old_vals.push(v@));
                    assert(ls.subrange(entry_start + 1, i + 1) == ls.subrange(
                        entry_start + 1,
                        i as int,
                    ).push(ls[i as int]));
                    assert(ls.subrange(entry_start + 1, i + 1).map_values(
                        |l: Seq<char>| trim(content(l)),
                    ) =~= ls.subrange(entry_start + 1, i as int).map_values(
                        |l: Seq<char>| trim(content(l)),
                    ).push(trim(content(ls[i as int]))));
                    lemma_cont_end_bounds(ls, i + 1);
                }
                i += 1;
            }
            proof {
                lemma_cont_end_bounds(ls, entry_start + 1);
                if i < n {
                    assert(!is_cont(ls[i as int]));
                }
                assert(i == cont_end(ls, entry_start + 1));
            }
            let e = Entry { name: string_from_chars(key.as_slice()), start: entry_start, end: i, values };
            let ghost old_entries = entries_view(cur_entries@);
            cur_entries.push(e);
            proof {
                assert(entries_view(cur_entries@) =~= old_entries.push(e.view()));
                assert(e.view().values == entry_values(ls, entry_start as int, i as int));
            }
            continue;
        }
        i += 1;
    }
    let last = Section {
        name: string_from_chars(cur_name.as_slice()),
        header_line: cur_header_line,
        start: cur_start,
        end: n,
        entries: cur_entries,
    };
    let ghost cur = SpecSection {
        name: cur_name@,
        header_line: match cur_header_line {
            Some(h) => Some(h as int),
            None => None,
        },
        start: cur_start as int,
        end: cur_start as int,
        entries: entries_view(cur_entries@),
    };
    let ghost old_secs = sections_view(sections@);
    sections.push(last);
    proof {
        assert(sections_view(sections@) =~= old_secs.push(close_section(cur, n as int)));
    }
    IniDoc { lines, sections }
}

impl IniDoc {
    /// The document's text: every line concatenated.
    pub fn raw(&self) -> (r: String)
        ensures
            r@ == concat(self.lines_view()),
    {
        concat_lines(&self.lines)
    }

    /// The first section named `name`.
    pub fn section(&self, name: &str) -> (r: Option<&Section>)
        ensures
            match r {
                Some(s) => find_section(self.sections_view(), name@) >= 0 && s.view()
                    == self.sections_view()[find_section(self.sections_view(), name@)],
                None => find_section(self.sections_view(), name@) == -1,
            },
    {
        let nv = str_chars(name);
        let mut i: usize = 0;
        while i < self.sections.len()
            invariant
                i <= self.sections.len(),
                nv@ == name@,
                find_section(self.sections_view().take(i as int), name@) == -1,
            decreases self.sections.len() - i,
        {
            proof {
                lemma_find_section_step(self.sections_view(), name@, i as int);
                assert(self.sections_view()[i as int] == self.sections@[i as int].view());
            }
            if str_eq_chars(self.sections[i].name.as_str(), nv.as_slice()) {
                proof {
                    lemma_find_section_prefix(self.sections_view(), name@, i + 1);
                }
                return Some(&self.sections[i]);
            }
            i += 1;
        }
        assert(self.sections_view().take(i as int) == self.sections_view());
        None
    }
}

/// All lines concatenated.
pub fn concat_lines(lines: &Vec<String>) -> (r: String)
    ensures
        r@ == concat(strings_view(lines@)),
{
    let mut acc: Vec<char> = Vec::new();
    let mut i: usize = 0;
    while i < lines.len()
        invariant
            i <= lines.len(),
            acc@ == concat(strings_view(lines@).take(i as int)),
        decreases lines.len() - i,
    {
        let l = str_chars(lines[i].as_str());
        append_chars(&mut acc, l.as_slice());
        proof {
            assert(strings_view(lines@).take(i + 1) == strings_view(lines@).take(i as int).push(
                lines@[i as int]@,
            ));
            lemma_concat_push(strings_view(lines@).take(i as int), lines@[i as int]@);
        }
        i += 1;
    }
    assert(strings_view(lines@).take(lines.len() as int) == strings_view(lines@));
    string_from_chars(acc.as_slice())
}

/// Once the first match lies within a prefix, the whole sequence has the same first match.
pub proof fn lemma_find_section_prefix(secs: Seq<SpecSection>, name: Seq<char>, k: int)
    requires
        0 <= k <= secs.len(),
        find_section(secs.take(k), name) >= 0,
    ensures
        find_section(secs, name) == find_section(secs.take(k), name),
    decreases secs.len() - k,
{
    if k < secs.len() {
        assert(secs.take(k + 1).drop_last() == secs.take(k));
        lemma_find_section_prefix(secs, name, k + 1);
    } else {
        assert(secs.take(k) == secs);
    }
}

pub proof fn lemma_find_entry_prefix(es: Seq<SpecEntry>, name: Seq<char>, k: int)
    requires
        0 <= k <= es.len(),
        find_entry(es.take(k), name) >= 0,
    ensures
        find_entry(es, name) == find_entry(es.take(k), name),
    decreases es.len() - k,
{
    if k < es.len() {
        assert(es.take(k + 1).drop_last() == es.take(k));
        lemma_find_entry_prefix(es, name, k + 1);
    } else {
        assert(es.take(k) == es);
    }
}

impl Section {
    /// The first entry named `name`.
    pub fn entry(&self, name: &str) -> (r: Option<&Entry>)
        ensures
            match r {
                Some(e) => find_entry(self.view().entries, name@) >= 0 && e.view()
                    == self.view().entries[find_entry(self.view().entries, name@)],
                None => find_entry(self.view().entries, name@) == -1,
            },
    {
        let nv = str_chars(name);
        let ghost es = self.view().entries;
        let mut i: usize = 0;
        while i < self.entries.len()
            invariant
                i <= self.entries.len(),
                es == entries_view(self.entries@),
                nv@ == name@,
                find_entry(es.take(i as int), name@) == -1,
            decreases self.entries.len() - i,
        {
            proof {
                lemma_find_entry_step(es, name@, i as int);
                assert(es[i as int] == self.entries@[i as int].view());
            }
            if str_eq_chars(self.entries[i].name.as_str(), nv.as_slice()) {
                proof {
                    lemma_find_entry_prefix(es, name@, i + 1);
                }
                return Some(&self.entries[i]);
            }
            i += 1;
        }
        assert(es.take(i as int) == es);
        None
    }
}

/// Parsing keeps every byte: the document's lines concatenate back to the input.
pub proof fn law_parse_round_trip(raw: Seq<char>)
    ensures
        concat(split_keep(raw)) == raw,
{
    lemma_split_keep_concat(raw);
}

/// The lines of a parsed document: none for empty text, otherwise each line non-empty,
/// holding a line break only as its last character, and every line but the last ending in
/// one.
pub proof fn law_parse_line_shape(raw: Seq<char>)
    ensures
        (raw.len() == 0) == (split_keep(raw).len() == 0),
        forall|i: int| 0 <= i < split_keep(raw).len() ==> (#[trigger] split_keep(raw)[i]).len() > 0,
        forall|i: int, j: int|
            0 <= i < split_keep(raw).len() && 0 <= j < split_keep(raw)[i].len() - 1 ==> #[trigger] split_keep(
                raw,
            )[i][j] != '\n',
        forall|i: int| 0 <= i < split_keep(raw).len() - 1 ==> (#[trigger] split_keep(raw)[i]).last() == '\n',
{
    crate::text::lemma_split_keep_shape(raw);
}

} // verus!

//! Surgical `platformio.ini` edits. Each [`IniEdit`] re-parses the current text and
//! rewrites only the line range it touches; every other line is kept as it was.
use crate::ini::parse::{
    close_section, concat_lines, detect_eol, detect_eol_spec, find_entry, find_section,
    lemma_find_entry_props, lemma_find_section_props, parse, parse_sections,
    IniDoc, SpecSection,
};
use crate::text::{
    append_str, concat, ends_with, ends_with_chars, lemma_split_keep_concat, split_keep, str_chars,
    string_from_chars, strings_view, strip_eol, strip_eol_chars, str_to_string,
};
use vstd::prelude::*;

verus! {

#[derive(Debug, Clone)]
pub enum IniEdit {
    SetValue { section: String, name: String, values: Vec<String> },
    Remove { section: String, name: String },
    AddSection { name: String },
    RemoveSection { name: String },
    RenameSection { from: String, to: String },
}

pub enum SpecEdit {
    SetValue { section: Seq<char>, name: Seq<char>, values: Seq<Seq<char>> },
    Remove { section: Seq<char>, name: Seq<char> },
    AddSection { name: Seq<char> },
    RemoveSection { name: Seq<char> },
    RenameSection { from: Seq<char>, to: Seq<char> },
}

impl IniEdit {
    pub open spec fn view(&self) -> SpecEdit {
        match self {
            IniEdit::SetValue { section, name, values } => SpecEdit::SetValue {
                section: section@,
                name: name@,
                values: strings_view(values@),
            },
            IniEdit::Remove { section, name } => SpecEdit::Remove { section: section@, name: name@ },
            IniEdit::AddSection { name } => SpecEdit::AddSection { name: name@ },
            IniEdit::RemoveSection { name } => SpecEdit::RemoveSection { name: name@ },
            IniEdit::RenameSection { from, to } => SpecEdit::RenameSection { from: from@, to: to@ },
        }
    }
}

pub open spec fn edits_view(v: Seq<IniEdit>) -> Seq<SpecEdit> {
    v.map_values(|e: IniEdit| e.view())
}

// ---------------------------------------------------------------------------------------
// Specification
// ---------------------------------------------------------------------------------------

pub open spec fn lf() -> Seq<char> {
    seq!['\n']
}

/// The lines PlatformIO's own writer produces for an option: a single value stays on the
/// `key = value` line; two or more switch to `key = ` (with a trailing space) followed by
/// one tab-indented continuation line per value.
pub open spec fn format_entry_lines_spec(name: Seq<char>, values: Seq<Seq<char>>, eol: Seq<char>) -> Seq<
    Seq<char>,
> {
    if values.len() <= 1 {
        let v = if values.len() == 1 {
            values[0]
        } else {
            Seq::empty()
        };
        seq![name + seq![' ', '=', ' '] + v + eol]
    } else {
        seq![name + seq![' ', '=', ' '] + eol] + values.map_values(|v: Seq<char>| seq!['\t'] + v + eol)
    }
}

/// Gives the last line a line ending when it has none.
pub open spec fn terminate_last(ls: Seq<Seq<char>>, eol: Seq<char>) -> Seq<Seq<char>> {
    if ls.len() > 0 && !ends_with(ls.last(), lf()) {
        ls.update(ls.len() - 1, ls.last() + eol)
    } else {
        ls
    }
}

/// Appends an empty `[name]` section at the end: the last line gets a line ending if it
/// lacks one, then one blank separator line is added unless the last line is already blank.
pub open spec fn append_new_section_spec(ls: Seq<Seq<char>>, name: Seq<char>, eol: Seq<char>) -> Seq<
    Seq<char>,
> {
    let ls1 = terminate_last(ls, eol);
    let ls2 = if ls1.len() > 0 && strip_eol(ls1.last()).len() != 0 {
        ls1.push(eol)
    } else {
        ls1
    };
    ls2.push(seq!['['] + name + seq![']'] + eol)
}

/// Sets `key` in the existing section `secs[si]`: its lines are replaced in place when the
/// key exists; otherwise the new lines go right after the section's last entry (or at the
/// start of its body when it has none).
pub open spec fn set_in_section_spec(
    ls: Seq<Seq<char>>,
    sec: SpecSection,
    key: Seq<char>,
    values: Seq<Seq<char>>,
    eol: Seq<char>,
) -> Seq<char> {
    let new_lines = format_entry_lines_spec(key, values, eol);
    let ei = find_entry(sec.entries, key);
    if ei >= 0 {
        let e = sec.entries[ei];
        concat(ls.take(e.start) + new_lines + ls.skip(e.end))
    } else {
        let at = if sec.entries.len() > 0 {
            sec.entries.last().end
        } else {
            sec.start
        };
        let ls1 = if at == ls.len() {
            terminate_last(ls, eol)
        } else {
            ls
        };
        concat(ls1.take(at) + new_lines + ls1.skip(at))
    }
}

/// `Set`: when the section is missing it is first appended, the text re-read, and the key
/// set inside the new section.
pub open spec fn set_entry_spec(raw: Seq<char>, section: Seq<char>, key: Seq<char>, values: Seq<
    Seq<char>,
>) -> Seq<char> {
    let ls = split_keep(raw);
    let secs = parse_sections(ls);
    let si = find_section(secs, section);
    if si >= 0 {
        set_in_section_spec(ls, secs[si], key, values, detect_eol_spec(ls))
    } else {
        let raw2 = concat(append_new_section_spec(ls, section, detect_eol_spec(ls)));
        let ls2 = split_keep(raw2);
        let secs2 = parse_sections(ls2);
        let si2 = find_section(secs2, section);
        if si2 >= 0 {
            set_in_section_spec(ls2, secs2[si2], key, values, detect_eol_spec(ls2))
        } else {
            raw2
        }
    }
}

/// `Remove`: the entry's lines are deleted; a missing section or key leaves the text as is.
pub open spec fn remove_entry_spec(raw: Seq<char>, section: Seq<char>, key: Seq<char>) -> Seq<char> {
    let ls = split_keep(raw);
    let secs = parse_sections(ls);
    let si = find_section(secs, section);
    if si < 0 {
        raw
    } else {
        let ei = find_entry(secs[si].entries, key);
        if ei < 0 {
            raw
        } else {
            let e = secs[si].entries[ei];
            concat(ls.take(e.start) + ls.skip(e.end))
        }
    }
}

/// `AddSection`: appended at the end, unless a section of that name exists already.
pub open spec fn add_section_spec(raw: Seq<char>, name: Seq<char>) -> Seq<char> {
    let ls = split_keep(raw);
    if find_section(parse_sections(ls), name) >= 0 {
        raw
    } else {
        concat(append_new_section_spec(ls, name, detect_eol_spec(ls)))
    }
}

/// `RemoveSection`: the header line and the section's body are deleted. The preamble and
/// missing sections are left alone.
pub open spec fn remove_section_spec(raw: Seq<char>, name: Seq<char>) -> Seq<char> {
    let ls = split_keep(raw);
    let secs = parse_sections(ls);
    let si = find_section(secs, name);
    if name.len() == 0 || si < 0 {
        raw
    } else {
        match secs[si].header_line {
            None => raw,
            Some(h) => concat(ls.take(h) + ls.skip(secs[si].end)),
        }
    }
}

/// `RenameSection`: only the header line is rewritten.
pub open spec fn rename_section_spec(raw: Seq<char>, from: Seq<char>, to: Seq<char>) -> Seq<char> {
    let ls = split_keep(raw);
    let secs = parse_sections(ls);
    let si = find_section(secs, from);
    if si < 0 {
        raw
    } else {
        match secs[si].header_line {
            None => raw,
            Some(h) => concat(ls.update(h, seq!['['] + to + seq![']'] + detect_eol_spec(ls))),
        }
    }
}

pub open spec fn apply_edit_spec(raw: Seq<char>, edit: SpecEdit) -> Seq<char> {
    match edit {
        SpecEdit::SetValue { section, name, values } => set_entry_spec(raw, section, name, values),
        SpecEdit::Remove { section, name } => remove_entry_spec(raw, section, name),
        SpecEdit::AddSection { name } => add_section_spec(raw, name),
        SpecEdit::RemoveSection { name } => remove_section_spec(raw, name),
        SpecEdit::RenameSection { from, to } => rename_section_spec(raw, from, to),
    }
}

/// Edits applied in order, each to the result of the previous one.
pub open spec fn apply_edits_spec(raw: Seq<char>, edits: Seq<SpecEdit>) -> Seq<char>
    decreases edits.len(),
{
    if edits.len() == 0 {
        raw
    } else {
        apply_edit_spec(apply_edits_spec(raw, edits.drop_last()), edits.last())
    }
}

// ---------------------------------------------------------------------------------------
// Executable
// ---------------------------------------------------------------------------------------

/// `name + " = " + rest + eol`, or `"\t" + v + eol`, as a `String`.
fn line3(a: &[char], b: &[char], eol: &str) -> (r: String)
    ensures
        r@ == a@ + b@ + eol@,
{
    let mut v: Vec<char> = Vec::new();
    let mut i: usize = 0;
    while i < a.len()
        invariant
            i <= a.len(),
            v@ == a@.take(i as int),
        decreases a.len() - i,
    {
        v.push(a[i]);
        assert(a@.take(i as int).push(a@[i as int]) == a@.take(i + 1));
        i += 1;
    }
    assert(a@.take(a.len() as int) == a@);
    let mut j: usize = 0;
    while j < b.len()
        invariant
            j <= b.len(),
            v@ == a@ + b@.take(j as int),
        decreases b.len() - j,
    {
        v.push(b[j]);
        assert(a@ + b@.take(j as int) + seq![b@[j as int]] == a@ + b@.take(j + 1));
        j += 1;
    }
    assert(b@.take(b.len() as int) == b@);
    append_str(&mut v, eol);
    string_from_chars(v.as_slice())
}

fn format_entry_lines(name: &str, values: &Vec<String>, eol: &str) -> (r: Vec<String>)
    ensures
        strings_view(r@) == format_entry_lines_spec(name@, strings_view(values@), eol@),
{
    let mut head = str_chars(name);
    head.push(' ');
    head.push('=');
    head.push(' ');
    assert(head@ == name@ + seq![' ', '=', ' ']);
    if values.len() <= 1 {
        let v: Vec<char> = if values.len() == 1 {
            str_chars(values[0].as_str())
        } else {
            Vec::new()
        };
        let l = line3(head.as_slice(), v.as_slice(), eol);
        let mut out: Vec<String> = Vec::new();
        out.push(l);
        assert(strings_view(out@) =~= format_entry_lines_spec(name@, strings_view(values@), eol@));
        out
    } else {
        let empty: Vec<char> = Vec::new();
        let mut out: Vec<String> = Vec::new();
        out.push(line3(head.as_slice(), empty.as_slice(), eol));
        assert(head@ + empty@ == head@);
        let tab = ['\t'];
        let mut i: usize = 0;
        while i < values.len()
            invariant
                i <= values.len(),
                tab@ == seq!['\t'],
                out.len() == i + 1,
                out@[0]@ == name@ + seq![' ', '=', ' '] + eol@,
                forall|j: int| 0 <= j < i ==> #[trigger] out@[j + 1]@ == seq!['\t'] + values@[j]@ + eol@,
            decreases values.len() - i,
        {
            let vv = str_chars(values[i].as_str());
            out.push(line3(&tab, vv.as_slice(), eol));
            i += 1;
        }
        proof {
            let spec = format_entry_lines_spec(name@, strings_view(values@), eol@);
            assert(spec.len() == values.len() + 1);
            assert forall|j: int| 0 <= j < out.len() implies strings_view(out@)[j] == spec[j] by {
                if j > 0 {
                    assert(out@[(j - 1) + 1]@ == seq!['\t'] + values@[j - 1]@ + eol@);
                }
            }
            assert(strings_view(out@) =~= spec);
        }
        out
    }
}

/// `ls[..a] + mid + ls[b..]`, with the kept lines cloned.
fn splice_lines(lines: &Vec<String>, a: usize, b: usize, mid: Vec<String>) -> (r: Vec<String>)
    requires
        a <= b <= lines.len(),
    ensures
        strings_view(r@) == strings_view(lines@).take(a as int) + strings_view(mid@) + strings_view(
            lines@,
        ).skip(b as int),
{
    let mut out: Vec<String> = Vec::new();
    let mut i: usize = 0;
    while i < a
        invariant
            a <= b <= lines.len(),
            i <= a,
            strings_view(out@) == strings_view(lines@).take(i as int),
        decreases a - i,
    {
        let ghost old = strings_view(out@);
        out.push(lines[i].clone());
        proof {
            assert(strings_view(out@) =~= old.push(lines@[i as int]@));
            assert(strings_view(lines@).take(i + 1) =~= strings_view(lines@).take(i as int).push(
                lines@[i as int]@,
            ));
        }
        i += 1;
    }
    let mut j: usize = 0;
    while j < mid.len()
        invariant
            j <= mid.len(),
            strings_view(out@) == strings_view(lines@).take(a as int) + strings_view(mid@).take(
                j as int,
            ),
        decreases mid.len() - j,
    {
        let ghost old = strings_view(out@);
        out.push(mid[j].clone());
        proof {
            assert(strings_view(out@) =~= old.push(mid@[j as int]@));
            assert(strings_view(mid@).take(j + 1) =~= strings_view(mid@).take(j as int).push(
                mid@[j as int]@,
            ));
            assert(strings_view(lines@).take(a as int) + strings_view(mid@).take(j + 1)
                =~= strings_view(lines@).take(a as int) + strings_view(mid@).take(j as int) + seq![mid@[j as int]@]);
        }
        j += 1;
    }
    assert(strings_view(mid@).take(mid.len() as int) =~= strings_view(mid@));
    let mut k = b;
    while k < lines.len()
        invariant
            b <= k <= lines.len(),
            strings_view(out@) == strings_view(lines@).take(a as int) + strings_view(mid@)
                + strings_view(lines@).subrange(b as int, k as int),
        decreases lines.len() - k,
    {
        let ghost old = strings_view(out@);
        out.push(lines[k].clone());
        proof {
            assert(strings_view(out@) =~= old.push(lines@[k as int]@));
            assert(strings_view(lines@).subrange(b as int, k + 1) =~= strings_view(lines@).subrange(
                b as int,
                k as int,
            ).push(lines@[k as int]@));
            assert(strings_view(lines@).take(a as int) + strings_view(mid@) + strings_view(
                lines@,
            ).subrange(b as int, k + 1) =~= strings_view(lines@).take(a as int) + strings_view(
                mid@,
            ) + strings_view(lines@).subrange(b as int, k as int) + seq![lines@[k as int]@]);
        }
        k += 1;
    }
    assert(strings_view(lines@).subrange(b as int, lines.len() as int) =~= strings_view(
        lines@,
    ).skip(b as int));
    out
}

fn terminate_last_exec(lines: &mut Vec<String>, eol: &str)
    ensures
        strings_view(final(lines)@) == terminate_last(strings_view(old(lines)@), eol@),
{
    let n = lines.len();
    if n > 0 {
        let last = str_chars(lines[n - 1].as_str());
        let lfa = ['\n'];
        assert(lfa@ == lf());
        if !ends_with_chars(last.as_slice(), &lfa) {
            let mut v = last;
            append_str(&mut v, eol);
            let s = string_from_chars(v.as_slice());
            let ghost old = strings_view(lines@);
            lines.set(n - 1, s);
            assert(strings_view(lines@) =~= old.update(n - 1, old.last() + eol@));
        }
    }
}

fn append_new_section(lines: &mut Vec<String>, name: &str, eol: &str)
    ensures
        strings_view(final(lines)@) == append_new_section_spec(strings_view(old(lines)@), name@, eol@),
{
    terminate_last_exec(lines, eol);
    let n = lines.len();
    if n > 0 {
        let last = str_chars(lines[n - 1].as_str());
        let c = strip_eol_chars(last.as_slice());
        if c.len() != 0 {
            let ghost old = strings_view(lines@);
            lines.push(str_to_string(eol));
            assert(strings_view(lines@) =~= old.push(eol@));
        }
    }
    let mut h: Vec<char> = Vec::new();
    h.push('[');
    append_str(&mut h, name);
    h.push(']');
    append_str(&mut h, eol);
    assert(h@ == seq!['['] + name@ + seq![']'] + eol@);
    let ghost old = strings_view(lines@);
    lines.push(string_from_chars(h.as_slice()));
    assert(strings_view(lines@) =~= old.push(h@));
}

fn set_in_section(doc: &IniDoc, si: usize, key: &str, values: &Vec<String>) -> (r: String)
    requires
        si < doc.sections.len(),
        doc.sections_view() == parse_sections(doc.lines_view()),
    ensures
        r@ == set_in_section_spec(
            doc.lines_view(),
            doc.sections_view()[si as int],
            key@,
            strings_view(values@),
            detect_eol_spec(doc.lines_view()),
        ),
{
    let eol = detect_eol(doc.lines.as_slice());
    let section = &doc.sections[si];
    assert(doc.sections_view()[si as int] == section.view());
    let new_entry_lines = format_entry_lines(key, values, eol);
    proof {
        lemma_section_ranges(doc.lines_view(), si as int);
    }
    proof {
        lemma_find_entry_props(section.view().entries, key@);
    }
    match section.entry(key) {
        Some(entry) => {
            let lines = splice_lines(&doc.lines, entry.start, entry.end, new_entry_lines);
            concat_lines(&lines)
        },
        None => {
            let n = section.entries.len();
            let at = if n > 0 {
                section.entries[n - 1].end
            } else {
                section.start
            };
            assert(section.view().entries.len() == n);
            assert(n > 0 ==> section.view().entries.last() == section.entries@[n - 1].view());
            let mut lines = doc.lines.clone();
            assert(lines@ == doc.lines@);
            assert(at <= doc.lines_view().len());
            assert(doc.lines_view().len() == doc.lines.len());
            if at == lines.len() {
                terminate_last_exec(&mut lines, eol);
            }
            assert(strings_view(lines@).len() == lines.len());
            let out = splice_lines(&lines, at, at, new_entry_lines);
            concat_lines(&out)
        },
    }
}

/// Line ranges of parsed sections and entries lie within the document.
pub proof fn lemma_section_ranges(ls: Seq<Seq<char>>, si: int)
    requires
        0 <= si < parse_sections(ls).len(),
    ensures
        0 <= parse_sections(ls)[si].start <= parse_sections(ls)[si].end <= ls.len(),
        match parse_sections(ls)[si].header_line {
            Some(h) => 0 <= h < parse_sections(ls)[si].start && h + 1 == parse_sections(ls)[si].start,
            None => parse_sections(ls)[si].start == 0,
        },
        forall|k: int|
            0 <= k < parse_sections(ls)[si].entries.len() ==> 0 <= (
            #[trigger] parse_sections(ls)[si].entries[k]).start
                <= parse_sections(ls)[si].entries[k].end <= ls.len(),
        parse_sections(ls)[si].entries.len() > 0 ==> parse_sections(ls)[si].start
            <= parse_sections(ls)[si].entries.last().end <= parse_sections(ls)[si].end,
{
    crate::ini::laws::lemma_parse_sections_ok(ls);
}

fn set_entry(doc: &IniDoc, raw: &str, section_name: &str, key: &str, values: &Vec<String>) -> (r: String)
    requires
        doc.lines_view() == split_keep(raw@),
        doc.sections_view() == parse_sections(split_keep(raw@)),
    ensures
        r@ == set_entry_spec(raw@, section_name@, key@, strings_view(values@)),
{
    match doc.section(section_name) {
        Some(_) => {
            let si = section_index(doc, section_name);
            set_in_section(doc, si, key, values)
        },
        None => {
            let eol = detect_eol(doc.lines.as_slice());
            let mut lines = doc.lines.clone();
            assert(lines@ == doc.lines@);
            append_new_section(&mut lines, section_name, eol);
            let raw2 = concat_lines(&lines);
            let doc2 = parse(raw2.as_str());
            match doc2.section(section_name) {
                Some(_) => {
                    let si2 = section_index(&doc2, section_name);
                    set_in_section(&doc2, si2, key, values)
                },
                // Only reachable for a section name holding a line feed, whose header line
                // cannot be read back.
                None => raw2,
            }
        },
    }
}

/// The index of the first section named `name`, known to exist.
fn section_index(doc: &IniDoc, name: &str) -> (r: usize)
    requires
        find_section(doc.sections_view(), name@) >= 0,
    ensures
        r as int == find_section(doc.sections_view(), name@),
        r < doc.sections.len(),
{
    let nv = str_chars(name);
    let mut i: usize = 0;
    proof {
        lemma_find_section_props(doc.sections_view(), name@);
    }
    while i < doc.sections.len()
        invariant
            i <= doc.sections.len(),
            nv@ == name@,
            find_section(doc.sections_view().take(i as int), name@) == -1,
            find_section(doc.sections_view(), name@) >= 0,
        decreases doc.sections.len() - i,
    {
        proof {
            crate::ini::parse::lemma_find_section_step(doc.sections_view(), name@, i as int);
            assert(doc.sections_view()[i as int] == doc.sections@[i as int].view());
        }
        if crate::text::str_eq_chars(doc.sections[i].name.as_str(), nv.as_slice()) {
            proof {
                crate::ini::parse::lemma_find_section_prefix(doc.sections_view(), name@, i + 1);
            }
            return i;
        }
        i += 1;
    }
    assert(doc.sections_view().take(i as int) == doc.sections_view());
    0
}

fn remove_entry(doc: &IniDoc, raw: &str, section_name: &str, key: &str) -> (r: String)
    requires
        doc.lines_view() == split_keep(raw@),
        doc.sections_view() == parse_sections(split_keep(raw@)),
    ensures
        r@ == remove_entry_spec(raw@, section_name@, key@),
{
    proof {
        lemma_split_keep_concat(raw@);
    }
    match doc.section(section_name) {
        None => doc.raw(),
        Some(section) => {
            let si = section_index(doc, section_name);
            proof {
                lemma_section_ranges(doc.lines_view(), si as int);
                lemma_find_entry_props(section.view().entries, key@);
            }
            match section.entry(key) {
                None => doc.raw(),
                Some(entry) => {
                    let none: Vec<String> = Vec::new();
                    assert(strings_view(none@) =~= Seq::<Seq<char>>::empty());
                    let lines = splice_lines(&doc.lines, entry.start, entry.end, none);
                    assert(doc.lines_view().take(entry.start as int) + Seq::<Seq<char>>::empty()
                        =~= doc.lines_view().take(entry.start as int));
                    concat_lines(&lines)
                },
            }
        },
    }
}

fn add_section(doc: &IniDoc, raw: &str, name: &str) -> (r: String)
    requires
        doc.lines_view() == split_keep(raw@),
        doc.sections_view() == parse_sections(split_keep(raw@)),
    ensures
        r@ == add_section_spec(raw@, name@),
{
    proof {
        lemma_split_keep_concat(raw@);
    }
    if doc.section(name).is_some() {
        return doc.raw();
    }
    let eol = detect_eol(doc.lines.as_slice());
    let mut lines = doc.lines.clone();
    assert(lines@ == doc.lines@);
    append_new_section(&mut lines, name, eol);
    concat_lines(&lines)
}

fn remove_section(doc: &IniDoc, raw: &str, name: &str) -> (r: String)
    requires
        doc.lines_view() == split_keep(raw@),
        doc.sections_view() == parse_sections(split_keep(raw@)),
    ensures
        r@ == remove_section_spec(raw@, name@),
{
    proof {
        lemma_split_keep_concat(raw@);
    }
    if name.is_empty() {
        return doc.raw();
    }
    match doc.section(name) {
        None => doc.raw(),
        Some(section) => {
            let si = section_index(doc, name);
            proof {
                lemma_section_ranges(doc.lines_view(), si as int);
            }
            match section.header_line {
                None => doc.raw(),
                Some(header) => {
                    let none: Vec<String> = Vec::new();
                    assert(strings_view(none@) =~= Seq::<Seq<char>>::empty());
                    let lines = splice_lines(&doc.lines, header, section.end, none);
                    assert(doc.lines_view().take(header as int) + Seq::<Seq<char>>::empty()
                        =~= doc.lines_view().take(header as int));
                    concat_lines(&lines)
                },
            }
        },
    }
}

fn rename_section(doc: &IniDoc, raw: &str, from: &str, to: &str) -> (r: String)
    requires
        doc.lines_view() == split_keep(raw@),
        doc.sections_view() == parse_sections(split_keep(raw@)),
    ensures
        r@ == rename_section_spec(raw@, from@, to@),
{
    proof {
        lemma_split_keep_concat(raw@);
    }
    match doc.section(from) {
        None => doc.raw(),
        Some(section) => {
            let si = section_index(doc, from);
            proof {
                lemma_section_ranges(doc.lines_view(), si as int);
            }
            match section.header_line {
                None => doc.raw(),
                Some(header) => {
                    let eol = detect_eol(doc.lines.as_slice());
                    let mut h: Vec<char> = Vec::new();
                    h.push('[');
                    append_str(&mut h, to);
                    h.push(']');
                    append_str(&mut h, eol);
                    assert(h@ == seq!['['] + to@ + seq![']'] + eol@);
                    let mut lines = doc.lines.clone();
                    assert(lines@ == doc.lines@);
                    let ghost old = strings_view(lines@);
                    lines.set(header, string_from_chars(h.as_slice()));
                    assert(strings_view(lines@) =~= old.update(header as int, h@));
                    concat_lines(&lines)
                },
            }
        },
    }
}

/// Applies one edit to `raw`.
pub fn apply_edit(raw: &str, edit: &IniEdit) -> (r: String)
    ensures
        r@ == apply_edit_spec(raw@, edit.view()),
{
    let doc = parse(raw);
    match edit {
        IniEdit::SetValue { section, name, values } => set_entry(&doc, raw, section.as_str(), name.as_str(), values),
        IniEdit::Remove { section, name } => remove_entry(&doc, raw, section.as_str(), name.as_str()),
        IniEdit::AddSection { name } => add_section(&doc, raw, name.as_str()),
        IniEdit::RemoveSection { name } => remove_section(&doc, raw, name.as_str()),
        IniEdit::RenameSection { from, to } => rename_section(&doc, raw, from.as_str(), to.as_str()),
    }
}

/// Applies `edits` in order, each against the result of the previous one. An empty list
/// gives back `raw` unchanged.
pub fn apply_edits(raw: &str, edits: &[IniEdit]) -> (r: String)
    ensures
        r@ == apply_edits_spec(raw@, edits_view(edits@)),
{
    let mut current = str_to_string(raw);
    let mut i: usize = 0;
    let ghost ev = edits_view(edits@);
    while i < edits.len()
        invariant
            i <= edits.len(),
            ev == edits_view(edits@),
            current@ == apply_edits_spec(raw@, ev.take(i as int)),
        decreases edits.len() - i,
    {
        proof {
            assert(ev.take(i + 1).drop_last() == ev.take(i as int));
            assert(ev.take(i + 1).last() == edits@[i as int].view());
        }
        current = apply_edit(current.as_str(), &edits[i]);
        i += 1;
    }
    assert(ev.take(edits.len() as int) == ev);
    current
}

} // verus!

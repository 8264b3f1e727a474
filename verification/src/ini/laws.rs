//! Structural facts about parsed documents.
use crate::ini::parse::{
    add_entry, close_section, content, cont_end, detect_eol_spec, entry_kv, find_section, header_name, is_cont,
    is_indented, is_skip, lemma_cont_end_bounds, parse_sections, preamble, scan, SpecEntry, SpecSection,
};
use crate::ini::patch::{add_section_spec, append_new_section_spec, lf, terminate_last};
use crate::text::{
    concat, ends_with, lead_ws, lemma_concat_push, lemma_split_keep_append, lemma_split_keep_one_line, split_keep,
    strip_eol, trim_start,
};
use vstd::prelude::*;

verus! {

/// A parsed section's line ranges: its body lies within the document, its header line (if
/// any) is the line just before its body, and each of its entries lies within its body.
pub open spec fn section_ok(n: int, s: SpecSection) -> bool {
    &&& 0 <= s.start <= s.end <= n
    &&& match s.header_line {
        Some(h) => 0 <= h && h + 1 == s.start,
        None => s.start == 0,
    }
    &&& forall|k: int|
        0 <= k < s.entries.len() ==> s.start <= (#[trigger] s.entries[k]).start < s.entries[k].end
            <= s.end
}

/// The section still being read when the scan reaches line `i`.
pub open spec fn open_section_ok(n: int, s: SpecSection, i: int) -> bool {
    &&& 0 <= s.start <= i <= n
    &&& match s.header_line {
        Some(h) => 0 <= h && h + 1 == s.start,
        None => s.start == 0,
    }
    &&& forall|k: int|
        0 <= k < s.entries.len() ==> s.start <= (#[trigger] s.entries[k]).start < s.entries[k].end
            <= i
}

proof fn lemma_scan_ok(ls: Seq<Seq<char>>, i: int, cur: SpecSection, done: Seq<SpecSection>)
    requires
        0 <= i <= ls.len(),
        open_section_ok(ls.len() as int, cur, i),
        forall|j: int| 0 <= j < done.len() ==> section_ok(ls.len() as int, #[trigger] done[j]),
    ensures
        forall|j: int|
            0 <= j < scan(ls, i, cur, done).len() ==> section_ok(
                ls.len() as int,
                #[trigger] scan(ls, i, cur, done)[j],
            ),
    decreases ls.len() - i,
{
    let n = ls.len() as int;
    if i >= n {
        let closed = close_section(cur, n);
        assert(section_ok(n, closed));
        assert(scan(ls, i, cur, done) == done.push(closed));
        assert forall|j: int| 0 <= j < done.push(closed).len() implies section_ok(
            n,
            #[trigger] done.push(closed)[j],
        ) by {
            if j < done.len() {
                assert(done.push(closed)[j] == done[j]);
            }
        }
    } else if crate::ini::parse::header_name(ls[i]) is Some {
        let closed = close_section(cur, i);
        assert(section_ok(n, closed));
        let d2 = done.push(closed);
        assert forall|j: int| 0 <= j < d2.len() implies section_ok(n, #[trigger] d2[j]) by {
            if j < done.len() {
                assert(d2[j] == done[j]);
            }
        }
        let next = SpecSection {
            name: crate::ini::parse::header_name(ls[i]).unwrap(),
            header_line: Some(i),
            start: i + 1,
            end: i + 1,
            entries: Seq::empty(),
        };
        lemma_scan_ok(ls, i + 1, next, d2);
        assert(scan(ls, i, cur, done) == scan(ls, i + 1, next, d2));
    } else if crate::ini::parse::is_skip(ls[i]) {
        lemma_scan_ok(ls, i + 1, cur, done);
        assert(scan(ls, i, cur, done) == scan(ls, i + 1, cur, done));
    } else if crate::ini::parse::entry_kv(ls[i]) is Some {
        let e = cont_end(ls, i + 1);
        lemma_cont_end_bounds(ls, i + 1);
        let ent = SpecEntry {
            name: crate::ini::parse::entry_kv(ls[i]).unwrap().0,
            start: i,
            end: e,
            values: crate::ini::parse::entry_values(ls, i, e),
        };
        let cur2 = add_entry(cur, ent);
        assert forall|k: int| 0 <= k < cur2.entries.len() implies cur2.start <= (
        #[trigger] cur2.entries[k]).start < cur2.entries[k].end <= e by {
            if k < cur.entries.len() {
                assert(cur2.entries[k] == cur.entries[k]);
            }
        }
        lemma_scan_ok(ls, e, cur2, done);
        assert(scan(ls, i, cur, done) == scan(ls, e, cur2, done));
    } else {
        lemma_scan_ok(ls, i + 1, cur, done);
        assert(scan(ls, i, cur, done) == scan(ls, i + 1, cur, done));
    }
}

/// Every parsed section satisfies [`section_ok`].
pub proof fn lemma_parse_sections_ok(ls: Seq<Seq<char>>)
    ensures
        forall|j: int|
            0 <= j < parse_sections(ls).len() ==> section_ok(
                ls.len() as int,
                #[trigger] parse_sections(ls)[j],
            ),
{
    lemma_scan_ok(ls, 0, preamble(), Seq::empty());
}

/// The scan keeps the sections already closed, and closes the current one under its name.
proof fn lemma_scan_keeps(ls: Seq<Seq<char>>, i: int, cur: SpecSection, done: Seq<SpecSection>)
    ensures
        scan(ls, i, cur, done).len() > done.len(),
        forall|k: int| 0 <= k < done.len() ==> #[trigger] scan(ls, i, cur, done)[k] == done[k],
        scan(ls, i, cur, done)[done.len() as int].name == cur.name,
    decreases ls.len() - i,
{
    if i < 0 || i >= ls.len() {
    } else if header_name(ls[i]) is Some {
        let nxt = SpecSection {
            name: header_name(ls[i]).unwrap(),
            header_line: Some(i),
            start: i + 1,
            end: i + 1,
            entries: Seq::empty(),
        };
        lemma_scan_keeps(ls, i + 1, nxt, done.push(close_section(cur, i)));
        let r = scan(ls, i + 1, nxt, done.push(close_section(cur, i)));
        assert(forall|k: int| 0 <= k < done.len() ==> done.push(close_section(cur, i))[k] == done[k]);
        assert(r[done.len() as int] == done.push(close_section(cur, i))[done.len() as int]);
    } else if is_skip(ls[i]) {
        lemma_scan_keeps(ls, i + 1, cur, done);
    } else if entry_kv(ls[i]) is Some {
        let e = cont_end(ls, i + 1);
        lemma_cont_end_bounds(ls, i + 1);
        let en = SpecEntry { name: entry_kv(ls[i]).unwrap().0, start: i, end: e, values: crate::ini::parse::entry_values(ls, i, e) };
        lemma_scan_keeps(ls, e, add_entry(cur, en), done);
    } else {
        lemma_scan_keeps(ls, i + 1, cur, done);
    }
}

/// Continuation lines never run past a line that is not one.
proof fn lemma_cont_end_stops(ls: Seq<Seq<char>>, j: int, h: int)
    requires
        0 <= j <= h < ls.len(),
        !is_cont(ls[h]),
    ensures
        cont_end(ls, j) <= h,
    decreases h - j,
{
    if is_cont(ls[j]) {
        lemma_cont_end_stops(ls, j + 1, h);
    }
}

/// A header line that is not a continuation line opens a section the scan reports.
proof fn lemma_scan_finds_header(
    ls: Seq<Seq<char>>,
    i: int,
    cur: SpecSection,
    done: Seq<SpecSection>,
    h: int,
    name: Seq<char>,
)
    requires
        0 <= i <= h < ls.len(),
        header_name(ls[h]) == Some(name),
        !is_cont(ls[h]),
    ensures
        exists|k: int| 0 <= k < scan(ls, i, cur, done).len() && (#[trigger] scan(ls, i, cur, done)[k]).name == name,
    decreases ls.len() - i,
{
    let r = scan(ls, i, cur, done);
    if header_name(ls[i]) is Some {
        let nxt = SpecSection {
            name: header_name(ls[i]).unwrap(),
            header_line: Some(i),
            start: i + 1,
            end: i + 1,
            entries: Seq::empty(),
        };
        let d2 = done.push(close_section(cur, i));
        if i == h {
            lemma_scan_keeps(ls, i + 1, nxt, d2);
            assert(r[d2.len() as int].name == name);
        } else {
            lemma_scan_finds_header(ls, i + 1, nxt, d2, h, name);
        }
    } else if is_skip(ls[i]) {
        lemma_scan_finds_header(ls, i + 1, cur, done, h, name);
    } else if entry_kv(ls[i]) is Some {
        let e = cont_end(ls, i + 1);
        lemma_cont_end_bounds(ls, i + 1);
        lemma_cont_end_stops(ls, i + 1, h);
        let en = SpecEntry { name: entry_kv(ls[i]).unwrap().0, start: i, end: e, values: crate::ini::parse::entry_values(ls, i, e) };
        lemma_scan_finds_header(ls, e, add_entry(cur, en), done, h, name);
    } else {
        lemma_scan_finds_header(ls, i + 1, cur, done, h, name);
    }
}

proof fn lemma_find_section_found(secs: Seq<SpecSection>, name: Seq<char>, k: int)
    requires
        0 <= k < secs.len(),
        secs[k].name == name,
    ensures
        find_section(secs, name) >= 0,
    decreases secs.len(),
{
    if k < secs.len() - 1 {
        assert(secs.drop_last()[k] == secs[k]);
        lemma_find_section_found(secs.drop_last(), name, k);
    }
}

/// The line ending a document is written with is `\n` or `\r\n`.
proof fn lemma_detect_eol_shape(ls: Seq<Seq<char>>)
    ensures
        detect_eol_spec(ls) == seq!['\n'] || detect_eol_spec(ls) == seq!['\r', '\n'],
{
}

/// The text of lines that all end in a line ending ends in one (or is empty).
proof fn lemma_concat_ends_in_newline(ls: Seq<Seq<char>>)
    requires
        ls.len() > 0 ==> ls.last().len() > 0 && ls.last().last() == '\n',
    ensures
        concat(ls).len() == 0 || concat(ls).last() == '\n',
{
    if ls.len() > 0 {
        lemma_concat_push(ls.drop_last(), ls.last());
        assert(ls.drop_last().push(ls.last()) =~= ls);
    } else {
        assert(concat(ls) == Seq::<char>::empty());
    }
}

/// Adding a section is idempotent: adding the same section a second time changes nothing.
/// (A name holding a line break is left out: its header would not be one line.)
pub proof fn law_add_section_is_idempotent(raw: Seq<char>, name: Seq<char>)
    requires
        forall|j: int| 0 <= j < name.len() ==> name[j] != '\n',
    ensures
        add_section_spec(add_section_spec(raw, name), name) == add_section_spec(raw, name),
{
    let ls = split_keep(raw);
    if find_section(parse_sections(ls), name) >= 0 {
        return;
    }
    let eol = detect_eol_spec(ls);
    lemma_detect_eol_shape(ls);
    let ls1 = terminate_last(ls, eol);
    let ls2 = if ls1.len() > 0 && strip_eol(ls1.last()).len() != 0 {
        ls1.push(eol)
    } else {
        ls1
    };
    let hdr = seq!['['] + name + seq![']'] + eol;
    assert(append_new_section_spec(ls, name, eol) == ls2.push(hdr));
    // The lines before the header all end in a line ending.
    if ls.len() > 0 {
        if !ends_with(ls.last(), lf()) {
            assert(ls1.last() == ls.last() + eol);
        } else {
            assert(ls1 == ls);
            assert(ls.last().skip(ls.last().len() - 1) == seq!['\n']);
            assert(ls.last().last() == ls.last().skip(ls.last().len() - 1)[0]);
        }
    }
    lemma_concat_ends_in_newline(ls2);
    let prefix = concat(ls2);
    lemma_concat_push(ls2, hdr);
    let raw2 = concat(ls2.push(hdr));
    assert(raw2 == prefix + hdr);
    // The header is one line.
    assert forall|j: int| 0 <= j < hdr.len() - 1 implies hdr[j] != '\n' by {
        if 1 <= j < name.len() + 1 {
            assert(hdr[j] == name[j - 1]);
        }
    }
    lemma_split_keep_one_line(hdr);
    lemma_split_keep_append(prefix, hdr);
    let s = split_keep(prefix);
    let ls3 = split_keep(raw2);
    assert(ls3 == s + seq![hdr]);
    let h = s.len() as int;
    assert(ls3[h] == hdr);
    // The header line reads as `[name]` and is not indented.
    let c = seq!['['] + name + seq![']'];
    assert(hdr == c + eol);
    assert(strip_eol(hdr) =~= c);
    assert(content(hdr) == c);
    assert(lead_ws(c) == 0);
    assert(trim_start(c) =~= c);
    assert(c.subrange(1, c.len() - 1) =~= name);
    assert(header_name(hdr) == Some(name));
    assert(!is_indented(c));
    assert(!is_cont(hdr));
    lemma_scan_finds_header(ls3, 0, preamble(), Seq::empty(), h, name);
    let secs = parse_sections(ls3);
    let k = choose|k: int| 0 <= k < secs.len() && (#[trigger] secs[k]).name == name;
    lemma_find_section_found(secs, name, k);
}
/// The entries of a section follow one another: each ends before the next begins.
pub open spec fn entries_ordered(es: Seq<SpecEntry>) -> bool {
    forall|p: int| 0 < p < es.len() ==> es[p - 1].end <= (#[trigger] es[p]).start
}

/// Sections in chain: the first is the unnamed preamble at line 0, each later one's header
/// is the line where the previous one ends, and its body starts on the next line.
pub open spec fn chained(secs: Seq<SpecSection>) -> bool {
    &&& secs.len() > 0 ==> secs[0].name.len() == 0 && secs[0].header_line is None && secs[0].start == 0
    &&& forall|k: int|
        0 < k < secs.len() ==> (#[trigger] secs[k]).header_line == Some(secs[k - 1].end) && secs[k].start
            == secs[k - 1].end + 1
    &&& forall|k: int| 0 <= k < secs.len() ==> entries_ordered((#[trigger] secs[k]).entries)
}

/// What holds of the scan's state on reaching line `i`.
pub open spec fn scan_chain_inv(cur: SpecSection, done: Seq<SpecSection>, i: int) -> bool {
    &&& chained(done)
    &&& done.len() == 0 ==> cur.name.len() == 0 && cur.header_line is None && cur.start == 0
    &&& done.len() > 0 ==> cur.header_line == Some(done.last().end) && cur.start == done.last().end + 1
    &&& entries_ordered(cur.entries)
    &&& cur.entries.len() > 0 ==> cur.entries.last().end <= i
}

proof fn lemma_scan_chain(ls: Seq<Seq<char>>, i: int, cur: SpecSection, done: Seq<SpecSection>)
    requires
        0 <= i <= ls.len(),
        scan_chain_inv(cur, done, i),
    ensures
        chained(scan(ls, i, cur, done)),
        scan(ls, i, cur, done).last().end == ls.len(),
    decreases ls.len() - i,
{
    let n = ls.len() as int;
    if i >= n {
        let closed = close_section(cur, n);
        let d2 = done.push(closed);
        assert(scan(ls, i, cur, done) == d2);
        assert forall|k: int| 0 < k < d2.len() implies (#[trigger] d2[k]).header_line == Some(d2[k - 1].end)
            && d2[k].start == d2[k - 1].end + 1 by {
            if k < done.len() {
                assert(d2[k] == done[k] && d2[k - 1] == done[k - 1]);
            } else {
                assert(d2[k - 1] == done.last());
            }
        }
        assert forall|k: int| 0 <= k < d2.len() implies entries_ordered((#[trigger] d2[k]).entries) by {
            if k < done.len() {
                assert(d2[k] == done[k]);
            }
        }
    } else if header_name(ls[i]) is Some {
        let closed = close_section(cur, i);
        let d2 = done.push(closed);
        assert forall|k: int| 0 < k < d2.len() implies (#[trigger] d2[k]).header_line == Some(d2[k - 1].end)
            && d2[k].start == d2[k - 1].end + 1 by {
            if k < done.len() {
                assert(d2[k] == done[k] && d2[k - 1] == done[k - 1]);
            } else {
                assert(d2[k - 1] == done.last());
            }
        }
        assert forall|k: int| 0 <= k < d2.len() implies entries_ordered((#[trigger] d2[k]).entries) by {
            if k < done.len() {
                assert(d2[k] == done[k]);
            }
        }
        if done.len() == 0 {
            assert(d2[0] == closed);
        } else {
            assert(d2[0] == done[0]);
        }
        let next = SpecSection {
            name: header_name(ls[i]).unwrap(),
            header_line: Some(i),
            start: i + 1,
            end: i + 1,
            entries: Seq::empty(),
        };
        assert(d2.last() == closed);
        lemma_scan_chain(ls, i + 1, next, d2);
        assert(scan(ls, i, cur, done) == scan(ls, i + 1, next, d2));
    } else if is_skip(ls[i]) {
        lemma_scan_chain(ls, i + 1, cur, done);
        assert(scan(ls, i, cur, done) == scan(ls, i + 1, cur, done));
    } else if entry_kv(ls[i]) is Some {
        let e = cont_end(ls, i + 1);
        lemma_cont_end_bounds(ls, i + 1);
        let ent = SpecEntry {
            name: entry_kv(ls[i]).unwrap().0,
            start: i,
            end: e,
            values: crate::ini::parse::entry_values(ls, i, e),
        };
        let cur2 = add_entry(cur, ent);
        assert forall|p: int| 0 < p < cur2.entries.len() implies cur2.entries[p - 1].end <= (
        #[trigger] cur2.entries[p]).start by {
            if p < cur.entries.len() {
                assert(cur2.entries[p] == cur.entries[p] && cur2.entries[p - 1] == cur.entries[p - 1]);
            } else {
                assert(cur2.entries[p - 1] == cur.entries.last());
            }
        }
        lemma_scan_chain(ls, e, cur2, done);
        assert(scan(ls, i, cur, done) == scan(ls, e, cur2, done));
    } else {
        lemma_scan_chain(ls, i + 1, cur, done);
        assert(scan(ls, i, cur, done) == scan(ls, i + 1, cur, done));
    }
}

/// The sections of a parsed document chain through it: the unnamed preamble first, at
/// line 0; each later section's header on the line where the previous section ends and
/// its body from the next line; the last section ending at the last line; and within each
/// section the entries in order, each within the section's body.
pub proof fn law_parse_sections_chain(ls: Seq<Seq<char>>)
    ensures
        parse_sections(ls).len() > 0,
        chained(parse_sections(ls)),
        parse_sections(ls).last().end == ls.len(),
        forall|j: int|
            0 <= j < parse_sections(ls).len() ==> section_ok(ls.len() as int, #[trigger] parse_sections(ls)[j]),
{
    lemma_scan_keeps(ls, 0, preamble(), Seq::empty());
    lemma_scan_chain(ls, 0, preamble(), Seq::empty());
    lemma_parse_sections_ok(ls);
}

/// The line an entry starts on is a `key = value` line: it lies in the document, it is not
/// indented, it holds an `=`, and after its leading whitespace it neither is empty nor
/// starts a `#` or `;` comment.
pub open spec fn key_line_ok(ls: Seq<Seq<char>>, e: SpecEntry) -> bool {
    &&& 0 <= e.start < ls.len()
    &&& {
        let c = content(ls[e.start]);
        let t = trim_start(c);
        &&& t.len() > 0
        &&& t[0] != '#'
        &&& t[0] != ';'
        &&& c[0] != ' '
        &&& c[0] != '\t'
        &&& t.contains('=')
    }
}

pub open spec fn keys_ok(ls: Seq<Seq<char>>, s: SpecSection) -> bool {
    forall|k: int| 0 <= k < s.entries.len() ==> key_line_ok(ls, #[trigger] s.entries[k])
}

proof fn lemma_scan_keys(ls: Seq<Seq<char>>, i: int, cur: SpecSection, done: Seq<SpecSection>)
    requires
        0 <= i <= ls.len(),
        keys_ok(ls, cur),
        forall|j: int| 0 <= j < done.len() ==> keys_ok(ls, #[trigger] done[j]),
    ensures
        forall|j: int| 0 <= j < scan(ls, i, cur, done).len() ==> keys_ok(ls, #[trigger] scan(ls, i, cur, done)[j]),
    decreases ls.len() - i,
{
    let n = ls.len() as int;
    if i >= n {
        let d2 = done.push(close_section(cur, n));
        assert(scan(ls, i, cur, done) == d2);
        assert forall|j: int| 0 <= j < d2.len() implies keys_ok(ls, #[trigger] d2[j]) by {
            if j < done.len() {
                assert(d2[j] == done[j]);
            }
        }
    } else if header_name(ls[i]) is Some {
        let d2 = done.push(close_section(cur, i));
        assert forall|j: int| 0 <= j < d2.len() implies keys_ok(ls, #[trigger] d2[j]) by {
            if j < done.len() {
                assert(d2[j] == done[j]);
            }
        }
        let next = SpecSection {
            name: header_name(ls[i]).unwrap(),
            header_line: Some(i),
            start: i + 1,
            end: i + 1,
            entries: Seq::empty(),
        };
        lemma_scan_keys(ls, i + 1, next, d2);
        assert(scan(ls, i, cur, done) == scan(ls, i + 1, next, d2));
    } else if is_skip(ls[i]) {
        lemma_scan_keys(ls, i + 1, cur, done);
        assert(scan(ls, i, cur, done) == scan(ls, i + 1, cur, done));
    } else if entry_kv(ls[i]) is Some {
        let e = cont_end(ls, i + 1);
        lemma_cont_end_bounds(ls, i + 1);
        let ent = SpecEntry {
            name: entry_kv(ls[i]).unwrap().0,
            start: i,
            end: e,
            values: crate::ini::parse::entry_values(ls, i, e),
        };
        let t = trim_start(content(ls[i]));
        let k = crate::text::first_index(t, '=');
        crate::text::lemma_first_index_props(t, '=');
        assert(t[k] == '=');
        assert(key_line_ok(ls, ent));
        let cur2 = add_entry(cur, ent);
        assert forall|p: int| 0 <= p < cur2.entries.len() implies key_line_ok(ls, #[trigger] cur2.entries[p]) by {
            if p < cur.entries.len() {
                assert(cur2.entries[p] == cur.entries[p]);
            }
        }
        lemma_scan_keys(ls, e, cur2, done);
        assert(scan(ls, i, cur, done) == scan(ls, e, cur2, done));
    } else {
        lemma_scan_keys(ls, i + 1, cur, done);
        assert(scan(ls, i, cur, done) == scan(ls, i + 1, cur, done));
    }
}

/// Comments never become entries: in every section of a parsed document, each entry's key
/// line is a `key = value` line, never blank, indented, or a `#` or `;` comment.
pub proof fn law_comments_are_never_entries(ls: Seq<Seq<char>>)
    ensures
        forall|j: int, k: int|
            0 <= j < parse_sections(ls).len() && 0 <= k < parse_sections(ls)[j].entries.len() ==> key_line_ok(
                ls,
                #[trigger] parse_sections(ls)[j].entries[k],
            ),
{
    lemma_scan_keys(ls, 0, preamble(), Seq::empty());
    assert forall|j: int, k: int|
        0 <= j < parse_sections(ls).len() && 0 <= k < parse_sections(ls)[j].entries.len() implies key_line_ok(
        ls,
        #[trigger] parse_sections(ls)[j].entries[k],
    ) by {
        assert(keys_ok(ls, parse_sections(ls)[j]));
    }
}

} // verus!

//! Setting a new key and then removing it gives back the text it started from.
use crate::ini::laws::{section_ok, lemma_parse_sections_ok};
use crate::ini::patch::{apply_edit_spec, format_entry_lines_spec, lf, set_entry_spec, terminate_last, SpecEdit};
use crate::ini::parse::{
    content, detect_eol_spec, is_indented, add_entry, close_section, cont_end, entry_kv, entry_values, find_entry, find_section, header_name, is_cont,
    is_skip, lemma_cont_end_bounds, parse_sections, preamble, scan, SpecEntry, SpecSection,
};
use crate::text::{ends_with, lemma_split_keep_concat, lemma_split_keep_shape, concat, first_index, is_ws, lead_ws, lemma_first_index, strip_eol, trail_ws, trim, trim_start, lemma_concat_append, lemma_concat_single, lemma_split_keep_append, lemma_split_keep_one_line, split_keep};
use vstd::prelude::*;

verus! {

/// Lines as `split_keep` makes them from text ending in a line feed: each non-empty, with
/// its only line feed at its end.
pub open spec fn whole_lines(ls: Seq<Seq<char>>) -> bool {
    forall|i: int|
        0 <= i < ls.len() ==> (#[trigger] ls[i]).len() > 0 && ls[i].last() == '\n' && forall|j: int|
            0 <= j < ls[i].len() - 1 ==> ls[i][j] != '\n'
}

proof fn lemma_split_keep_of_whole_lines(ls: Seq<Seq<char>>)
    requires
        whole_lines(ls),
    ensures
        split_keep(concat(ls)) == ls,
    decreases ls.len(),
{
    if ls.len() > 0 {
        let rest = ls.drop_first();
        assert forall|i: int| 0 <= i < rest.len() implies (#[trigger] rest[i]).len() > 0 && rest[i].last() == '\n'
            && forall|j: int| 0 <= j < rest[i].len() - 1 ==> rest[i][j] != '\n' by {
            assert(rest[i] == ls[i + 1]);
        }
        lemma_split_keep_of_whole_lines(rest);
        assert(ls =~= seq![ls[0]] + rest);
        lemma_concat_append(seq![ls[0]], rest);
        lemma_concat_single(ls[0]);
        assert(ls[0].len() > 0 && ls[0].last() == '\n');
        lemma_split_keep_append(ls[0], concat(rest));
        lemma_split_keep_one_line(ls[0]);
    }
}

proof fn lemma_cont_end_le(ls: Seq<Seq<char>>, j: int, p: int)
    requires
        0 <= j <= p <= ls.len(),
        p == ls.len() || !is_cont(ls[p]),
    ensures
        cont_end(ls, j) <= p,
    decreases p - j,
{
    if j < p && is_cont(ls[j]) {
        lemma_cont_end_le(ls, j + 1, p);
    }
}

/// Two line lists that agree below `p`, where `p` is not a continuation line in either.
pub open spec fn agree_below(a: Seq<Seq<char>>, b: Seq<Seq<char>>, p: int) -> bool {
    &&& 0 <= p <= a.len()
    &&& p < b.len()
    &&& forall|j: int| 0 <= j < p ==> #[trigger] a[j] == b[j]
    &&& p == a.len() || !is_cont(a[p])
    &&& !is_cont(b[p])
}

proof fn lemma_cont_end_agree(a: Seq<Seq<char>>, b: Seq<Seq<char>>, j: int, p: int)
    requires
        agree_below(a, b, p),
        0 <= j <= p,
    ensures
        cont_end(a, j) == cont_end(b, j),
    decreases p - j,
{
    if j < p {
        assert(a[j] == b[j]);
        if is_cont(a[j]) {
            lemma_cont_end_agree(a, b, j + 1, p);
        }
    }
}

/// The scan's state when it first reaches line `p` (or passes the end).
pub open spec fn run_to(ls: Seq<Seq<char>>, i: int, cur: SpecSection, done: Seq<SpecSection>, p: int) -> (
    int,
    SpecSection,
    Seq<SpecSection>,
)
    decreases ls.len() - i,
{
    if i < 0 || i >= p || i >= ls.len() {
        (i, cur, done)
    } else if header_name(ls[i]) is Some {
        run_to(
            ls,
            i + 1,
            SpecSection {
                name: header_name(ls[i]).unwrap(),
                header_line: Some(i),
                start: i + 1,
                end: i + 1,
                entries: Seq::empty(),
            },
            done.push(close_section(cur, i)),
            p,
        )
    } else if is_skip(ls[i]) {
        run_to(ls, i + 1, cur, done, p)
    } else if entry_kv(ls[i]) is Some {
        let e = cont_end(ls, i + 1);
        proof {
            lemma_cont_end_bounds(ls, i + 1);
        }
        run_to(
            ls,
            e,
            add_entry(
                cur,
                SpecEntry { name: entry_kv(ls[i]).unwrap().0, start: i, end: e, values: entry_values(ls, i, e) },
            ),
            done,
            p,
        )
    } else {
        run_to(ls, i + 1, cur, done, p)
    }
}

/// Entries of closed sections end before line `i`; the open section's end by `i`.
pub open spec fn ends_before(cur: SpecSection, done: Seq<SpecSection>, i: int) -> bool {
    &&& forall|k: int, m: int|
        0 <= k < done.len() && 0 <= m < done[k].entries.len() ==> (#[trigger] done[k].entries[m]).end < i
    &&& forall|m: int| 0 <= m < cur.entries.len() ==> (#[trigger] cur.entries[m]).end <= i
}

proof fn lemma_run_to(ls: Seq<Seq<char>>, i: int, cur: SpecSection, done: Seq<SpecSection>, p: int)
    requires
        0 <= i <= p <= ls.len(),
        p == ls.len() || !is_cont(ls[p]),
        ends_before(cur, done, i),
    ensures
        run_to(ls, i, cur, done, p).0 == p,
        scan(ls, i, cur, done) == scan(
            ls,
            p,
            run_to(ls, i, cur, done, p).1,
            run_to(ls, i, cur, done, p).2,
        ),
        ends_before(run_to(ls, i, cur, done, p).1, run_to(ls, i, cur, done, p).2, p),
    decreases ls.len() - i,
{
    if i < p {
        if header_name(ls[i]) is Some {
            let closed = close_section(cur, i);
            let d2 = done.push(closed);
            let nxt = SpecSection {
                name: header_name(ls[i]).unwrap(),
                header_line: Some(i),
                start: i + 1,
                end: i + 1,
                entries: Seq::empty(),
            };
            assert forall|k: int, m: int| 0 <= k < d2.len() && 0 <= m < d2[k].entries.len() implies (
            #[trigger] d2[k].entries[m]).end < i + 1 by {
                if k < done.len() {
                    assert(d2[k] == done[k]);
                } else {
                    assert(d2[k] == closed);
                    assert(closed.entries[m] == cur.entries[m]);
                }
            }
            lemma_run_to(ls, i + 1, nxt, d2, p);
        } else if is_skip(ls[i]) {
            lemma_run_to(ls, i + 1, cur, done, p);
        } else if entry_kv(ls[i]) is Some {
            let e = cont_end(ls, i + 1);
            lemma_cont_end_bounds(ls, i + 1);
            lemma_cont_end_le(ls, i + 1, p);
            let ent = SpecEntry { name: entry_kv(ls[i]).unwrap().0, start: i, end: e, values: entry_values(ls, i, e) };
            let cur2 = add_entry(cur, ent);
            assert forall|m: int| 0 <= m < cur2.entries.len() implies (#[trigger] cur2.entries[m]).end <= e by {
                if m < cur.entries.len() {
                    assert(cur2.entries[m] == cur.entries[m]);
                }
            }
            lemma_run_to(ls, e, cur2, done, p);
        } else {
            lemma_run_to(ls, i + 1, cur, done, p);
        }
    }
}

proof fn lemma_run_to_agree(a: Seq<Seq<char>>, b: Seq<Seq<char>>, i: int, cur: SpecSection, done: Seq<SpecSection>, p: int)
    requires
        agree_below(a, b, p),
        0 <= i <= p,
    ensures
        run_to(a, i, cur, done, p) == run_to(b, i, cur, done, p),
    decreases a.len() - i,
{
    if i < p {
        assert(a[i] == b[i]);
        if header_name(a[i]) is Some {
            lemma_run_to_agree(
                a,
                b,
                i + 1,
                SpecSection {
                    name: header_name(a[i]).unwrap(),
                    header_line: Some(i),
                    start: i + 1,
                    end: i + 1,
                    entries: Seq::empty(),
                },
                done.push(close_section(cur, i)),
                p,
            );
        } else if is_skip(a[i]) {
            lemma_run_to_agree(a, b, i + 1, cur, done, p);
        } else if entry_kv(a[i]) is Some {
            let e = cont_end(a, i + 1);
            lemma_cont_end_bounds(a, i + 1);
            lemma_cont_end_le(a, i + 1, p);
            lemma_cont_end_agree(a, b, i + 1, p);
            assert forall|j: int| i <= j < e implies #[trigger] a[j] == b[j] by {}
            assert(entry_values(a, i, e) == entry_values(b, i, e)) by {
                assert(a.subrange(i, e) =~= b.subrange(i, e));
            }
            lemma_run_to_agree(
                a,
                b,
                e,
                add_entry(
                    cur,
                    SpecEntry { name: entry_kv(a[i]).unwrap().0, start: i, end: e, values: entry_values(a, i, e) },
                ),
                done,
                p,
            );
        } else {
            lemma_run_to_agree(a, b, i + 1, cur, done, p);
        }
    }
}


/// What the rest of a scan keeps of its state: the closed sections, the open section's
/// name and entries (as a prefix), and that everything added later starts at `i` or after.
proof fn lemma_scan_tail(ls: Seq<Seq<char>>, i: int, cur: SpecSection, done: Seq<SpecSection>)
    requires
        0 <= i,
    ensures
        ({
            let r = scan(ls, i, cur, done);
            let d = done.len() as int;
            &&& r.len() > d
            &&& forall|k: int| 0 <= k < d ==> #[trigger] r[k] == done[k]
            &&& r[d].name == cur.name
            &&& r[d].entries.len() >= cur.entries.len()
            &&& forall|m: int| 0 <= m < cur.entries.len() ==> #[trigger] r[d].entries[m] == cur.entries[m]
            &&& forall|m: int| cur.entries.len() <= m < r[d].entries.len() ==> (#[trigger] r[d].entries[m]).start >= i
            &&& forall|k: int, m: int|
                d < k < r.len() && 0 <= m < r[k].entries.len() ==> (#[trigger] r[k].entries[m]).start >= i
        }),
    decreases ls.len() - i,
{
    let d = done.len() as int;
    if i >= ls.len() {
        let r = scan(ls, i, cur, done);
        assert(r == done.push(close_section(cur, ls.len() as int)));
        assert(r[d] == close_section(cur, ls.len() as int));
    } else if header_name(ls[i]) is Some {
        let closed = close_section(cur, i);
        let d2 = done.push(closed);
        let nxt = SpecSection {
            name: header_name(ls[i]).unwrap(),
            header_line: Some(i),
            start: i + 1,
            end: i + 1,
            entries: Seq::empty(),
        };
        lemma_scan_tail(ls, i + 1, nxt, d2);
        let r = scan(ls, i + 1, nxt, d2);
        assert(scan(ls, i, cur, done) == r);
        assert(r[d] == d2[d]);
        assert(d2[d] == closed);
        assert forall|k: int| 0 <= k < d implies #[trigger] r[k] == done[k] by {
            assert(r[k] == d2[k]);
        }
    } else if is_skip(ls[i]) {
        lemma_scan_tail(ls, i + 1, cur, done);
        assert(scan(ls, i, cur, done) == scan(ls, i + 1, cur, done));
    } else if entry_kv(ls[i]) is Some {
        let e = cont_end(ls, i + 1);
        lemma_cont_end_bounds(ls, i + 1);
        let ent = SpecEntry { name: entry_kv(ls[i]).unwrap().0, start: i, end: e, values: entry_values(ls, i, e) };
        let cur2 = add_entry(cur, ent);
        lemma_scan_tail(ls, e, cur2, done);
        let r = scan(ls, e, cur2, done);
        assert(scan(ls, i, cur, done) == r);
        assert forall|m: int| 0 <= m < cur.entries.len() implies #[trigger] r[d].entries[m] == cur.entries[m] by {
            assert(r[d].entries[m] == cur2.entries[m]);
            assert(cur2.entries[m] == cur.entries[m]);
        }
        assert forall|m: int| cur.entries.len() <= m < r[d].entries.len() implies (#[trigger] r[d].entries[m]).start >= i by {
            if m == cur.entries.len() {
                assert(r[d].entries[m] == cur2.entries[m]);
            }
        }
    } else {
        lemma_scan_tail(ls, i + 1, cur, done);
        assert(scan(ls, i, cur, done) == scan(ls, i + 1, cur, done));
    }
}

/// Every entry a scan records ends where its continuation lines end.
pub open spec fn ends_at_cont_end(ls: Seq<Seq<char>>, e: SpecEntry) -> bool {
    e.end == cont_end(ls, e.start + 1) && 0 <= e.start
}

proof fn lemma_scan_entries_end_at_cont_end(ls: Seq<Seq<char>>, i: int, cur: SpecSection, done: Seq<SpecSection>)
    requires
        0 <= i,
        forall|k: int, m: int|
            0 <= k < done.len() && 0 <= m < done[k].entries.len() ==> ends_at_cont_end(ls, #[trigger] done[k].entries[m]),
        forall|m: int| 0 <= m < cur.entries.len() ==> ends_at_cont_end(ls, #[trigger] cur.entries[m]),
    ensures
        forall|k: int, m: int|
            0 <= k < scan(ls, i, cur, done).len() && 0 <= m < scan(ls, i, cur, done)[k].entries.len() ==> ends_at_cont_end(
                ls,
                #[trigger] scan(ls, i, cur, done)[k].entries[m],
            ),
    decreases ls.len() - i,
{
    if i >= ls.len() {
        let closed = close_section(cur, ls.len() as int);
        let r = done.push(closed);
        assert(scan(ls, i, cur, done) == r);
        assert forall|k: int, m: int| 0 <= k < r.len() && 0 <= m < r[k].entries.len() implies ends_at_cont_end(
            ls,
            #[trigger] r[k].entries[m],
        ) by {
            if k < done.len() {
                assert(r[k] == done[k]);
            } else {
                assert(r[k].entries[m] == cur.entries[m]);
            }
        }
    } else if header_name(ls[i]) is Some {
        let closed = close_section(cur, i);
        let d2 = done.push(closed);
        let nxt = SpecSection {
            name: header_name(ls[i]).unwrap(),
            header_line: Some(i),
            start: i + 1,
            end: i + 1,
            entries: Seq::empty(),
        };
        assert forall|k: int, m: int| 0 <= k < d2.len() && 0 <= m < d2[k].entries.len() implies ends_at_cont_end(
            ls,
            #[trigger] d2[k].entries[m],
        ) by {
            if k < done.len() {
                assert(d2[k] == done[k]);
            } else {
                assert(d2[k].entries[m] == cur.entries[m]);
            }
        }
        lemma_scan_entries_end_at_cont_end(ls, i + 1, nxt, d2);
        assert(scan(ls, i, cur, done) == scan(ls, i + 1, nxt, d2));
    } else if is_skip(ls[i]) {
        lemma_scan_entries_end_at_cont_end(ls, i + 1, cur, done);
        assert(scan(ls, i, cur, done) == scan(ls, i + 1, cur, done));
    } else if entry_kv(ls[i]) is Some {
        let e = cont_end(ls, i + 1);
        lemma_cont_end_bounds(ls, i + 1);
        let ent = SpecEntry { name: entry_kv(ls[i]).unwrap().0, start: i, end: e, values: entry_values(ls, i, e) };
        let cur2 = add_entry(cur, ent);
        assert forall|m: int| 0 <= m < cur2.entries.len() implies ends_at_cont_end(ls, #[trigger] cur2.entries[m]) by {
            if m < cur.entries.len() {
                assert(cur2.entries[m] == cur.entries[m]);
            }
        }
        lemma_scan_entries_end_at_cont_end(ls, e, cur2, done);
        assert(scan(ls, i, cur, done) == scan(ls, e, cur2, done));
    } else {
        lemma_scan_entries_end_at_cont_end(ls, i + 1, cur, done);
        assert(scan(ls, i, cur, done) == scan(ls, i + 1, cur, done));
    }
}

proof fn lemma_find_section_is_first(secs: Seq<SpecSection>, name: Seq<char>)
    ensures
        find_section(secs, name) >= 0 ==> find_section(secs, name) < secs.len() && secs[find_section(secs, name)].name
            == name && forall|j: int| 0 <= j < find_section(secs, name) ==> (#[trigger] secs[j]).name != name,
        find_section(secs, name) < 0 ==> forall|j: int| 0 <= j < secs.len() ==> (#[trigger] secs[j]).name != name,
    decreases secs.len(),
{
    if secs.len() > 0 {
        let t = secs.drop_last();
        lemma_find_section_is_first(t, name);
        let r = find_section(t, name);
        if r >= 0 {
            assert(find_section(secs, name) == r);
            assert(t[r] == secs[r]);
            assert forall|j: int| 0 <= j < r implies (#[trigger] secs[j]).name != name by {
                assert(t[j] == secs[j]);
            }
        } else if secs.last().name == name {
            assert(find_section(secs, name) == secs.len() - 1);
            assert forall|j: int| 0 <= j < secs.len() - 1 implies (#[trigger] secs[j]).name != name by {
                assert(t[j] == secs[j]);
            }
        } else {
            assert(find_section(secs, name) == -1);
            assert forall|j: int| 0 <= j < secs.len() implies (#[trigger] secs[j]).name != name by {
                if j < secs.len() - 1 {
                    assert(t[j] == secs[j]);
                }
            }
        }
    }
}

proof fn lemma_find_section_first(secs: Seq<SpecSection>, name: Seq<char>, d: int)
    requires
        0 <= d < secs.len(),
        secs[d].name == name,
        forall|j: int| 0 <= j < d ==> (#[trigger] secs[j]).name != name,
    ensures
        find_section(secs, name) == d,
{
    lemma_find_section_is_first(secs, name);
    let r = find_section(secs, name);
    if r < 0 {
        assert(secs[d].name != name);
    } else if r < d {
        assert(secs[r].name != name);
    } else if r > d {
        assert(secs[d].name != name);
    }
}

proof fn lemma_find_entry_is_first(es: Seq<SpecEntry>, name: Seq<char>)
    ensures
        find_entry(es, name) >= 0 ==> find_entry(es, name) < es.len() && es[find_entry(es, name)].name == name
            && forall|j: int| 0 <= j < find_entry(es, name) ==> (#[trigger] es[j]).name != name,
        find_entry(es, name) < 0 ==> forall|j: int| 0 <= j < es.len() ==> (#[trigger] es[j]).name != name,
    decreases es.len(),
{
    if es.len() > 0 {
        let t = es.drop_last();
        lemma_find_entry_is_first(t, name);
        let r = find_entry(t, name);
        if r >= 0 {
            assert(find_entry(es, name) == r);
            assert(t[r] == es[r]);
            assert forall|j: int| 0 <= j < r implies (#[trigger] es[j]).name != name by {
                assert(t[j] == es[j]);
            }
        } else if es.last().name == name {
            assert(find_entry(es, name) == es.len() - 1);
            assert forall|j: int| 0 <= j < es.len() - 1 implies (#[trigger] es[j]).name != name by {
                assert(t[j] == es[j]);
            }
        } else {
            assert(find_entry(es, name) == -1);
            assert forall|j: int| 0 <= j < es.len() implies (#[trigger] es[j]).name != name by {
                if j < es.len() - 1 {
                    assert(t[j] == es[j]);
                }
            }
        }
    }
}

proof fn lemma_find_entry_first(es: Seq<SpecEntry>, name: Seq<char>, d: int)
    requires
        0 <= d < es.len(),
        es[d].name == name,
        forall|j: int| 0 <= j < d ==> (#[trigger] es[j]).name != name,
    ensures
        find_entry(es, name) == d,
{
    lemma_find_entry_is_first(es, name);
    let r = find_entry(es, name);
    if r < 0 {
        assert(es[d].name != name);
    } else if r < d {
        assert(es[r].name != name);
    } else if r > d {
        assert(es[d].name != name);
    }
}

/// A key that a `key = value` line written for it reads back as: non-empty, without
/// surrounding whitespace, without `=` or line breaks, and not starting like a section
/// header or a comment.
pub open spec fn plain_key(k: Seq<char>) -> bool {
    &&& k.len() > 0
    &&& !is_ws(k[0]) && !is_ws(k[k.len() - 1])
    &&& forall|i: int| 0 <= i < k.len() ==> #[trigger] k[i] != '=' && k[i] != '\n' && k[i] != '\r'
    &&& k[0] != '[' && k[0] != ';' && k[0] != '#'
}

/// A value without line breaks.
pub open spec fn plain_value(v: Seq<char>) -> bool {
    forall|i: int| 0 <= i < v.len() ==> #[trigger] v[i] != '\n' && v[i] != '\r'
}

pub open spec fn key_line(k: Seq<char>, v: Seq<char>, eol: Seq<char>) -> Seq<char> {
    k + seq![' ', '=', ' '] + v + eol
}

proof fn lemma_key_line(k: Seq<char>, v: Seq<char>, eol: Seq<char>)
    requires
        plain_key(k),
        plain_value(v),
        eol == seq!['\n'] || eol == seq!['\r', '\n'],
    ensures
        ({
            let l = key_line(k, v, eol);
            &&& l.len() > 0 && l.last() == '\n'
            &&& forall|j: int| 0 <= j < l.len() - 1 ==> l[j] != '\n'
            &&& header_name(l) is None
            &&& !is_skip(l)
            &&& !is_cont(l)
            &&& entry_kv(l) is Some && entry_kv(l).unwrap().0 == k
        }),
{
    let l = key_line(k, v, eol);
    let c = k + seq![' ', '=', ' '] + v;
    let n = k.len() as int;
    assert(l == c + eol);
    assert forall|j: int| 0 <= j < c.len() implies c[j] != '\n' && c[j] != '\r' by {
        if j < n {
            assert(c[j] == k[j]);
        } else if j >= n + 3 {
            assert(c[j] == v[j - n - 3]);
        }
    }
    if eol == seq!['\r', '\n'] {
        assert(l[l.len() - 2] == '\r');
        assert(strip_eol(l) == l.take(l.len() - 2));
        assert(l.take(l.len() - 2) =~= c);
    } else {
        assert(l[l.len() - 2] == c[c.len() - 1]);
        assert(strip_eol(l) == l.take(l.len() - 1));
        assert(l.take(l.len() - 1) =~= c);
    }
    assert(content(l) == c);
    assert(c[0] == k[0]);
    assert(lead_ws(c) == 0);
    assert(c.skip(0) =~= c);
    assert(trim_start(c) == c);
    assert(is_ws(' '));
    assert(!is_indented(c));
    assert forall|j: int| 0 <= j < n + 1 implies c[j] != '=' by {
        if j < n {
            assert(c[j] == k[j]);
        }
    }
    lemma_first_index(c, '=', n + 1);
    assert(first_index(c, '=') == n + 1);
    let kk = c.take(n + 1);
    assert(kk =~= k.push(' '));
    assert(kk[0] == k[0]);
    assert(lead_ws(kk) == 0);
    assert(kk.skip(0) =~= kk);
    assert(kk.drop_last() =~= k);
    assert(trail_ws(k) == 0);
    assert(trail_ws(kk) == 1);
    assert(trim(kk) =~= k);
    assert forall|j: int| 0 <= j < l.len() - 1 implies l[j] != '\n' by {
        if j < c.len() {
            assert(l[j] == c[j]);
        } else {
            assert(l[j] == eol[j - c.len()]);
        }
    }
}

/// A set of a key that its section does not have yet, followed by the removal of that key,
/// gives back the text byte for byte: in a file ending in a line feed, whose section
/// already has entries, for a key and a single value that read back as written.
#[verifier::rlimit(40)]
pub proof fn law_set_then_remove_restores_the_text(raw: Seq<char>, section: Seq<char>, key: Seq<char>, value: Seq<char>)
    requires
        raw.len() > 0 && raw.last() == '\n',
        find_section(parse_sections(split_keep(raw)), section) >= 0,
        parse_sections(split_keep(raw))[find_section(parse_sections(split_keep(raw)), section)].entries.len() > 0,
        find_entry(
            parse_sections(split_keep(raw))[find_section(parse_sections(split_keep(raw)), section)].entries,
            key,
        ) == -1,
        plain_key(key),
        plain_value(value),
    ensures
        apply_edit_spec(
            apply_edit_spec(raw, SpecEdit::SetValue { section, name: key, values: seq![value] }),
            SpecEdit::Remove { section, name: key },
        ) == raw,
{
    let ls = split_keep(raw);
    let n = ls.len() as int;
    let secs = parse_sections(ls);
    let si = find_section(secs, section);
    let sec = secs[si];
    let x = sec.entries.last();
    let p = x.end;
    // The lines of the text.
    lemma_split_keep_shape(raw);
    lemma_split_keep_concat(raw);
    assert(ls =~= ls.drop_last().push(ls.last()));
    lemma_concat_append(ls.drop_last(), seq![ls.last()]);
    lemma_concat_single(ls.last());
    assert(raw == concat(ls.drop_last()) + ls.last());
    assert(ls.last().last() == raw.last());
    assert(whole_lines(ls)) by {
        assert forall|i: int| 0 <= i < ls.len() implies (#[trigger] ls[i]).len() > 0 && ls[i].last() == '\n'
            && forall|j: int| 0 <= j < ls[i].len() - 1 ==> ls[i][j] != '\n' by {
            if i == ls.len() - 1 {
                assert(ls[i] == ls.last());
            }
        }
    }
    // Where the section's last entry ends.
    crate::ini::parse::lemma_find_section_props(secs, section);
    lemma_parse_sections_ok(ls);
    assert(section_ok(n, sec));
    assert(sec.entries[sec.entries.len() - 1] == x);
    lemma_scan_entries_end_at_cont_end(ls, 0, preamble(), Seq::empty());
    assert(ends_at_cont_end(ls, secs[si].entries[sec.entries.len() - 1]));
    lemma_cont_end_bounds(ls, x.start + 1);
    assert(0 <= p <= n);
    // The scan reaches `p` with the section open.
    lemma_run_to(ls, 0, preamble(), Seq::empty(), p);
    let st = run_to(ls, 0, preamble(), Seq::empty(), p);
    let cur_p = st.1;
    let done_p = st.2;
    let d = done_p.len() as int;
    assert(secs == scan(ls, p, cur_p, done_p));
    lemma_scan_tail(ls, p, cur_p, done_p);
    if si < d {
        assert(secs[si] == done_p[si]);
        assert(done_p[si].entries[sec.entries.len() - 1].end < p);
    } else if si > d {
        assert(secs[si].entries[sec.entries.len() - 1].start >= p);
    }
    assert(si == d);
    // The text after the set.
    let eol = detect_eol_spec(ls);
    assert(eol == seq!['\n'] || eol == seq!['\r', '\n']);
    let l = key_line(key, value, eol);
    lemma_key_line(key, value, eol);
    assert(format_entry_lines_spec(key, seq![value], eol) =~= seq![l]);
    if p == n {
        assert(ends_with(ls.last(), lf())) by {
            assert(ls.last().skip(ls.last().len() - 1) =~= seq!['\n']);
        }
        assert(terminate_last(ls, eol) == ls);
    }
    let ls2 = ls.take(p) + seq![l] + ls.skip(p);
    let raw2 = concat(ls2);
    assert(set_entry_spec(raw, section, key, seq![value]) == raw2);
    assert(whole_lines(ls2)) by {
        assert forall|i: int| 0 <= i < ls2.len() implies (#[trigger] ls2[i]).len() > 0 && ls2[i].last() == '\n'
            && forall|j: int| 0 <= j < ls2[i].len() - 1 ==> ls2[i][j] != '\n' by {
            if i < p {
                assert(ls2[i] == ls[i]);
            } else if i == p {
                assert(ls2[i] == l);
            } else {
                assert(ls2[i] == ls[i - 1]);
            }
        }
    }
    lemma_split_keep_of_whole_lines(ls2);
    // The text after the set scans like the text up to `p`.
    assert(ls2[p] == l);
    assert(agree_below(ls, ls2, p)) by {
        assert forall|j: int| 0 <= j < p implies #[trigger] ls[j] == ls2[j] by {}
    }
    lemma_run_to_agree(ls, ls2, 0, preamble(), Seq::empty(), p);
    lemma_run_to(ls2, 0, preamble(), Seq::empty(), p);
    let secs2 = parse_sections(ls2);
    assert(secs2 == scan(ls2, p, cur_p, done_p));
    // At `p` the new line is the new entry.
    if p + 1 < ls2.len() {
        assert(ls2[p + 1] == ls[p]);
    }
    assert(cont_end(ls2, p + 1) == p + 1);
    let ent = SpecEntry { name: key, start: p, end: p + 1, values: entry_values(ls2, p, p + 1) };
    let cur2 = add_entry(cur_p, ent);
    assert(secs2 == scan(ls2, p + 1, cur2, done_p));
    lemma_scan_tail(ls2, p + 1, cur2, done_p);
    // The removal finds that entry.
    lemma_find_section_is_first(secs, section);
    assert forall|j: int| 0 <= j < d implies (#[trigger] secs2[j]).name != section by {
        assert(secs2[j] == done_p[j]);
        assert(secs[j] == done_p[j]);
    }
    lemma_find_section_first(secs2, section, d);
    let c = cur_p.entries.len() as int;
    lemma_find_entry_is_first(secs[d].entries, key);
    assert forall|j: int| 0 <= j < c implies (#[trigger] secs2[d].entries[j]).name != key by {
        assert(secs2[d].entries[j] == cur2.entries[j]);
        assert(cur2.entries[j] == cur_p.entries[j]);
        assert(secs[d].entries[j] == cur_p.entries[j]);
    }
    assert(secs2[d].entries[c] == cur2.entries[c]);
    assert(cur2.entries[c] == ent);
    lemma_find_entry_first(secs2[d].entries, key, c);
    assert(ls2.take(p) + ls2.skip(p + 1) =~= ls);
}
} // verus!

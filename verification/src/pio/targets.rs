//! `pio run --list-targets`: a fixed-width table, whose dashed separator row gives the
//! byte ranges of its columns. Every data row is cut at those ranges.
use crate::text::{
    char_utf8_len, char_utf8_len_exec, lemma_utf8_len_split, lines_chars, lines_of, str_chars, string_from_chars,
    sub_chars, trim, trim_chars, utf8_len,
};
use crate::textops::{find_header, header_index};
use vstd::prelude::*;

verus! {

/// The targets every platform offers, shown before a workspace's own list is known.
pub const UNIVERSAL_TARGETS: [&'static str; 6] = ["build", "upload", "clean", "fullclean", "size", "monitor"];

#[derive(Debug, Clone, PartialEq, Eq)]
pub struct TargetInfo {
    pub name: String,
    pub title: String,
    pub description: Option<String>,
}

/// The byte ranges `[start, end)` of the runs of `-` in `s` from character `i` on, where
/// `off` is the byte offset of character `i` and `start` that of the current run, if one
/// is open.
pub open spec fn dash_runs(s: Seq<char>, i: int, off: nat, start: Option<nat>) -> Seq<(nat, nat)>
    decreases s.len() - i,
{
    if i < 0 || i >= s.len() {
        match start {
            Some(st) => seq![(st, off)],
            None => Seq::empty(),
        }
    } else if s[i] == '-' {
        dash_runs(s, i + 1, off + char_utf8_len(s[i]), if start is None { Some(off) } else { start })
    } else {
        match start {
            Some(st) => seq![(st, off)] + dash_runs(s, i + 1, off + char_utf8_len(s[i]), None),
            None => dash_runs(s, i + 1, off + char_utf8_len(s[i]), None),
        }
    }
}

/// The column bounds a separator row gives.
pub open spec fn column_bounds_spec(sep: Seq<char>) -> Seq<(nat, nat)> {
    dash_runs(sep, 0, 0, None)
}

/// The character index at which byte offset `p` falls on a character boundary, searching
/// from character `k`; `None` inside a character or past the end.
pub open spec fn char_at_byte(s: Seq<char>, p: nat, k: int) -> Option<int>
    decreases s.len() + 1 - k,
{
    if k < 0 || k > s.len() {
        None
    } else if utf8_len(s.take(k)) == p {
        Some(k)
    } else if utf8_len(s.take(k)) > p {
        None
    } else {
        char_at_byte(s, p, k + 1)
    }
}

/// Column `idx` of a row, trimmed: empty when the row ends before the column, cut at the
/// row's end when it ends inside it, and nothing when the column does not exist or a bound
/// falls inside a character.
pub open spec fn slice_col_spec(line: Seq<char>, bounds: Seq<(nat, nat)>, idx: int) -> Option<Seq<char>> {
    if idx < 0 || idx >= bounds.len() {
        None
    } else {
        let (start, end) = bounds[idx];
        let total = utf8_len(line);
        if start >= total {
            Some(Seq::empty())
        } else {
            let e = if end < total { end } else { total };
            match (char_at_byte(line, start, 0), char_at_byte(line, e, 0)) {
                (Some(a), Some(b)) => if a <= b {
                    Some(trim(line.subrange(a, b)))
                } else {
                    None
                },
                _ => None,
            }
        }
    }
}

/// A target: name, title, description.
pub type TargetModel = (Seq<char>, Seq<char>, Option<Seq<char>>);

pub open spec fn target_model(t: TargetInfo) -> TargetModel {
    (t.name@, t.title@, crate::matching::opt_view(t.description))
}

/// The target of a data row: its name (third column, required and non-empty), title
/// (fourth, empty when missing) and description (fifth, only when non-empty).
pub open spec fn row_target(row: Seq<char>, bounds: Seq<(nat, nat)>) -> Option<TargetModel> {
    if trim(row).len() == 0 {
        None
    } else {
        match slice_col_spec(row, bounds, 2) {
            None => None,
            Some(name) => if name.len() == 0 {
                None
            } else {
                let title = match slice_col_spec(row, bounds, 3) {
                    Some(t) => t,
                    None => Seq::empty(),
                };
                let desc = match slice_col_spec(row, bounds, 4) {
                    Some(d) => if d.len() > 0 { Some(d) } else { None },
                    None => None,
                };
                Some((name, title, desc))
            },
        }
    }
}

pub open spec fn row_targets(rows: Seq<Seq<char>>, bounds: Seq<(nat, nat)>) -> Seq<TargetModel>
    decreases rows.len(),
{
    if rows.len() == 0 {
        Seq::empty()
    } else {
        match row_target(rows.last(), bounds) {
            Some(t) => row_targets(rows.drop_last(), bounds).push(t),
            None => row_targets(rows.drop_last(), bounds),
        }
    }
}

/// The targets of the table after the `Environment` header row and its separator; with
/// no header, no separator, or fewer than three columns, there are none.
pub open spec fn list_targets_spec(text: Seq<char>) -> Seq<TargetModel> {
    let lines = lines_of(text);
    let h = header_index(lines, "Environment"@, 0);
    if h < 0 || h + 1 >= lines.len() {
        Seq::empty()
    } else {
        let bounds = column_bounds_spec(lines[h + 1]);
        if bounds.len() < 3 {
            Seq::empty()
        } else {
            row_targets(lines.skip(h + 2), bounds)
        }
    }
}

fn column_bounds(sep: &[char]) -> (r: Vec<(u128, u128)>)
    ensures
        r@.map_values(|b: (u128, u128)| (b.0 as nat, b.1 as nat)) == column_bounds_spec(sep@),
{
    let mut out: Vec<(u128, u128)> = Vec::new();
    let mut start: Option<u128> = None;
    let mut off: u128 = 0;
    let mut i: usize = 0;
    proof {
        crate::text::lemma_utf8_len_bounds(sep@);
    }
    while i < sep.len()
        invariant
            i <= sep@.len(),
            off as nat == utf8_len(sep@.take(i as int)),
            utf8_len(sep@) <= 4 * sep@.len(),
            sep@.len() == sep.len(),
            match start {
                Some(s) => s <= off,
                None => true,
            },
            out@.map_values(|b: (u128, u128)| (b.0 as nat, b.1 as nat)) + dash_runs(
                sep@,
                i as int,
                off as nat,
                match start {
                    Some(s) => Some(s as nat),
                    None => None,
                },
            ) == column_bounds_spec(sep@),
        decreases sep@.len() - i,
    {
        proof {
            assert(sep@.take(i + 1).drop_last() =~= sep@.take(i as int));
            lemma_utf8_len_split(sep@, i + 1);
        }
        let c = sep[i];
        let n = char_utf8_len_exec(c) as u128;
        let ghost o0 = out@.map_values(|b: (u128, u128)| (b.0 as nat, b.1 as nat));
        if c == '-' {
            if start.is_none() {
                start = Some(off);
            }
        } else {
            match start {
                Some(s) => {
                    out.push((s, off));
                    assert(out@.map_values(|b: (u128, u128)| (b.0 as nat, b.1 as nat)) =~= o0 + seq![(s as nat, off as nat)]);
                    start = None;
                },
                None => {},
            }
        }
        off = off + n;
        i += 1;
    }
    assert(sep@.take(sep@.len() as int) =~= sep@);
    match start {
        Some(s) => {
            let ghost o0 = out@.map_values(|b: (u128, u128)| (b.0 as nat, b.1 as nat));
            out.push((s, off));
            assert(out@.map_values(|b: (u128, u128)| (b.0 as nat, b.1 as nat)) =~= o0 + seq![(s as nat, off as nat)]);
        },
        None => {
            assert(out@.map_values(|b: (u128, u128)| (b.0 as nat, b.1 as nat)) + Seq::<(nat, nat)>::empty()
                =~= out@.map_values(|b: (u128, u128)| (b.0 as nat, b.1 as nat)));
        },
    }
    out
}

proof fn lemma_take_len_mono(s: Seq<char>, a: int, b: int)
    requires
        0 <= a <= b <= s.len(),
    ensures
        utf8_len(s.take(a)) <= utf8_len(s.take(b)),
    decreases b - a,
{
    if a < b {
        lemma_take_len_mono(s, a, b - 1);
        assert(s.take(b).drop_last() =~= s.take(b - 1));
    }
}

/// The character index of byte offset `p`, as `char_at_byte` gives it.
fn char_index_of_byte(line: &[char], p: u128) -> (r: Option<usize>)
    ensures
        match r {
            Some(k) => char_at_byte(line@, p as nat, 0) == Some(k as int) && k <= line@.len(),
            None => char_at_byte(line@, p as nat, 0) is None,
        },
{
    let mut acc: u128 = 0;
    let mut k: usize = 0;
    proof {
        crate::text::lemma_utf8_len_bounds(line@);
        assert(line@.take(0) =~= Seq::<char>::empty());
    }
    loop
        invariant
            k <= line@.len(),
            line@.len() == line.len(),
            acc as nat == utf8_len(line@.take(k as int)),
            utf8_len(line@) <= 4 * line@.len(),
            char_at_byte(line@, p as nat, 0) == char_at_byte(line@, p as nat, k as int),
        decreases line@.len() - k,
    {
        if acc == p {
            return Some(k);
        }
        if acc > p {
            return None;
        }
        if k == line.len() {
            assert(char_at_byte(line@, p as nat, k + 1) is None);
            return None;
        }
        proof {
            assert(line@.take(k + 1).drop_last() =~= line@.take(k as int));
            lemma_take_len_mono(line@, k + 1, line@.len() as int);
            assert(line@.take(line@.len() as int) =~= line@);
        }
        acc = acc + char_utf8_len_exec(line[k]) as u128;
        k += 1;
    }
}

fn slice_col(line: &[char], total: u128, bounds: &Vec<(u128, u128)>, idx: usize) -> (r: Option<Vec<char>>)
    requires
        total as nat == utf8_len(line@),
    ensures
        match r {
            Some(v) => slice_col_spec(line@, bounds@.map_values(|b: (u128, u128)| (b.0 as nat, b.1 as nat)), idx as int) == Some(v@),
            None => slice_col_spec(line@, bounds@.map_values(|b: (u128, u128)| (b.0 as nat, b.1 as nat)), idx as int) is None,
        },
{
    let ghost bs = bounds@.map_values(|b: (u128, u128)| (b.0 as nat, b.1 as nat));
    if idx >= bounds.len() {
        return None;
    }
    let (start, end) = bounds[idx];
    assert(bs[idx as int] == (start as nat, end as nat));
    if start >= total {
        return Some(Vec::new());
    }
    let e = if end < total { end } else { total };
    match (char_index_of_byte(line, start), char_index_of_byte(line, e)) {
        (Some(a), Some(b)) => {
            if a <= b {
                let piece = sub_chars(line, a, b);
                Some(trim_chars(piece.as_slice()))
            } else {
                None
            }
        },
        _ => None,
    }
}

fn byte_len(line: &[char]) -> (r: u128)
    ensures
        r as nat == utf8_len(line@),
{
    let mut acc: u128 = 0;
    let mut k: usize = 0;
    proof {
        crate::text::lemma_utf8_len_bounds(line@);
    }
    while k < line.len()
        invariant
            k <= line@.len(),
            line@.len() == line.len(),
            acc as nat == utf8_len(line@.take(k as int)),
            utf8_len(line@) <= 4 * line@.len(),
        decreases line@.len() - k,
    {
        proof {
            assert(line@.take(k + 1).drop_last() =~= line@.take(k as int));
            lemma_take_len_mono(line@, k + 1, line@.len() as int);
            assert(line@.take(line@.len() as int) =~= line@);
        }
        acc = acc + char_utf8_len_exec(line[k]) as u128;
        k += 1;
    }
    assert(line@.take(line@.len() as int) =~= line@);
    acc
}

/// The target of one data row, cut at the given column bounds.
fn target_of_row(row: &[char], bounds: &Vec<(u128, u128)>) -> (r: Option<TargetInfo>)
    ensures
        match r {
            Some(t) => row_target(row@, bounds@.map_values(|b: (u128, u128)| (b.0 as nat, b.1 as nat))) == Some(target_model(t)),
            None => row_target(row@, bounds@.map_values(|b: (u128, u128)| (b.0 as nat, b.1 as nat))) is None,
        },
{
    let t = trim_chars(row);
    if t.len() == 0 {
        return None;
    }
    let total = byte_len(row);
    let name = match slice_col(row, total, bounds, 2) {
        Some(n) => n,
        None => {
            return None;
        },
    };
    if name.len() == 0 {
        return None;
    }
    let title = match slice_col(row, total, bounds, 3) {
        Some(t) => t,
        None => Vec::new(),
    };
    let description = match slice_col(row, total, bounds, 4) {
        Some(d) => if d.len() > 0 {
            Some(string_from_chars(d.as_slice()))
        } else {
            None
        },
        None => None,
    };
    Some(TargetInfo { name: string_from_chars(name.as_slice()), title: string_from_chars(title.as_slice()), description })
}

/// The targets of `pio run --list-targets`, in table order; text without the table gives
/// none.
pub fn parse_list_targets(text: &str) -> (r: Vec<TargetInfo>)
    ensures
        r@.map_values(|t: TargetInfo| target_model(t)) == list_targets_spec(text@),
{
    let lines = lines_chars(text);
    let ghost ls = lines_of(text@);
    proof {
        assert(lines@.map_values(|l: Vec<char>| l@).len() == lines@.len());
    }
    let h = find_header(&lines, "Environment");
    let mut out: Vec<TargetInfo> = Vec::new();
    if h >= lines.len() || lines.len() - h <= 1 {
        assert(out@.map_values(|t: TargetInfo| target_model(t)) =~= Seq::<TargetModel>::empty());
        return out;
    }
    let bounds = column_bounds(lines[h + 1].as_slice());
    proof {
        assert(lines@.map_values(|l: Vec<char>| l@)[h + 1] == lines@[h + 1]@);
    }
    if bounds.len() < 3 {
        assert(out@.map_values(|t: TargetInfo| target_model(t)) =~= Seq::<TargetModel>::empty());
        return out;
    }
    let ghost bs = bounds@.map_values(|b: (u128, u128)| (b.0 as nat, b.1 as nat));
    let ghost rows = ls.skip(h + 2);
    let mut i: usize = h + 2;
    while i < lines.len()
        invariant
            h + 2 <= i <= lines@.len(),
            lines@.map_values(|l: Vec<char>| l@) == ls,
            rows == ls.skip(h + 2),
            bs == bounds@.map_values(|b: (u128, u128)| (b.0 as nat, b.1 as nat)),
            out@.map_values(|t: TargetInfo| target_model(t)) == row_targets(rows.take(i - h - 2), bs),
        decreases lines@.len() - i,
    {
        proof {
            assert(lines@.map_values(|l: Vec<char>| l@)[i as int] == lines@[i as int]@);
            let t = rows.take(i - h - 2 + 1);
            assert(t.drop_last() =~= rows.take(i - h - 2));
            assert(t.last() == ls[i as int]);
        }
        match target_of_row(lines[i].as_slice(), &bounds) {
            Some(t) => {
                let ghost o0 = out@.map_values(|t: TargetInfo| target_model(t));
                out.push(t);
                assert(out@.map_values(|t: TargetInfo| target_model(t)) =~= o0.push(target_model(t)));
            },
            None => {},
        }
        i += 1;
    }
    assert(rows.take(lines@.len() - h - 2) =~= rows);
    out
}

} // verus!

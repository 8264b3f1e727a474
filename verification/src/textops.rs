//! Further text operations: decimal rendering of integers, substring search and
//! replacement, whitespace-separated words, and joining path components, and joining strings with a separator.
use crate::text::{append_chars, append_str, is_ws, is_ws_exec, lead_ws, lead_ws_exec, lemma_lead_ws_bound, strings_view, sub_chars, trim_start};
use vstd::prelude::*;

verus! {

pub open spec fn digit_char(d: nat) -> char {
    if d == 0 { '0' } else if d == 1 { '1' } else if d == 2 { '2' } else if d == 3 { '3' } else if d == 4 { '4' }
    else if d == 5 { '5' } else if d == 6 { '6' } else if d == 7 { '7' } else if d == 8 { '8' } else { '9' }
}

/// The decimal digits of `n`, as `Display` writes an unsigned integer.
pub open spec fn decimal(n: nat) -> Seq<char>
    decreases n,
{
    if n < 10 {
        seq![digit_char(n)]
    } else {
        decimal(n / 10) + seq![digit_char(n % 10)]
    }
}

fn digit_char_exec(d: u64) -> (c: char)
    requires
        d < 10,
    ensures
        c == digit_char(d as nat),
{
    if d == 0 { '0' } else if d == 1 { '1' } else if d == 2 { '2' } else if d == 3 { '3' } else if d == 4 { '4' }
    else if d == 5 { '5' } else if d == 6 { '6' } else if d == 7 { '7' } else if d == 8 { '8' } else { '9' }
}

/// The decimal digits of `n`.
pub fn decimal_chars(n: u64) -> (r: Vec<char>)
    ensures
        r@ == decimal(n as nat),
    decreases n,
{
    if n < 10 {
        let mut v: Vec<char> = Vec::new();
        v.push(digit_char_exec(n));
        assert(v@ =~= seq![digit_char(n as nat)]);
        v
    } else {
        let mut v = decimal_chars(n / 10);
        v.push(digit_char_exec(n % 10));
        assert(v@ =~= decimal((n / 10) as nat) + seq![digit_char((n % 10) as nat)]);
        v
    }
}

/// Index of the first occurrence of `p` in `s` at or after `i`, or -1.
pub open spec fn find_from(s: Seq<char>, p: Seq<char>, i: int) -> int
    decreases s.len() + 1 - i,
{
    if i < 0 || i + p.len() > s.len() {
        -1
    } else if s.subrange(i, i + p.len()) == p {
        i
    } else {
        find_from(s, p, i + 1)
    }
}

/// Index of the first occurrence of `p` in `s` (`str::find`), or -1.
pub open spec fn find_sub(s: Seq<char>, p: Seq<char>) -> int {
    find_from(s, p, 0)
}

pub proof fn lemma_find_from_bounds(s: Seq<char>, p: Seq<char>, i: int)
    requires
        0 <= i,
    ensures
        find_from(s, p, i) == -1 || (i <= find_from(s, p, i) && find_from(s, p, i) + p.len() <= s.len()
            && s.subrange(find_from(s, p, i), find_from(s, p, i) + p.len()) == p),
    decreases s.len() + 1 - i,
{
    if i + p.len() <= s.len() && s.subrange(i, i + p.len()) != p {
        lemma_find_from_bounds(s, p, i + 1);
    }
}

fn matches_at(s: &[char], p: &[char], i: usize) -> (r: bool)
    requires
        i + p.len() <= s.len(),
    ensures
        r == (s@.subrange(i as int, i + p.len()) == p@),
{
    let mut k: usize = 0;
    while k < p.len()
        invariant
            i + p.len() <= s.len(),
            k <= p.len(),
            forall|j: int| 0 <= j < k ==> s@[i + j] == p@[j],
        decreases p.len() - k,
    {
        if s[i + k] != p[k] {
            assert(s@.subrange(i as int, i + p.len())[k as int] != p@[k as int]);
            return false;
        }
        k += 1;
    }
    assert(s@.subrange(i as int, i + p.len()) =~= p@);
    true
}

/// The first occurrence of `p` in `s` at or after `from`.
pub fn find_from_exec(s: &[char], p: &[char], from: usize) -> (r: Option<usize>)
    ensures
        match r {
            Some(i) => find_from(s@, p@, from as int) == i as int,
            None => find_from(s@, p@, from as int) == -1,
        },
{
    let mut i = from;
    if i > s.len() {
        return None;
    }
    while p.len() <= s.len() - i
        invariant
            from <= i <= s.len(),
            find_from(s@, p@, i as int) == find_from(s@, p@, from as int),
        decreases s.len() + 1 - i,
    {
        if matches_at(s, p, i) {
            return Some(i);
        }
        if i == s.len() {
            assert(p.len() == 0);
            assert(s@.subrange(i as int, i as int) =~= p@);
            assert(false);
        }
        i += 1;
    }
    None
}

/// Replaces every non-overlapping occurrence of `from` (non-empty) in `s[i..]`, left to
/// right, with `to`.
pub open spec fn replace_from(s: Seq<char>, from: Seq<char>, to: Seq<char>, i: int) -> Seq<char>
    decreases s.len() - i,
{
    if i < 0 || from.len() == 0 || i > s.len() {
        Seq::empty()
    } else {
        let j = find_from(s, from, i);
        if j < 0 {
            s.skip(i)
        } else {
            proof {
                lemma_find_from_bounds(s, from, i);
            }
            s.subrange(i, j) + to + replace_from(s, from, to, j + from.len())
        }
    }
}

/// `to` before every character of `s` and once more at the end: what `str::replace` does
/// with an empty pattern.
pub open spec fn surround_each(s: Seq<char>, to: Seq<char>) -> Seq<char>
    decreases s.len(),
{
    if s.len() == 0 {
        to
    } else {
        to + seq![s[0]] + surround_each(s.drop_first(), to)
    }
}

/// `str::replace`: every non-overlapping occurrence of `from`, left to right, replaced by
/// `to`; an empty `from` matches before each character and at the end.
pub open spec fn replace_all(s: Seq<char>, from: Seq<char>, to: Seq<char>) -> Seq<char> {
    if from.len() == 0 {
        surround_each(s, to)
    } else {
        replace_from(s, from, to, 0)
    }
}

fn surround_each_chars(s: &[char], to: &[char]) -> (r: Vec<char>)
    ensures
        r@ == surround_each(s@, to@),
{
    let mut out: Vec<char> = Vec::new();
    let mut i: usize = 0;
    assert(s@.skip(0) =~= s@);
    while i < s.len()
        invariant
            i <= s.len(),
            out@ + surround_each(s@.skip(i as int), to@) == surround_each(s@, to@),
        decreases s.len() - i,
    {
        let ghost o = out@;
        append_chars(&mut out, to);
        out.push(s[i]);
        proof {
            let t = s@.skip(i as int);
            assert(t[0] == s@[i as int]);
            assert(t.drop_first() =~= s@.skip(i + 1));
            assert(out@ =~= o + to@ + seq![s@[i as int]]);
            assert(o + surround_each(t, to@) =~= out@ + surround_each(s@.skip(i + 1), to@));
        }
        i += 1;
    }
    assert(s@.skip(i as int) =~= Seq::<char>::empty());
    append_chars(&mut out, to);
    out
}

pub fn replace_chars(s: &[char], from: &[char], to: &[char]) -> (r: Vec<char>)
    ensures
        r@ == replace_all(s@, from@, to@),
{
    if from.len() == 0 {
        return surround_each_chars(s, to);
    }
    let mut out: Vec<char> = Vec::new();
    let mut i: usize = 0;
    while i <= s.len()
        invariant
            i <= s.len() + 1,
            from.len() > 0,
            i <= s.len() ==> out@ + replace_from(s@, from@, to@, i as int) == replace_all(s@, from@, to@),
            i > s.len() ==> out@ == replace_all(s@, from@, to@),
        decreases s.len() + 1 - i,
    {
        match find_from_exec(s, from, i) {
            None => {
                let rest = sub_chars(s, i, s.len());
                let ghost o = out@;
                append_chars(&mut out, rest.as_slice());
                assert(rest@ == s@.skip(i as int));
                return out;
            },
            Some(j) => {
                proof {
                    lemma_find_from_bounds(s@, from@, i as int);
                }
                let mid = sub_chars(s, i, j);
                let ghost o = out@;
                append_chars(&mut out, mid.as_slice());
                append_chars(&mut out, to);
                proof {
                    assert(o + replace_from(s@, from@, to@, i as int) == o + (s@.subrange(i as int, j as int)
                        + to@ + replace_from(s@, from@, to@, j + from.len())));
                    assert(o + (s@.subrange(i as int, j as int) + to@ + replace_from(s@, from@, to@, j
                        + from.len())) == o + s@.subrange(i as int, j as int) + to@ + replace_from(s@, from@, to@, j
                        + from.len()));
                }
                i = j + from.len();
            },
        }
    }
    out
}

/// The whitespace-separated words of `s` (`str::split_whitespace`), never empty.
pub open spec fn words(s: Seq<char>) -> Seq<Seq<char>>
    decreases s.len(),
{
    let t = trim_start(s);
    if t.len() == 0 {
        Seq::empty()
    } else {
        let k = word_len(t);
        proof {
            lemma_word_len(t);
            lemma_lead_ws_bound(s);
        }
        seq![t.take(k as int)] + words(t.skip(k as int))
    }
}

/// Number of leading non-whitespace characters.
pub open spec fn word_len(s: Seq<char>) -> nat
    decreases s.len(),
{
    if s.len() > 0 && !is_ws(s[0]) {
        1 + word_len(s.drop_first())
    } else {
        0
    }
}

pub proof fn lemma_word_len(s: Seq<char>)
    ensures
        word_len(s) <= s.len(),
        s.len() > 0 && !is_ws(s[0]) ==> word_len(s) > 0,
    decreases s.len(),
{
    if s.len() > 0 && !is_ws(s[0]) {
        lemma_word_len(s.drop_first());
    }
}

pub fn word_len_exec(v: &[char]) -> (r: usize)
    ensures
        r == word_len(v@),
{
    let mut i: usize = 0;
    assert(v@.skip(0) == v@);
    while i < v.len() && !is_ws_exec(v[i])
        invariant
            i <= v.len(),
            word_len(v@) == i + word_len(v@.skip(i as int)),
        decreases v.len() - i,
    {
        assert(v@.skip(i as int).drop_first() == v@.skip(i + 1));
        i += 1;
    }
    if i < v.len() {
        assert(v@.skip(i as int)[0] == v@[i as int]);
    }
    i
}

/// `str::split_whitespace`, as character vectors.
pub fn words_chars(s: &[char]) -> (r: Vec<Vec<char>>)
    ensures
        r@.map_values(|w: Vec<char>| w@) == words(s@),
{
    let mut out: Vec<Vec<char>> = Vec::new();
    let mut rest: Vec<char> = sub_chars(s, 0, s.len());
    assert(rest@ == s@);
    loop
        invariant
            out@.map_values(|w: Vec<char>| w@) + words(rest@) == words(s@),
        decreases rest@.len(),
    {
        let k = lead_ws_exec(rest.as_slice());
        proof {
            lemma_lead_ws_bound(rest@);
        }
        let t = sub_chars(rest.as_slice(), k, rest.len());
        assert(t@ == trim_start(rest@));
        if t.len() == 0 {
            assert(words(rest@) == Seq::<Seq<char>>::empty());
            assert(out@.map_values(|w: Vec<char>| w@) + Seq::<Seq<char>>::empty() == out@.map_values(|w: Vec<char>| w@));
            return out;
        }
        let n = word_len_exec(t.as_slice());
        proof {
            lemma_word_len(t@);
        }
        let w = sub_chars(t.as_slice(), 0, n);
        let next = sub_chars(t.as_slice(), n, t.len());
        let ghost before = out@.map_values(|w: Vec<char>| w@);
        out.push(w);
        proof {
            assert(out@.map_values(|w: Vec<char>| w@) =~= before.push(t@.take(n as int)));
            assert(words(rest@) == seq![t@.take(n as int)] + words(t@.skip(n as int)));
            assert(next@ == t@.skip(n as int));
            assert(before + (seq![t@.take(n as int)] + words(next@)) == before.push(t@.take(n as int)) + words(next@));
        }
        rest = next;
    }
}

/// `Path::join` with `/` separators: an absolute second path replaces the first; otherwise
/// a separator is inserted unless the first is empty or already ends in one.
pub open spec fn join_path(a: Seq<char>, b: Seq<char>) -> Seq<char> {
    if b.len() > 0 && b[0] == '/' {
        b
    } else if a.len() == 0 || a[a.len() - 1] == '/' {
        a + b
    } else {
        a + seq!['/'] + b
    }
}

pub fn join_path_chars(a: &[char], b: &[char]) -> (r: Vec<char>)
    ensures
        r@ == join_path(a@, b@),
{
    if b.len() > 0 && b[0] == '/' {
        sub_chars(b, 0, b.len())
    } else {
        let mut v = sub_chars(a, 0, a.len());
        if !(a.len() == 0 || a[a.len() - 1] == '/') {
            v.push('/');
        }
        append_chars(&mut v, b);
        v
    }
}

/// `a, b, c`: the strings joined with `sep` between them.
pub open spec fn join_with(v: Seq<Seq<char>>, sep: Seq<char>) -> Seq<char>
    decreases v.len(),
{
    if v.len() == 0 {
        Seq::empty()
    } else if v.len() == 1 {
        v[0]
    } else {
        join_with(v.drop_last(), sep) + sep + v.last()
    }
}

pub fn join_strings(v: &Vec<String>, sep: &str) -> (r: Vec<char>)
    ensures
        r@ == join_with(strings_view(v@), sep@),
{
    let mut out: Vec<char> = Vec::new();
    let mut i: usize = 0;
    while i < v.len()
        invariant
            i <= v.len(),
            out@ == join_with(strings_view(v@).take(i as int), sep@),
        decreases v.len() - i,
    {
        let ghost before = out@;
        if i > 0 {
            append_str(&mut out, sep);
        }
        append_str(&mut out, v[i].as_str());
        proof {
            let t = strings_view(v@).take(i + 1);
            assert(t.drop_last() == strings_view(v@).take(i as int));
            assert(t.last() == v@[i as int]@);
            if i == 0 {
                assert(before == Seq::<char>::empty());
                assert(out@ =~= v@[0]@);
            }
        }
        i += 1;
    }
    assert(strings_view(v@).take(v.len() as int) == strings_view(v@));
    out
}

/// The index of the first line from `from` on whose text, left-trimmed, starts with
/// `prefix` (a table's header row), or -1.
pub open spec fn header_index(lines: Seq<Seq<char>>, prefix: Seq<char>, from: int) -> int
    decreases lines.len() - from,
{
    if from < 0 || from >= lines.len() {
        -1
    } else if crate::text::starts_with(crate::text::trim_start(lines[from]), prefix) {
        from
    } else {
        header_index(lines, prefix, from + 1)
    }
}

/// The header row's index, or the number of lines when there is none.
pub fn find_header(lines: &Vec<Vec<char>>, prefix: &str) -> (h: usize)
    ensures
        h <= lines@.len(),
        header_index(lines@.map_values(|l: Vec<char>| l@), prefix@, 0) == (if h < lines@.len() { h as int } else { -1 }),
{
    let ghost ls = lines@.map_values(|l: Vec<char>| l@);
    let mut h: usize = 0;
    while h < lines.len()
        invariant
            h <= lines@.len(),
            ls == lines@.map_values(|l: Vec<char>| l@),
            header_index(ls, prefix@, 0) == header_index(ls, prefix@, h as int),
        ensures
            h <= lines@.len(),
            header_index(ls, prefix@, 0) == (if h < lines@.len() { h as int } else { -1 }),
        decreases lines@.len() - h,
    {
        let t = crate::text::trim_start_chars(lines[h].as_slice());
        assert(ls[h as int] == lines@[h as int]@);
        if crate::text::starts_with_str(t.as_slice(), prefix) {
            break;
        }
        h += 1;
    }
    h
}


/// Whether some suffix of `s` takes exactly `n` bytes in UTF-8 (a cut `n` bytes from
/// the end falls on a character boundary).
pub open spec fn has_byte_suffix(s: Seq<char>, n: nat) -> bool {
    exists|k: int| 0 <= k <= s.len() && #[trigger] crate::text::utf8_len(s.skip(k)) == n
}

/// Text that fits in `max_bytes` bytes as it is; longer text keeps its last `max_bytes`
/// bytes behind an ellipsis.
pub open spec fn tail_bytes_spec(s: Seq<char>, max_bytes: nat) -> Seq<char> {
    if crate::text::utf8_len(s) <= max_bytes {
        s
    } else {
        seq!['\u{2026}'] + s.skip(choose|k: int| 0 <= k <= s.len() && crate::text::utf8_len(s.skip(k)) == max_bytes)
    }
}

proof fn lemma_utf8_len_single(c: char)
    ensures
        crate::text::utf8_len(seq![c]) == crate::text::char_utf8_len(c),
        crate::text::char_utf8_len(c) >= 1,
{
    assert(seq![c].drop_last() =~= Seq::<char>::empty());
    assert(crate::text::utf8_len(Seq::<char>::empty()) == 0);
}

proof fn lemma_skip_len_strictly_decreasing(s: Seq<char>, a: int, b: int)
    requires
        0 <= a < b <= s.len(),
    ensures
        crate::text::utf8_len(s.skip(a)) > crate::text::utf8_len(s.skip(b)),
{
    let t = s.skip(a);
    crate::text::lemma_utf8_len_split(t, b - a);
    assert(t.skip(b - a) =~= s.skip(b));
    crate::text::lemma_utf8_len_split(t.take(b - a), 1);
    assert(t.take(b - a).take(1) =~= seq![t[0]]);
    lemma_utf8_len_single(t[0]);
}

/// The last `max_bytes` bytes of `s` behind an ellipsis, or `s` when it is no longer.
pub fn tail_bytes(s: &str, max_bytes: usize) -> (r: String)
    requires
        crate::text::utf8_len(s@) <= max_bytes || has_byte_suffix(s@, max_bytes as nat),
    ensures
        r@ == tail_bytes_spec(s@, max_bytes as nat),
{
    let v = crate::text::str_chars(s);
    let mut k: usize = v.len();
    let mut acc: u128 = 0;
    proof {
        assert(v@.skip(v@.len() as int) =~= Seq::<char>::empty());
        crate::text::lemma_utf8_len_bounds(v@);
    }
    while acc < max_bytes as u128 && k > 0
        invariant
            k <= v@.len(),
            v@ == s@,
            acc as nat == crate::text::utf8_len(v@.skip(k as int)),
            acc < max_bytes || k == v@.len() || crate::text::utf8_len(v@.skip(k as int + 1)) < max_bytes,
            crate::text::utf8_len(v@) <= 4 * v@.len(),
        decreases k,
    {
        let ghost k0 = k;
        k = k - 1;
        proof {
            let t = v@.skip(k as int);
            crate::text::lemma_utf8_len_split(t, 1);
            assert(t.skip(1) =~= v@.skip(k0 as int));
            assert(t.take(1) =~= seq![v@[k as int]]);
            lemma_utf8_len_single(v@[k as int]);
            crate::text::lemma_utf8_len_split(v@, k as int);
        }
        acc = acc + crate::text::char_utf8_len_exec(v[k]) as u128;
    }
    if acc <= max_bytes as u128 && k == 0 {
        proof {
            assert(v@.skip(0) =~= v@);
        }
        return crate::text::str_to_string(s);
    }
    proof {
        assert(v@.skip(0) =~= v@);
        if k == 0 {
            assert(crate::text::utf8_len(v@) > max_bytes);
        }
        if acc < max_bytes {
            assert(k == 0);
        }
        assert(acc >= max_bytes);
        if crate::text::utf8_len(v@) <= max_bytes {
            if k > 0 {
                lemma_skip_len_strictly_decreasing(v@, 0, k as int);
            }
        }
        assert(crate::text::utf8_len(v@) > max_bytes);
        let w = choose|j: int| 0 <= j <= v@.len() && crate::text::utf8_len(v@.skip(j)) == max_bytes;
        if w < k {
            lemma_skip_len_strictly_decreasing(v@, w, k as int);
        } else if w > k {
            if k < v@.len() && w > k + 1 {
                lemma_skip_len_strictly_decreasing(v@, k + 1, w);
            }
            assert(k < v@.len());
        }
        assert(w == k);
    }
    let mut out: Vec<char> = Vec::new();
    out.push('\u{2026}');
    let rest = sub_chars(v.as_slice(), k, v.len());
    append_chars(&mut out, rest.as_slice());
    proof {
        assert(rest@ =~= v@.skip(k as int));
    }
    crate::text::string_from_chars(out.as_slice())
}
} // verus!

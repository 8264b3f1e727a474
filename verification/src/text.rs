//! Character-level text helpers shared by every parser in the crate: conversions between
//! `&str`/`String` and character vectors, the Unicode whitespace class that `str::trim`
//! uses, line splitting that keeps or drops line endings, and small searches.
use vstd::prelude::*;

verus! {

// ---------------------------------------------------------------------------------------
// Specifications
// ---------------------------------------------------------------------------------------

/// The Unicode `White_Space` property, which is what `char::is_whitespace` and therefore
/// `str::trim`, `str::trim_start` and `str::split_whitespace` test.
pub open spec fn is_ws(c: char) -> bool {
    let u = c as u32;
    ||| (0x9 <= u && u <= 0xd)
    ||| u == 0x20
    ||| u == 0x85
    ||| u == 0xa0
    ||| u == 0x1680
    ||| (0x2000 <= u && u <= 0x200a)
    ||| u == 0x2028
    ||| u == 0x2029
    ||| u == 0x202f
    ||| u == 0x205f
    ||| u == 0x3000
}

/// Number of leading whitespace characters.
pub open spec fn lead_ws(s: Seq<char>) -> nat
    decreases s.len(),
{
    if s.len() > 0 && is_ws(s[0]) {
        1 + lead_ws(s.drop_first())
    } else {
        0
    }
}

/// Number of trailing whitespace characters.
pub open spec fn trail_ws(s: Seq<char>) -> nat
    decreases s.len(),
{
    if s.len() > 0 && is_ws(s.last()) {
        1 + trail_ws(s.drop_last())
    } else {
        0
    }
}

pub open spec fn trim_start(s: Seq<char>) -> Seq<char> {
    s.skip(lead_ws(s) as int)
}

pub open spec fn trim_end(s: Seq<char>) -> Seq<char> {
    s.take(s.len() - trail_ws(s))
}

/// `str::trim`: leading and trailing whitespace removed.
pub open spec fn trim(s: Seq<char>) -> Seq<char> {
    trim_end(trim_start(s))
}

pub open spec fn starts_with(s: Seq<char>, p: Seq<char>) -> bool {
    p.len() <= s.len() && s.take(p.len() as int) == p
}

pub open spec fn ends_with(s: Seq<char>, p: Seq<char>) -> bool {
    p.len() <= s.len() && s.skip(s.len() - p.len()) == p
}

/// `strip_suffix("\r\n")`, else `strip_suffix('\n')`, else the line unchanged.
pub open spec fn strip_eol(l: Seq<char>) -> Seq<char> {
    if l.len() >= 2 && l[l.len() - 2] == '\r' && l[l.len() - 1] == '\n' {
        l.take(l.len() - 2)
    } else if l.len() >= 1 && l[l.len() - 1] == '\n' {
        l.take(l.len() - 1)
    } else {
        l
    }
}

/// Index of the first occurrence of `c`, or -1.
pub open spec fn first_index(s: Seq<char>, c: char) -> int
    decreases s.len(),
{
    if s.len() == 0 {
        -1
    } else if s[0] == c {
        0
    } else {
        let r = first_index(s.drop_first(), c);
        if r < 0 {
            -1
        } else {
            r + 1
        }
    }
}

/// Splits after every `'\n'`: each piece keeps its own line ending, and the last piece has
/// none when the text does not end in one.
pub open spec fn split_keep(s: Seq<char>) -> Seq<Seq<char>>
    decreases s.len(),
{
    if s.len() == 0 {
        Seq::empty()
    } else {
        let k = first_index(s, '\n');
        if k < 0 {
            seq![s]
        } else {
            proof {
                lemma_first_index_props(s, '\n');
            }
            seq![s.take(k + 1)] + split_keep(s.skip(k + 1))
        }
    }
}

/// `str::lines`: pieces split at `'\n'`, each without its `"\n"` or `"\r\n"` ending, with
/// no empty piece after a final line ending.
pub open spec fn lines_of(s: Seq<char>) -> Seq<Seq<char>> {
    split_keep(s).map_values(|l: Seq<char>| strip_eol(l))
}

/// The character sequences of a sequence of strings.
pub open spec fn strings_view(v: Seq<String>) -> Seq<Seq<char>> {
    v.map_values(|s: String| s@)
}

/// Concatenation of a sequence of strings.
pub open spec fn concat(ls: Seq<Seq<char>>) -> Seq<char>
    decreases ls.len(),
{
    if ls.len() == 0 {
        Seq::empty()
    } else {
        concat(ls.drop_last()) + ls.last()
    }
}

/// ASCII lower-casing of one character (`char::to_ascii_lowercase`).
pub open spec fn lower_char(c: char) -> char {
    if 'A' <= c && c <= 'Z' {
        ((c as u32) + 32) as char
    } else {
        c
    }
}

/// ASCII upper-casing of one character (`char::to_ascii_uppercase`).
pub open spec fn upper_char(c: char) -> char {
    if 'a' <= c && c <= 'z' {
        ((c as u32) - 32) as char
    } else {
        c
    }
}

pub open spec fn ascii_lower(s: Seq<char>) -> Seq<char> {
    s.map_values(|c: char| lower_char(c))
}

pub open spec fn ascii_upper(s: Seq<char>) -> Seq<char> {
    s.map_values(|c: char| upper_char(c))
}

pub open spec fn is_digit(c: char) -> bool {
    '0' <= c && c <= '9'
}

pub open spec fn digit_val(c: char) -> nat {
    ((c as u32) - ('0' as u32)) as nat
}

/// Decimal value of a string of digits.
pub open spec fn digits_value(s: Seq<char>) -> nat
    decreases s.len(),
{
    if s.len() == 0 {
        0
    } else {
        digits_value(s.drop_last()) * 10 + digit_val(s.last())
    }
}

pub open spec fn all_digits(s: Seq<char>) -> bool {
    forall|i: int| 0 <= i < s.len() ==> is_digit(#[trigger] s[i])
}

/// What `str::parse::<uN>` accepts: an optional `+`, then one or more ASCII digits, whose
/// value is at most `max`.
pub open spec fn unsigned_body(s: Seq<char>) -> Seq<char> {
    if s.len() > 0 && s[0] == '+' {
        s.drop_first()
    } else {
        s
    }
}

pub open spec fn parse_unsigned(s: Seq<char>, max: nat) -> Option<nat> {
    let body = unsigned_body(s);
    if body.len() > 0 && all_digits(body) && digits_value(body) <= max {
        Some(digits_value(body))
    } else {
        None
    }
}

pub open spec fn contains_char(s: Seq<char>, c: char) -> bool {
    exists|i: int| 0 <= i < s.len() && s[i] == c
}

// ---------------------------------------------------------------------------------------
// Lemmas
// ---------------------------------------------------------------------------------------

pub proof fn lemma_first_index(s: Seq<char>, c: char, i: int)
    requires
        0 <= i <= s.len(),
        forall|j: int| 0 <= j < i ==> s[j] != c,
    ensures
        i < s.len() && s[i] == c ==> first_index(s, c) == i,
        i == s.len() ==> first_index(s, c) == -1,
    decreases i,
{
    if i > 0 {
        let t = s.drop_first();
        assert forall|j: int| 0 <= j < i - 1 implies t[j] != c by {
            assert(t[j] == s[j + 1]);
        }
        lemma_first_index(t, c, i - 1);
    }
}

pub proof fn lemma_first_index_props(s: Seq<char>, c: char)
    ensures
        -1 <= first_index(s, c) < s.len(),
        first_index(s, c) >= 0 ==> s[first_index(s, c)] == c,
        forall|j: int| 0 <= j < s.len() && (first_index(s, c) < 0 || j < first_index(s, c)) ==> s[j] != c,
    decreases s.len(),
{
    if s.len() > 0 && s[0] != c {
        let t = s.drop_first();
        lemma_first_index_props(t, c);
        assert forall|j: int| 0 <= j < s.len() && (first_index(s, c) < 0 || j < first_index(s, c)) implies s[j] != c by {
            if j > 0 {
                assert(s[j] == t[j - 1]);
            }
        }
    }
}

pub proof fn lemma_concat_push(ls: Seq<Seq<char>>, l: Seq<char>)
    ensures
        concat(ls.push(l)) == concat(ls) + l,
{
    assert(ls.push(l).drop_last() == ls);
}

pub proof fn lemma_concat_append(a: Seq<Seq<char>>, b: Seq<Seq<char>>)
    ensures
        concat(a + b) == concat(a) + concat(b),
    decreases b.len(),
{
    if b.len() == 0 {
        assert(a + b == a);
        assert(concat(b) == Seq::<char>::empty());
        assert(concat(a) + concat(b) == concat(a));
    } else {
        lemma_concat_append(a, b.drop_last());
        assert((a + b).drop_last() == a + b.drop_last());
        assert((a + b).last() == b.last());
        assert(concat(a) + concat(b.drop_last()) + b.last() == concat(a) + (concat(b.drop_last())
            + b.last()));
    }
}

pub proof fn lemma_concat_single(l: Seq<char>)
    ensures
        concat(seq![l]) == l,
{
    assert(seq![l].drop_last() == Seq::<Seq<char>>::empty());
    assert(concat(Seq::<Seq<char>>::empty()) == Seq::<char>::empty());
    assert(Seq::<char>::empty() + l == l);
}

/// Concatenating the pieces of `split_keep` gives the text back.
pub proof fn lemma_split_keep_concat(s: Seq<char>)
    ensures
        concat(split_keep(s)) == s,
    decreases s.len(),
{
    if s.len() > 0 {
        let k = first_index(s, '\n');
        lemma_first_index_props(s, '\n');
        if k < 0 {
            lemma_concat_single(s);
        } else {
            lemma_split_keep_concat(s.skip(k + 1));
            lemma_concat_append(seq![s.take(k + 1)], split_keep(s.skip(k + 1)));
            lemma_concat_single(s.take(k + 1));
            assert(s.take(k + 1) + s.skip(k + 1) == s);
        }
    }
}

/// `split_keep` of a text that ends in a line ending distributes over concatenation.
/// The shape of `split_keep`'s lines: none for empty text, otherwise each line non-empty,
/// with a `'\n'` only as its last character, and every line but the last ending in one.
pub proof fn lemma_split_keep_shape(s: Seq<char>)
    ensures
        (s.len() == 0) == (split_keep(s).len() == 0),
        forall|i: int| 0 <= i < split_keep(s).len() ==> (#[trigger] split_keep(s)[i]).len() > 0,
        forall|i: int, j: int|
            0 <= i < split_keep(s).len() && 0 <= j < split_keep(s)[i].len() - 1 ==> #[trigger] split_keep(s)[i][j]
                != '\n',
        forall|i: int| 0 <= i < split_keep(s).len() - 1 ==> (#[trigger] split_keep(s)[i]).last() == '\n',
    decreases s.len(),
{
    if s.len() > 0 {
        let k = first_index(s, '\n');
        lemma_first_index_props(s, '\n');
        if k >= 0 {
            let rest = s.skip(k + 1);
            lemma_split_keep_shape(rest);
            let ls = split_keep(s);
            let tl = split_keep(rest);
            assert(ls == seq![s.take(k + 1)] + tl);
            assert forall|i: int| 0 <= i < ls.len() implies (#[trigger] ls[i]).len() > 0 by {
                if i > 0 {
                    assert(ls[i] == tl[i - 1]);
                }
            }
            assert forall|i: int, j: int| 0 <= i < ls.len() && 0 <= j < ls[i].len() - 1 implies #[trigger] ls[i][j]
                != '\n' by {
                if i > 0 {
                    assert(ls[i] == tl[i - 1]);
                    assert(tl[i - 1][j] != '\n');
                } else {
                    assert(ls[0][j] == s[j]);
                }
            }
            assert forall|i: int| 0 <= i < ls.len() - 1 implies (#[trigger] ls[i]).last() == '\n' by {
                if i > 0 {
                    assert(ls[i] == tl[i - 1]);
                }
            }
        }
    }
}

pub proof fn lemma_split_keep_append(a: Seq<char>, b: Seq<char>)
    requires
        a.len() == 0 || a.last() == '\n',
    ensures
        split_keep(a + b) == split_keep(a) + split_keep(b),
    decreases a.len(),
{
    if a.len() == 0 {
        assert(a + b == b);
        assert(split_keep(a) == Seq::<Seq<char>>::empty());
        assert(Seq::<Seq<char>>::empty() + split_keep(b) == split_keep(b));
    } else {
        let s = a + b;
        let k = first_index(a, '\n');
        lemma_first_index_props(a, '\n');
        lemma_first_index_props(s, '\n');
        assert(a[a.len() - 1] == '\n');
        assert(k >= 0);
        assert forall|j: int| 0 <= j < k implies s[j] != '\n' by {
            assert(s[j] == a[j]);
        }
        lemma_first_index(s, '\n', k);
        assert(first_index(s, '\n') == k);
        let rest = a.skip(k + 1);
        if rest.len() > 0 {
            assert(rest.last() == a.last());
        }
        lemma_split_keep_append(rest, b);
        assert(s.take(k + 1) == a.take(k + 1));
        assert(s.skip(k + 1) == rest + b);
        assert(seq![a.take(k + 1)] + (split_keep(rest) + split_keep(b)) == (seq![a.take(k + 1)]
            + split_keep(rest)) + split_keep(b));
    }
}

/// A text with no line ending is a single piece.
pub proof fn lemma_split_keep_no_newline(s: Seq<char>)
    requires
        s.len() > 0,
        forall|j: int| 0 <= j < s.len() ==> s[j] != '\n',
    ensures
        split_keep(s) == seq![s],
{
    lemma_first_index(s, '\n', s.len() as int);
}

/// A text whose only line ending is its last character is a single piece.
pub proof fn lemma_split_keep_one_line(s: Seq<char>)
    requires
        s.len() > 0,
        s.last() == '\n',
        forall|j: int| 0 <= j < s.len() - 1 ==> s[j] != '\n',
    ensures
        split_keep(s) == seq![s],
{
    lemma_first_index(s, '\n', s.len() - 1);
    assert(s.take(s.len() as int) == s);
    assert(s.skip(s.len() as int) == Seq::<char>::empty());
    assert(split_keep(Seq::<char>::empty()) == Seq::<Seq<char>>::empty());
    assert(seq![s] + Seq::<Seq<char>>::empty() == seq![s]);
}

pub proof fn lemma_lead_ws_bound(s: Seq<char>)
    ensures
        lead_ws(s) <= s.len(),
        forall|j: int| 0 <= j < lead_ws(s) ==> is_ws(#[trigger] s[j]),
        lead_ws(s) < s.len() ==> !is_ws(s[lead_ws(s) as int]),
    decreases s.len(),
{
    if s.len() > 0 && is_ws(s[0]) {
        let t = s.drop_first();
        lemma_lead_ws_bound(t);
        assert forall|j: int| 0 <= j < lead_ws(s) implies is_ws(#[trigger] s[j]) by {
            if j > 0 {
                assert(s[j] == t[j - 1]);
            }
        }
    }
}

pub proof fn lemma_trail_ws_bound(s: Seq<char>)
    ensures
        trail_ws(s) <= s.len(),
    decreases s.len(),
{
    if s.len() > 0 && is_ws(s.last()) {
        lemma_trail_ws_bound(s.drop_last());
    }
}

proof fn lemma_lead_ws_step(s: Seq<char>, i: int)
    requires
        0 <= i < s.len(),
        is_ws(s[i]),
    ensures
        lead_ws(s.skip(i)) == 1 + lead_ws(s.skip(i + 1)),
{
    assert(s.skip(i).drop_first() == s.skip(i + 1));
}

proof fn lemma_trail_ws_step(s: Seq<char>, i: int)
    requires
        0 < i <= s.len(),
        is_ws(s[i - 1]),
    ensures
        trail_ws(s.take(i)) == 1 + trail_ws(s.take(i - 1)),
{
    assert(s.take(i).drop_last() == s.take(i - 1));
}

pub proof fn lemma_digits_value_push(s: Seq<char>, c: char)
    ensures
        digits_value(s.push(c)) == digits_value(s) * 10 + digit_val(c),
{
    assert(s.push(c).drop_last() == s);
}

// ---------------------------------------------------------------------------------------
// Executable helpers
// ---------------------------------------------------------------------------------------

/// `String::push`: the contract claims the string's characters afterwards are the old
/// ones followed by `c`.
#[verifier::external_body]
pub(crate) fn string_push(s: &mut String, c: char)
    ensures
        final(s)@ == old(s)@.push(c),
{
    s.push(c);
}

/// The characters of `s`, in order.
pub fn str_chars(s: &str) -> (res: Vec<char>)
    ensures
        res@ == s@,
{
    let mut out: Vec<char> = Vec::new();
    for c in it: s.chars()
        invariant
            out@ == it.seq().take(it.index() as int),
            it.seq() == s@,
    {
        out.push(c);
    }
    out
}

/// A `String` holding exactly the given characters.
pub fn string_from_chars(v: &[char]) -> (res: String)
    ensures
        res@ == v@,
{
    let mut s = String::new();
    let mut i: usize = 0;
    while i < v.len()
        invariant
            i <= v.len(),
            s@ == v@.take(i as int),
        decreases v.len() - i,
    {
        string_push(&mut s, v[i]);
        assert(v@.take(i as int).push(v@[i as int]) == v@.take(i + 1));
        i += 1;
    }
    assert(v@.take(v.len() as int) == v@);
    s
}

/// A `String` with the same characters as `s`.
pub fn str_to_string(s: &str) -> (res: String)
    ensures
        res@ == s@,
{
    s.to_owned()
}

/// Appends an owned copy of `s` to `args`.
pub fn push_str(args: &mut Vec<String>, s: &str)
    ensures
        strings_view(final(args)@) == strings_view(old(args)@).push(s@),
{
    let ghost old_v = strings_view(args@);
    args.push(str_to_string(s));
    assert(strings_view(args@) =~= old_v.push(s@));
}

/// Appends `s` (moved) to `args`.
pub fn push_string(args: &mut Vec<String>, s: String)
    ensures
        strings_view(final(args)@) == strings_view(old(args)@).push(s@),
{
    let ghost old_v = strings_view(args@);
    let ghost sv = s@;
    args.push(s);
    assert(strings_view(args@) =~= old_v.push(sv));
}

/// Replaces the string at index `i` with an owned copy of `s`.
pub fn set_str(args: &mut Vec<String>, i: usize, s: &str)
    requires
        i < old(args)@.len(),
    ensures
        strings_view(final(args)@) == strings_view(old(args)@).update(i as int, s@),
{
    let ghost old_v = strings_view(args@);
    args.set(i, str_to_string(s));
    assert(strings_view(args@) =~= old_v.update(i as int, s@));
}

/// A vector of owned copies of the given strings.
pub fn strings_from(v: &[&str]) -> (r: Vec<String>)
    ensures
        strings_view(r@) == v@.map_values(|s: &str| s@),
{
    let mut out: Vec<String> = Vec::new();
    let mut i: usize = 0;
    while i < v.len()
        invariant
            i <= v.len(),
            strings_view(out@) == v@.take(i as int).map_values(|s: &str| s@),
        decreases v.len() - i,
    {
        push_str(&mut out, v[i]);
        assert(v@.take(i + 1).map_values(|s: &str| s@) =~= v@.take(i as int).map_values(|s: &str| s@).push(v@[i as int]@));
        i += 1;
    }
    assert(v@.take(v.len() as int) == v@);
    out
}

pub fn string_eq(a: &String, b: &String) -> (r: bool)
    ensures
        r == (a@ == b@),
{
    *a == *b
}

/// Character-sequence equality.
pub fn chars_eq(a: &[char], b: &[char]) -> (r: bool)
    ensures
        r == (a@ == b@),
{
    if a.len() != b.len() {
        return false;
    }
    let mut i: usize = 0;
    while i < a.len()
        invariant
            a.len() == b.len(),
            i <= a.len(),
            forall|j: int| 0 <= j < i ==> a@[j] == b@[j],
        decreases a.len() - i,
    {
        if a[i] != b[i] {
            return false;
        }
        i += 1;
    }
    assert(a@ =~= b@);
    true
}

/// Equality of a `&str` with a character sequence.
pub fn str_eq_chars(a: &str, b: &[char]) -> (r: bool)
    ensures
        r == (a@ == b@),
{
    let av = str_chars(a);
    chars_eq(av.as_slice(), b)
}

/// Equality of two `&str`.
pub fn str_eq(a: &str, b: &str) -> (r: bool)
    ensures
        r == (a@ == b@),
{
    let av = str_chars(a);
    let bv = str_chars(b);
    chars_eq(av.as_slice(), bv.as_slice())
}

/// The characters of `v` in the index range `[a, b)`.
pub fn sub_chars(v: &[char], a: usize, b: usize) -> (res: Vec<char>)
    requires
        a <= b <= v.len(),
    ensures
        res@ == v@.subrange(a as int, b as int),
{
    let mut out: Vec<char> = Vec::new();
    let mut i = a;
    while i < b
        invariant
            a <= i <= b <= v.len(),
            out@ == v@.subrange(a as int, i as int),
        decreases b - i,
    {
        out.push(v[i]);
        assert(v@.subrange(a as int, i as int).push(v@[i as int]) == v@.subrange(
            a as int,
            i + 1,
        ));
        i += 1;
    }
    out
}

/// `v` followed by `w`.
pub fn append_chars(v: &mut Vec<char>, w: &[char])
    ensures
        final(v)@ == old(v)@ + w@,
{
    let ghost v0 = v@;
    let mut i: usize = 0;
    while i < w.len()
        invariant
            i <= w.len(),
            v@ == v0 + w@.take(i as int),
        decreases w.len() - i,
    {
        v.push(w[i]);
        assert(v0 + w@.take(i as int) + seq![w@[i as int]] == v0 + w@.take(i + 1));
        i += 1;
    }
    assert(w@.take(w.len() as int) == w@);
}

/// `v` followed by the characters of `s`.
pub fn append_str(v: &mut Vec<char>, s: &str)
    ensures
        final(v)@ == old(v)@ + s@,
{
    let w = str_chars(s);
    append_chars(v, w.as_slice());
}

/// The characters of `s` followed by those of `t`, as a `String`.
pub fn concat_str(s: &str, t: &str) -> (res: String)
    ensures
        res@ == s@ + t@,
{
    let mut v = str_chars(s);
    append_str(&mut v, t);
    string_from_chars(v.as_slice())
}

pub fn is_ws_exec(c: char) -> (r: bool)
    ensures
        r == is_ws(c),
{
    let u = c as u32;
    (0x9 <= u && u <= 0xd) || u == 0x20 || u == 0x85 || u == 0xa0 || u == 0x1680 || (0x2000 <= u
        && u <= 0x200a) || u == 0x2028 || u == 0x2029 || u == 0x202f || u == 0x205f || u == 0x3000
}

pub fn lead_ws_exec(v: &[char]) -> (r: usize)
    ensures
        r == lead_ws(v@),
{
    let mut i: usize = 0;
    assert(v@.skip(0) == v@);
    while i < v.len() && is_ws_exec(v[i])
        invariant
            i <= v.len(),
            lead_ws(v@) == i + lead_ws(v@.skip(i as int)),
        decreases v.len() - i,
    {
        proof {
            lemma_lead_ws_step(v@, i as int);
        }
        i += 1;
    }
    proof {
        if i < v.len() {
            assert(v@.skip(i as int)[0] == v@[i as int]);
        } else {
            assert(v@.skip(i as int).len() == 0);
        }
    }
    i
}

pub fn trail_ws_exec(v: &[char]) -> (r: usize)
    ensures
        r == trail_ws(v@),
{
    let mut i: usize = v.len();
    assert(v@.take(v.len() as int) == v@);
    while i > 0 && is_ws_exec(v[i - 1])
        invariant
            i <= v.len(),
            trail_ws(v@) == (v.len() - i) + trail_ws(v@.take(i as int)),
        decreases i,
    {
        proof {
            lemma_trail_ws_step(v@, i as int);
        }
        i -= 1;
    }
    proof {
        assert(v@.take(v.len() as int) == v@);
        if i > 0 {
            assert(v@.take(i as int).last() == v@[i - 1]);
        }
    }
    v.len() - i
}

/// `trim_start` of a character slice.
pub fn trim_start_chars(v: &[char]) -> (res: Vec<char>)
    ensures
        res@ == trim_start(v@),
{
    let k = lead_ws_exec(v);
    proof {
        lemma_lead_ws_bound(v@);
    }
    sub_chars(v, k, v.len())
}

/// `trim` of a character slice.
pub fn trim_chars(v: &[char]) -> (res: Vec<char>)
    ensures
        res@ == trim(v@),
{
    let t = trim_start_chars(v);
    let k = trail_ws_exec(t.as_slice());
    proof {
        lemma_trail_ws_bound(t@);
    }
    sub_chars(t.as_slice(), 0, t.len() - k)
}

pub fn starts_with_chars(s: &[char], p: &[char]) -> (r: bool)
    ensures
        r == starts_with(s@, p@),
{
    if p.len() > s.len() {
        return false;
    }
    let mut i: usize = 0;
    while i < p.len()
        invariant
            p.len() <= s.len(),
            i <= p.len(),
            forall|j: int| 0 <= j < i ==> s@[j] == p@[j],
        decreases p.len() - i,
    {
        if s[i] != p[i] {
            assert(s@.take(p.len() as int)[i as int] == s@[i as int]);
            return false;
        }
        i += 1;
    }
    assert(s@.take(p.len() as int) =~= p@);
    true
}

pub fn starts_with_str(s: &[char], p: &str) -> (r: bool)
    ensures
        r == starts_with(s@, p@),
{
    let pv = str_chars(p);
    starts_with_chars(s, pv.as_slice())
}

pub fn ends_with_chars(s: &[char], p: &[char]) -> (r: bool)
    ensures
        r == ends_with(s@, p@),
{
    if p.len() > s.len() {
        return false;
    }
    let off = s.len() - p.len();
    let mut i: usize = 0;
    while i < p.len()
        invariant
            p.len() <= s.len(),
            off == s.len() - p.len(),
            i <= p.len(),
            forall|j: int| 0 <= j < i ==> s@[off + j] == p@[j],
        decreases p.len() - i,
    {
        if s[off + i] != p[i] {
            assert(s@.skip(off as int)[i as int] == s@[off + i]);
            return false;
        }
        i += 1;
    }
    assert(s@.skip(off as int) =~= p@);
    true
}

/// Index of the first occurrence of `c` in `v`, if any.
pub fn find_char(v: &[char], c: char) -> (r: Option<usize>)
    ensures
        match r {
            Some(i) => first_index(v@, c) == i as int,
            None => first_index(v@, c) == -1,
        },
{
    let mut i: usize = 0;
    while i < v.len()
        invariant
            i <= v.len(),
            forall|j: int| 0 <= j < i ==> v@[j] != c,
        decreases v.len() - i,
    {
        if v[i] == c {
            proof {
                lemma_first_index(v@, c, i as int);
            }
            return Some(i);
        }
        i += 1;
    }
    proof {
        lemma_first_index(v@, c, i as int);
    }
    None
}

pub fn contains_char_exec(v: &[char], c: char) -> (r: bool)
    ensures
        r == contains_char(v@, c),
{
    match find_char(v, c) {
        Some(i) => {
            proof {
                lemma_first_index_props(v@, c);
            }
            true
        },
        None => {
            proof {
                lemma_first_index_props(v@, c);
            }
            false
        },
    }
}

/// `strip_eol` of a character slice, as a length: the line without its ending is
/// `v[..result]`.
pub fn strip_eol_len(v: &[char]) -> (r: usize)
    ensures
        r <= v.len(),
        v@.take(r as int) == strip_eol(v@),
{
    let n = v.len();
    if n >= 2 && v[n - 2] == '\r' && v[n - 1] == '\n' {
        n - 2
    } else if n >= 1 && v[n - 1] == '\n' {
        n - 1
    } else {
        assert(v@.take(n as int) == v@);
        n
    }
}

pub fn strip_eol_chars(v: &[char]) -> (res: Vec<char>)
    ensures
        res@ == strip_eol(v@),
{
    let k = strip_eol_len(v);
    sub_chars(v, 0, k)
}

/// Splits `v` after every line feed, keeping line endings.
pub fn split_keep_chars(v: &[char]) -> (res: Vec<Vec<char>>)
    ensures
        res@.map_values(|l: Vec<char>| l@) == split_keep(v@),
{
    let mut out: Vec<Vec<char>> = Vec::new();
    let mut start: usize = 0;
    let mut i: usize = 0;
    while i < v.len()
        invariant
            start <= i <= v.len(),
            v@.take(start as int).len() == 0 || v@.take(start as int).last() == '\n',
            out@.map_values(|l: Vec<char>| l@) == split_keep(v@.take(start as int)),
            forall|j: int| start <= j < i ==> v@[j] != '\n',
        decreases v.len() - i,
    {
        if v[i] == '\n' {
            let piece = sub_chars(v, start, i + 1);
            proof {
                let p = v@.subrange(start as int, i + 1);
                assert forall|j: int| 0 <= j < p.len() - 1 implies p[j] != '\n' by {
                    assert(p[j] == v@[start + j]);
                }
                lemma_split_keep_one_line(p);
                lemma_split_keep_append(v@.take(start as int), p);
                assert(v@.take(start as int) + p == v@.take(i + 1));
            }
            let ghost old_out = out@;
            out.push(piece);
            proof {
                assert(out@.map_values(|l: Vec<char>| l@) == old_out.map_values(|l: Vec<char>| l@)
                    + seq![v@.subrange(start as int, i + 1)]);
            }
            start = i + 1;
        }
        i += 1;
    }
    if start < v.len() {
        let piece = sub_chars(v, start, v.len());
        proof {
            let p = v@.subrange(start as int, v.len() as int);
            assert forall|j: int| 0 <= j < p.len() implies p[j] != '\n' by {
                assert(p[j] == v@[start + j]);
            }
            lemma_split_keep_no_newline(p);
            lemma_split_keep_append(v@.take(start as int), p);
            assert(v@.take(start as int) + p == v@);
        }
        let ghost old_out = out@;
        out.push(piece);
        proof {
            assert(out@.map_values(|l: Vec<char>| l@) == old_out.map_values(|l: Vec<char>| l@)
                + seq![v@.subrange(start as int, v.len() as int)]);
        }
    } else {
        assert(v@.take(start as int) == v@);
    }
    out
}

/// `str::lines`, as character vectors.
pub fn lines_chars(s: &str) -> (res: Vec<Vec<char>>)
    ensures
        res@.map_values(|l: Vec<char>| l@) == lines_of(s@),
{
    let v = str_chars(s);
    let pieces = split_keep_chars(v.as_slice());
    let mut out: Vec<Vec<char>> = Vec::new();
    let mut i: usize = 0;
    while i < pieces.len()
        invariant
            i <= pieces.len(),
            pieces@.map_values(|l: Vec<char>| l@) == split_keep(s@),
            out.len() == i,
            forall|j: int| 0 <= j < i ==> #[trigger] out@[j]@ == strip_eol(split_keep(s@)[j]),
        decreases pieces.len() - i,
    {
        let l = strip_eol_chars(pieces[i].as_slice());
        proof {
            assert(pieces@.map_values(|l: Vec<char>| l@)[i as int] == pieces@[i as int]@);
        }
        out.push(l);
        i += 1;
    }
    proof {
        assert(pieces@.map_values(|l: Vec<char>| l@).len() == pieces.len());
        assert(out@.map_values(|l: Vec<char>| l@) =~= lines_of(s@));
    }
    out
}

pub fn lower_char_exec(c: char) -> (r: char)
    ensures
        r == lower_char(c),
{
    if 'A' <= c && c <= 'Z' {
        let u = (c as u32) + 32;
        char_from_ascii(u)
    } else {
        c
    }
}

pub fn upper_char_exec(c: char) -> (r: char)
    ensures
        r == upper_char(c),
{
    if 'a' <= c && c <= 'z' {
        let u = (c as u32) - 32;
        char_from_ascii(u)
    } else {
        c
    }
}

/// The character with ASCII code `u`.
fn char_from_ascii(u: u32) -> (c: char)
    requires
        u < 128,
    ensures
        c as u32 == u,
{
    let b: u8 = u as u8;
    b as char
}

/// `str::to_ascii_lowercase`, as characters.
pub fn ascii_lower_chars(v: &[char]) -> (res: Vec<char>)
    ensures
        res@ == ascii_lower(v@),
{
    let mut out: Vec<char> = Vec::new();
    let mut i: usize = 0;
    while i < v.len()
        invariant
            i <= v.len(),
            out@ == ascii_lower(v@.take(i as int)),
        decreases v.len() - i,
    {
        out.push(lower_char_exec(v[i]));
        assert(v@.take(i + 1) == v@.take(i as int).push(v@[i as int]));
        assert(ascii_lower(v@.take(i + 1)) =~= ascii_lower(v@.take(i as int)).push(
            lower_char(v@[i as int]),
        ));
        i += 1;
    }
    assert(v@.take(v.len() as int) == v@);
    out
}

/// `str::to_ascii_uppercase`, as characters.
pub fn ascii_upper_chars(v: &[char]) -> (res: Vec<char>)
    ensures
        res@ == ascii_upper(v@),
{
    let mut out: Vec<char> = Vec::new();
    let mut i: usize = 0;
    while i < v.len()
        invariant
            i <= v.len(),
            out@ == ascii_upper(v@.take(i as int)),
        decreases v.len() - i,
    {
        out.push(upper_char_exec(v[i]));
        assert(v@.take(i + 1) == v@.take(i as int).push(v@[i as int]));
        assert(ascii_upper(v@.take(i + 1)) =~= ascii_upper(v@.take(i as int)).push(
            upper_char(v@[i as int]),
        ));
        i += 1;
    }
    assert(v@.take(v.len() as int) == v@);
    out
}

/// Parses an unsigned decimal number no larger than `max`, as `str::parse::<uN>` does.
pub fn parse_unsigned_chars(v: &[char], max: u64) -> (r: Option<u64>)
    ensures
        match r {
            Some(n) => parse_unsigned(v@, max as nat) == Some(n as nat),
            None => parse_unsigned(v@, max as nat) is None,
        },
{
    let start: usize = if v.len() > 0 && v[0] == '+' {
        1
    } else {
        0
    };
    let ghost body = unsigned_body(v@);
    assert(body == v@.skip(start as int));
    if start >= v.len() {
        return None;
    }
    let mut acc: u64 = 0;
    let mut i = start;
    while i < v.len()
        invariant
            start <= i <= v.len(),
            body == v@.skip(start as int),
            body == unsigned_body(v@),
            all_digits(v@.subrange(start as int, i as int)),
            acc as nat == digits_value(v@.subrange(start as int, i as int)),
            acc <= max,
        decreases v.len() - i,
    {
        let c = v[i];
        proof {
            assert(v@.subrange(start as int, i + 1) == v@.subrange(start as int, i as int).push(c));
            lemma_digits_value_push(v@.subrange(start as int, i as int), c);
        }
        if !('0' <= c && c <= '9') {
            proof {
                assert(body[i - start] == c);
                assert(!is_digit(body[i - start]));
                assert(!all_digits(body));
                assert(body.len() > 0);
                assert(parse_unsigned(v@, max as nat) is None);
            }
            return None;
        }
        let d = (c as u32 - '0' as u32) as u64;
        if d > max || acc > (max - d) / 10 {
            proof {
                assert(acc * 10 + d > max) by (nonlinear_arith)
                    requires
                        d > max || acc > (max - d) / 10,
                        d <= max ==> (max - d) / 10 * 10 + 10 > max - d,
                ;
                // every longer prefix has at least this value
                lemma_digits_prefix_grows(v@.subrange(start as int, v.len() as int), (i + 1
                    - start) as int);
                assert(v@.subrange(start as int, v.len() as int).take((i + 1 - start) as int)
                    == v@.subrange(start as int, i + 1));
                assert(v@.subrange(start as int, v.len() as int) == body);
            }
            return None;
        }
        proof {
            assert(acc * 10 + d <= max) by (nonlinear_arith)
                requires
                    acc <= (max - d) / 10,
                    d <= 9,
                    d <= max,
            ;
        }
        acc = acc * 10 + d;
        i += 1;
    }
    assert(v@.subrange(start as int, v.len() as int) == body);
    Some(acc)
}

/// The value of a run of digits is at least the value of any of its prefixes.
pub proof fn lemma_digits_prefix_grows(s: Seq<char>, k: int)
    requires
        0 <= k <= s.len(),
    ensures
        digits_value(s) >= digits_value(s.take(k)),
    decreases s.len(),
{
    if k < s.len() {
        lemma_digits_prefix_grows(s.drop_last(), k);
        assert(s.drop_last().take(k) == s.take(k));
        assert(digits_value(s) == digits_value(s.drop_last()) * 10 + digit_val(s.last()));
        assert(digits_value(s.drop_last()) * 10 >= digits_value(s.drop_last())) by (nonlinear_arith);
    } else {
        assert(s.take(k) == s);
    }
}

/// Bytes of `c` in UTF-8.
pub open spec fn char_utf8_len(c: char) -> nat {
    if (c as u32) < 0x80 {
        1
    } else if (c as u32) < 0x800 {
        2
    } else if (c as u32) < 0x10000 {
        3
    } else {
        4
    }
}

/// Bytes of `s` in UTF-8.
pub open spec fn utf8_len(s: Seq<char>) -> nat
    decreases s.len(),
{
    if s.len() == 0 {
        0
    } else {
        utf8_len(s.drop_last()) + char_utf8_len(s.last())
    }
}

pub fn char_utf8_len_exec(c: char) -> (r: u8)
    ensures
        r as nat == char_utf8_len(c),
{
    let u = c as u32;
    if u < 0x80 {
        1
    } else if u < 0x800 {
        2
    } else if u < 0x10000 {
        3
    } else {
        4
    }
}

pub proof fn lemma_utf8_len_bounds(s: Seq<char>)
    ensures
        utf8_len(s) <= 4 * s.len(),
    decreases s.len(),
{
    if s.len() > 0 {
        lemma_utf8_len_bounds(s.drop_last());
    }
}

pub proof fn lemma_utf8_len_split(s: Seq<char>, k: int)
    requires
        0 <= k <= s.len(),
    ensures
        utf8_len(s) == utf8_len(s.take(k)) + utf8_len(s.skip(k)),
    decreases s.len(),
{
    if k == s.len() {
        assert(s.take(k) =~= s);
        assert(s.skip(k) =~= Seq::<char>::empty());
    } else {
        lemma_utf8_len_split(s.drop_last(), k);
        assert(s.drop_last().take(k) =~= s.take(k));
        assert(s.drop_last().skip(k) =~= s.skip(k).drop_last());
    }
}

} // verus!

//! Just enough of `platformio.ini` for the environment picker and for single-valued
//! lookups: `[env:*]` section names, and `key = value` reads with `[env]` fallback.
use crate::text::{
    append_str, ascii_lower, chars_eq, find_char, first_index, lemma_first_index_props, lines_chars,
    lines_of, starts_with, starts_with_str, str_chars, string_from_chars, strings_view, sub_chars, trim,
    trim_chars,
};
use vstd::prelude::*;

verus! {

/// `Some(inner)` when the trimmed line is `[inner]`.
pub open spec fn bracket_inner(line: Seq<char>) -> Option<Seq<char>> {
    let t = trim(line);
    if t.len() >= 2 && t[0] == '[' && t[t.len() - 1] == ']' {
        Some(t.subrange(1, t.len() - 1))
    } else {
        None
    }
}

/// The env name a line declares, if it is an `[env:NAME]` header.
pub open spec fn env_name_of_line(line: Seq<char>) -> Option<Seq<char>> {
    match bracket_inner(line) {
        Some(inner) => if starts_with(inner, "env:"@) {
            Some(trim(inner.skip(4)))
        } else {
            None
        },
        None => None,
    }
}

/// The non-empty `[env:NAME]` names of `lines`, in order of first appearance, without
/// repeats.
pub open spec fn env_names_of(lines: Seq<Seq<char>>) -> Seq<Seq<char>>
    decreases lines.len(),
{
    if lines.len() == 0 {
        Seq::empty()
    } else {
        let prev = env_names_of(lines.drop_last());
        match env_name_of_line(lines.last()) {
            Some(n) => if n.len() > 0 && !prev.contains(n) {
                prev.push(n)
            } else {
                prev
            },
            None => prev,
        }
    }
}

fn bracket_inner_exec(line: &[char]) -> (r: Option<Vec<char>>)
    ensures
        match r {
            Some(v) => bracket_inner(line@) == Some(v@),
            None => bracket_inner(line@) is None,
        },
{
    let t = trim_chars(line);
    let n = t.len();
    if n >= 2 && t[0] == '[' && t[n - 1] == ']' {
        Some(sub_chars(t.as_slice(), 1, n - 1))
    } else {
        None
    }
}

fn env_name_of_line_exec(line: &[char]) -> (r: Option<Vec<char>>)
    ensures
        match r {
            Some(v) => env_name_of_line(line@) == Some(v@),
            None => env_name_of_line(line@) is None,
        },
{
    match bracket_inner_exec(line) {
        Some(inner) => {
            if starts_with_str(inner.as_slice(), "env:") {
                proof {
                    reveal_strlit("env:");
                }
                let rest = sub_chars(inner.as_slice(), 4, inner.len());
                assert(rest@ == inner@.skip(4));
                Some(trim_chars(rest.as_slice()))
            } else {
                None
            }
        },
        None => None,
    }
}

fn contains_chars(names: &Vec<Vec<char>>, n: &[char]) -> (r: bool)
    ensures
        r == names@.map_values(|v: Vec<char>| v@).contains(n@),
{
    let mut i: usize = 0;
    while i < names.len()
        invariant
            i <= names.len(),
            forall|j: int| 0 <= j < i ==> names@[j]@ != n@,
        decreases names.len() - i,
    {
        if chars_eq(names[i].as_slice(), n) {
            assert(names@.map_values(|v: Vec<char>| v@)[i as int] == n@);
            return true;
        }
        i += 1;
    }
    proof {
        let m = names@.map_values(|v: Vec<char>| v@);
        assert forall|j: int| 0 <= j < m.len() implies #[trigger] m[j] != n@ by {
            assert(m[j] == names@[j]@);
        }
    }
    false
}

/// The `[env:NAME]` section names in file order, de-duplicated. Comments, blank lines and
/// other sections are ignored.
pub fn list_env_names(ini_text: &str) -> (r: Vec<String>)
    ensures
        strings_view(r@) == env_names_of(lines_of(ini_text@)),
{
    let lines = lines_chars(ini_text);
    let ghost ls = lines_of(ini_text@);
    let mut names: Vec<Vec<char>> = Vec::new();
    let mut i: usize = 0;
    while i < lines.len()
        invariant
            i <= lines.len(),
            lines@.map_values(|l: Vec<char>| l@) == ls,
            names@.map_values(|v: Vec<char>| v@) == env_names_of(ls.take(i as int)),
        decreases lines.len() - i,
    {
        proof {
            assert(ls.take(i + 1).drop_last() == ls.take(i as int));
            assert(ls.take(i + 1).last() == lines@[i as int]@);
        }
        if let Some(name) = env_name_of_line_exec(lines[i].as_slice()) {
            if name.len() > 0 && !contains_chars(&names, name.as_slice()) {
                let ghost prev = names@.map_values(|v: Vec<char>| v@);
                names.push(name);
                assert(names@.map_values(|v: Vec<char>| v@) =~= prev.push(name@));
            }
        }
        i += 1;
    }
    assert(ls.take(lines.len() as int) == ls);
    let mut out: Vec<String> = Vec::new();
    let mut k: usize = 0;
    while k < names.len()
        invariant
            k <= names.len(),
            out.len() == k,
            forall|j: int| 0 <= j < k ==> #[trigger] out@[j]@ == names@[j]@,
        decreases names.len() - k,
    {
        out.push(string_from_chars(names[k].as_slice()));
        k += 1;
    }
    assert(strings_view(out@) =~= names@.map_values(|v: Vec<char>| v@));
    out
}

/// The trimmed key and value of a line holding `=`, split at the first `=`.
pub open spec fn split_kv(t: Seq<char>) -> Option<(Seq<char>, Seq<char>)> {
    let k = first_index(t, '=');
    if k < 0 {
        None
    } else {
        Some((trim(t.take(k)), trim(t.skip(k + 1))))
    }
}

/// Reads `key` from lines `i..`, `in_section` telling whether line `i` lies inside the
/// wanted section. The first matching line wins.
pub open spec fn read_from(ls: Seq<Seq<char>>, i: int, in_section: bool, section: Seq<char>, key: Seq<
    char,
>) -> Option<Seq<char>>
    decreases ls.len() - i,
{
    if i < 0 || i >= ls.len() {
        None
    } else {
        let t = trim(ls[i]);
        match bracket_inner(ls[i]) {
            Some(name) => read_from(ls, i + 1, trim(name) == section, section, key),
            None => if !in_section {
                read_from(ls, i + 1, in_section, section, key)
            } else {
                match split_kv(t) {
                    Some((k, v)) => if k == key {
                        Some(v)
                    } else {
                        read_from(ls, i + 1, in_section, section, key)
                    },
                    None => read_from(ls, i + 1, in_section, section, key),
                }
            },
        }
    }
}

/// The value of the first `key = value` line inside the first section named `section`
/// that has one, reading the text line by line.
pub open spec fn read_value_spec(text: Seq<char>, section: Seq<char>, key: Seq<char>) -> Option<Seq<char>> {
    read_from(lines_of(text), 0, false, section, key)
}

fn split_kv_exec(t: &[char]) -> (r: Option<(Vec<char>, Vec<char>)>)
    ensures
        match r {
            Some((k, v)) => split_kv(t@) == Some((k@, v@)),
            None => split_kv(t@) is None,
        },
{
    match find_char(t, '=') {
        Some(k) => {
            proof {
                lemma_first_index_props(t@, '=');
            }
            assert(k < t.len());
            let a = sub_chars(t, 0, k);
            let b = sub_chars(t, k + 1, t.len());
            assert(a@ == t@.take(k as int));
            assert(b@ == t@.skip(k + 1));
            Some((trim_chars(a.as_slice()), trim_chars(b.as_slice())))
        },
        None => None,
    }
}

fn read_value_chars(ini_text: &str, section: &[char], key: &[char]) -> (r: Option<String>)
    ensures
        match r {
            Some(s) => read_value_spec(ini_text@, section@, key@) == Some(s@),
            None => read_value_spec(ini_text@, section@, key@) is None,
        },
{
    let lines = lines_chars(ini_text);
    let ghost ls = lines_of(ini_text@);
    let mut in_section = false;
    let mut i: usize = 0;
    while i < lines.len()
        invariant
            i <= lines.len(),
            lines@.map_values(|l: Vec<char>| l@) == ls,
            read_from(ls, i as int, in_section, section@, key@) == read_value_spec(ini_text@, section@, key@),
        decreases lines.len() - i,
    {
        let line = &lines[i];
        assert(ls[i as int] == line@);
        let t = trim_chars(line.as_slice());
        if let Some(name) = bracket_inner_exec(line.as_slice()) {
            let tn = trim_chars(name.as_slice());
            in_section = chars_eq(tn.as_slice(), section);
            i += 1;
            continue;
        }
        if !in_section {
            i += 1;
            continue;
        }
        if let Some((k, v)) = split_kv_exec(t.as_slice()) {
            if chars_eq(k.as_slice(), key) {
                return Some(string_from_chars(v.as_slice()));
            }
        }
        i += 1;
    }
    None
}

/// Reads a single `key = value` out of one `[section]` (exact name match). Single-valued
/// only: continuation lines are not read.
pub fn read_value(ini_text: &str, section: &str, key: &str) -> (r: Option<String>)
    ensures
        match r {
            Some(s) => read_value_spec(ini_text@, section@, key@) == Some(s@),
            None => read_value_spec(ini_text@, section@, key@) is None,
        },
{
    let s = str_chars(section);
    let k = str_chars(key);
    read_value_chars(ini_text, s.as_slice(), k.as_slice())
}

/// `key` from `[env:<env_name>]`, else from the generic `[env]` section.
pub open spec fn read_with_fallback_spec(text: Seq<char>, env_name: Seq<char>, key: Seq<char>) -> Option<Seq<char>> {
    match read_value_spec(text, "env:"@ + env_name, key) {
        Some(v) => Some(v),
        None => read_value_spec(text, "env"@, key),
    }
}

/// Reads `key` from `[env:<env_name>]`, falling back to the generic `[env]` section: an
/// env's own value always wins over the inherited one.
pub fn read_value_with_fallback(ini_text: &str, env_name: &str, key: &str) -> (r: Option<String>)
    ensures
        match r {
            Some(s) => read_with_fallback_spec(ini_text@, env_name@, key@) == Some(s@),
            None => read_with_fallback_spec(ini_text@, env_name@, key@) is None,
        },
{
    let mut sec = str_chars("env:");
    append_str(&mut sec, env_name);
    let k = str_chars(key);
    match read_value_chars(ini_text, sec.as_slice(), k.as_slice()) {
        Some(v) => Some(v),
        None => {
            let e = str_chars("env");
            read_value_chars(ini_text, e.as_slice(), k.as_slice())
        },
    }
}

} // verus!

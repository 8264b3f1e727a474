//! `pio settings`: argument vectors, and the padded text table that `pio settings get`
//! prints (no JSON form exists). Setting names are read from the table itself.
use crate::diag::parser::group_text;
use crate::textops::{find_header, header_index};
use crate::matching::{captures_view, opt_view, regex_captures, regex_captures_result, regex_find, regex_find_result};
use crate::text::{
    lines_chars, lines_of, starts_with, str_chars, str_to_string, string_from_chars, strings_from, strings_view,
    trim, trim_chars, trim_start, trim_start_chars, starts_with_str,
};
use vstd::prelude::*;

verus! {

#[derive(Debug, Clone, PartialEq)]
pub struct PioSetting {
    pub name: String,
    pub current_value: String,
    /// Known only when the value column shows a `[default]` suffix.
    pub default_value: Option<String>,
    pub description: String,
}

/// Two or more whitespace characters separate the table's columns.
pub const COLUMN_SEP: &'static str = r"\s{2,}";

pub const BRACKETED_DEFAULT: &'static str = r"^(?P<current>.*\S)\s*\[(?P<default>.*)\]$";

/// The three columns of a trimmed row: the text before the first separator, the text
/// between the first two, and the rest.
pub open spec fn split3_spec(line: Seq<char>) -> Option<(Seq<char>, Seq<char>, Seq<char>)> {
    let r0 = trim(line);
    match regex_find_result(COLUMN_SEP@, r0) {
        None => None,
        Some((a, m)) => {
            let r1 = r0.skip((a.len() + m.len()) as int);
            match regex_find_result(COLUMN_SEP@, r1) {
                None => None,
                Some((b, m2)) => Some((a, b, r1.skip((b.len() + m2.len()) as int))),
            }
        },
    }
}

/// The value column's current value and, when it ends in `[...]`, the default inside the
/// brackets; given the bracketed-default pattern's match on the column.
pub open spec fn value_default_spec(column: Seq<char>, caps: Option<Seq<Option<Seq<char>>>>) -> (Seq<char>, Option<Seq<char>>) {
    match caps {
        Some(c) => (group_text(c, 1), Some(group_text(c, 2))),
        None => (trim(column), None),
    }
}

/// A setting, by its fields' text.
pub type PioSettingModel = (Seq<char>, Seq<char>, Option<Seq<char>>, Seq<char>);

pub open spec fn setting_model(s: PioSetting) -> PioSettingModel {
    (s.name@, s.current_value@, opt_view(s.default_value), s.description@)
}

/// The setting of one table row: nothing for a blank row or one without three columns.
pub open spec fn row_setting(row: Seq<char>) -> Option<PioSettingModel> {
    if trim(row).len() == 0 {
        None
    } else {
        match split3_spec(row) {
            None => None,
            Some((name, value, description)) => {
                let (cur, def) = value_default_spec(value, regex_captures_result(BRACKETED_DEFAULT@, value));
                Some((trim(name), cur, def, trim(description)))
            },
        }
    }
}

pub open spec fn row_settings(rows: Seq<Seq<char>>) -> Seq<PioSettingModel>
    decreases rows.len(),
{
    if rows.len() == 0 {
        Seq::empty()
    } else {
        match row_setting(rows.last()) {
            Some(m) => row_settings(rows.drop_last()).push(m),
            None => row_settings(rows.drop_last()),
        }
    }
}

/// The rows after the header and its dashed separator row, each read as a setting.
pub open spec fn settings_table_spec(text: Seq<char>) -> Seq<PioSettingModel> {
    let lines = lines_of(text);
    let h = header_index(lines, "Name"@, 0);
    if h < 0 || h + 2 >= lines.len() {
        Seq::empty()
    } else {
        row_settings(lines.skip(h + 2))
    }
}

/// The current value and bracketed default of a value column, from the bracketed-default
/// pattern's match on it (group 0 first).
pub fn split_value_and_default_captures(column: &str, caps: Option<Vec<Option<String>>>) -> (r: (String, Option<String>))
    ensures
        (r.0@, opt_view(r.1)) == value_default_spec(column@, captures_view(caps)),
{
    match caps {
        Some(c) => {
            let cur = group_string(&c, 1);
            let def = group_string(&c, 2);
            (cur, Some(def))
        },
        None => {
            let t = trim_chars(str_chars(column).as_slice());
            (string_from_chars(t.as_slice()), None)
        },
    }
}

fn group_string(c: &Vec<Option<String>>, i: usize) -> (r: String)
    ensures
        r@ == group_text(c@.map_values(|g: Option<String>| opt_view(g)), i as int),
{
    if i < c.len() {
        match &c[i] {
            Some(s) => s.clone(),
            None => string_from_chars(&[]),
        }
    } else {
        string_from_chars(&[])
    }
}

/// The current value and, when the column ends in `[...]`, the default.
pub fn split_value_and_default(column: &str) -> (r: (String, Option<String>))
    ensures
        (r.0@, opt_view(r.1)) == value_default_spec(column@, regex_captures_result(BRACKETED_DEFAULT@, column@)),
{
    let caps = regex_captures(BRACKETED_DEFAULT, column);
    split_value_and_default_captures(column, caps)
}

fn split3(line: &str) -> (r: Option<(String, String, String)>)
    ensures
        match r {
            Some((a, b, c)) => split3_spec(line@) == Some((a@, b@, c@)),
            None => split3_spec(line@) is None,
        },
{
    let r0 = trim_chars(str_chars(line).as_slice());
    let r0s = string_from_chars(r0.as_slice());
    match regex_find(COLUMN_SEP, r0s.as_str()) {
        None => None,
        Some((a, m)) => {
            let n0 = r0.len();
            let la = a.as_str().unicode_len();
            let lm = m.as_str().unicode_len();
            assert(la + lm <= n0);
            let k = la + lm;
            let r1 = crate::text::sub_chars(r0.as_slice(), k, r0.len());
            let r1s = string_from_chars(r1.as_slice());
            match regex_find(COLUMN_SEP, r1s.as_str()) {
                None => None,
                Some((b, m2)) => {
                    let n1 = r1.len();
                    let lb = b.as_str().unicode_len();
                    let lm2 = m2.as_str().unicode_len();
                    assert(lb + lm2 <= n1);
                    let k2 = lb + lm2;
                    let rest = crate::text::sub_chars(r1.as_slice(), k2, r1.len());
                    Some((a, b, string_from_chars(rest.as_slice())))
                },
            }
        },
    }
}

/// The settings of `pio settings get`'s table, in table order. Without a header row the
/// list is empty; blank rows and rows without three columns are skipped.
pub fn parse_settings_get(text: &str) -> (r: Vec<PioSetting>)
    ensures
        r@.map_values(|s: PioSetting| setting_model(s)) == settings_table_spec(text@),
{
    let lines = lines_chars(text);
    let ghost ls = lines_of(text@);
    proof {
        assert(lines@.map_values(|l: Vec<char>| l@).len() == lines@.len());
    }
    let h = find_header(&lines, "Name");
    let mut out: Vec<PioSetting> = Vec::new();
    if h >= lines.len() || lines.len() - h <= 2 {
        assert(out@.map_values(|s: PioSetting| setting_model(s)) =~= Seq::<PioSettingModel>::empty());
        return out;
    }
    let ghost rows = ls.skip(h + 2);
    let mut i: usize = h + 2;
    while i < lines.len()
        invariant
            h + 2 <= i <= lines@.len(),
            lines@.map_values(|l: Vec<char>| l@) == ls,
            rows == ls.skip(h + 2),
            out@.map_values(|s: PioSetting| setting_model(s)) == row_settings(rows.take(i - h - 2)),
        decreases lines@.len() - i,
    {
        let row = string_from_chars(lines[i].as_slice());
        proof {
            assert(lines@.map_values(|l: Vec<char>| l@)[i as int] == lines@[i as int]@);
            let t = rows.take(i - h - 2 + 1);
            assert(t.drop_last() =~= rows.take(i - h - 2));
            assert(t.last() == ls[i as int]);
        }
        let trimmed = trim_chars(lines[i].as_slice());
        if trimmed.len() > 0 {
            match split3(row.as_str()) {
                None => {},
                Some((name, value, description)) => {
                    let (current_value, default_value) = split_value_and_default(value.as_str());
                    let n = trim_chars(str_chars(name.as_str()).as_slice());
                    let d = trim_chars(str_chars(description.as_str()).as_slice());
                    let s = PioSetting {
                        name: string_from_chars(n.as_slice()),
                        current_value,
                        default_value,
                        description: string_from_chars(d.as_slice()),
                    };
                    let ghost o0 = out@.map_values(|s: PioSetting| setting_model(s));
                    out.push(s);
                    assert(out@.map_values(|s: PioSetting| setting_model(s)) =~= o0.push(setting_model(s)));
                },
            }
        }
        i += 1;
    }
    assert(rows.take(lines@.len() - h - 2) =~= rows);
    out
}

/// `pio settings get`.
pub fn get_args() -> (r: Vec<String>)
    ensures
        strings_view(r@) == seq!["settings"@, "get"@],
{
    let r = strings_from(&["settings", "get"]);
    assert(strings_view(r@) =~= seq!["settings"@, "get"@]);
    r
}

/// `pio settings set <name> <value>`.
pub fn set_args(name: &str, value: &str) -> (r: Vec<String>)
    ensures
        strings_view(r@) == seq!["settings"@, "set"@, name@, value@],
{
    let r = strings_from(&["settings", "set", name, value]);
    assert(strings_view(r@) =~= seq!["settings"@, "set"@, name@, value@]);
    r
}

} // verus!

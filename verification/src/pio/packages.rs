//! `pio pkg`: install, uninstall, list and outdated argument vectors, and the text outputs
//! of `pio pkg list` (a tree: the platform, its nested packages, then a `Libraries`
//! section) and `pio pkg outdated` (a padded table), which have no JSON form.
use crate::text::{set_str, push_str, push_string, strings_from, str_to_string, strings_view};
use crate::diag::parser::{group, group_text};
use crate::matching::{captures_view, opt_view, regex_captures, regex_captures_result, regex_split, regex_split_result};
use crate::text::{
    lines_chars, lines_of, starts_with, starts_with_str, str_chars, str_eq_chars, string_from_chars, sub_chars,
    trim, trim_chars,
};
use crate::textops::{find_header, header_index, words, words_chars};
use vstd::prelude::*;

verus! {

#[derive(Debug, Clone, Copy, PartialEq, Eq)]
pub enum PkgKind {
    Platform,
    Tool,
    Library,
}

pub open spec fn pkg_flag(k: PkgKind) -> Seq<char> {
    match k {
        PkgKind::Platform => "-p"@,
        PkgKind::Tool => "-t"@,
        PkgKind::Library => "-l"@,
    }
}

impl PkgKind {
    /// The `pio pkg` flag that selects this kind: `-p`, `-t` or `-l`.
    pub fn flag(self) -> (r: &'static str)
        ensures
            r@ == pkg_flag(self),
    {
        match self {
            PkgKind::Platform => "-p",
            PkgKind::Tool => "-t",
            PkgKind::Library => "-l",
        }
    }
}

#[derive(Debug, Clone, PartialEq)]
pub struct InstalledPackage {
    pub name: String,
    pub version: String,
    pub required_spec: Option<String>,
    pub kind: PkgKind,
}

#[derive(Debug, Clone, PartialEq)]
pub struct OutdatedPackage {
    pub name: String,
    pub current: String,
    pub wanted: String,
    pub latest: String,
    pub kind: String,
    pub environments: Vec<String>,
}

/// `pio pkg install -d <dir> -e <env> <flag> <spec>`.
pub fn install_args(dir: &str, env: &str, kind: PkgKind, spec: &str) -> (r: Vec<String>)
    ensures
        strings_view(r@) == seq!["pkg"@, "install"@, "-d"@, dir@, "-e"@, env@, pkg_flag(kind), spec@],
{
    let r = strings_from(&["pkg", "install", "-d", dir, "-e", env, kind.flag(), spec]);
    assert(strings_view(r@) =~= seq!["pkg"@, "install"@, "-d"@, dir@, "-e"@, env@, pkg_flag(kind), spec@]);
    r
}

/// The install arguments with `install` swapped for `uninstall`.
pub fn uninstall_args(dir: &str, env: &str, kind: PkgKind, spec: &str) -> (r: Vec<String>)
    ensures
        strings_view(r@) == seq!["pkg"@, "uninstall"@, "-d"@, dir@, "-e"@, env@, pkg_flag(kind), spec@],
{
    let mut args = install_args(dir, env, kind, spec);
    assert(strings_view(args@).len() == args@.len());
    set_str(&mut args, 1, "uninstall");
    assert(strings_view(args@) =~= seq!["pkg"@, "uninstall"@, "-d"@, dir@, "-e"@, env@, pkg_flag(kind), spec@]);
    args
}

/// `pio pkg list -d <dir> -e <env>`.
pub fn list_args(dir: &str, env: &str) -> (r: Vec<String>)
    ensures
        strings_view(r@) == seq!["pkg"@, "list"@, "-d"@, dir@, "-e"@, env@],
{
    let r = strings_from(&["pkg", "list", "-d", dir, "-e", env]);
    assert(strings_view(r@) =~= seq!["pkg"@, "list"@, "-d"@, dir@, "-e"@, env@]);
    r
}

/// `pio pkg outdated -d <dir> -e <env>`.
pub fn outdated_args(dir: &str, env: &str) -> (r: Vec<String>)
    ensures
        strings_view(r@) == seq!["pkg"@, "outdated"@, "-d"@, dir@, "-e"@, env@],
{
    let r = strings_from(&["pkg", "outdated", "-d", dir, "-e", env]);
    assert(strings_view(r@) =~= seq!["pkg"@, "outdated"@, "-d"@, dir@, "-e"@, env@]);
    r
}

/// A `name @ version` row, with an optional `(required: spec)`, after an optional tree
/// branch.
pub const ROW: &'static str = r"^(?:[├└]──\s+)?(?P<name>.+?)\s+@\s+(?P<version>\S+)(?:\s+\(required:\s*(?P<spec>.+)\))?$";

/// Two or more whitespace characters separate table columns.
pub const COLUMN_SEP: &'static str = r"\s{2,}";

/// A package: name, version, required spec, kind.
pub type InstalledModel = (Seq<char>, Seq<char>, Option<Seq<char>>, PkgKind);

pub open spec fn installed_model(p: InstalledPackage) -> InstalledModel {
    (p.name@, p.version@, opt_view(p.required_spec), p.kind)
}

/// The package of a row's match, of the given kind.
pub open spec fn row_package(c: Seq<Option<Seq<char>>>, kind: PkgKind) -> InstalledModel {
    (trim(group_text(c, 1)), group_text(c, 2), group(c, 3), kind)
}

/// The packages of the list's lines so far, and the kind of the nested rows that follow
/// (tools, until the `Libraries` heading).
pub open spec fn pkg_list_fold(lines: Seq<Seq<char>>) -> (Seq<InstalledModel>, PkgKind)
    decreases lines.len(),
{
    if lines.len() == 0 {
        (Seq::empty(), PkgKind::Tool)
    } else {
        let (out, nested) = pkg_list_fold(lines.drop_last());
        let t = trim(lines.last());
        if t.len() == 0 || starts_with(t, "Resolving "@) {
            (out, nested)
        } else if t == "Libraries"@ {
            (out, PkgKind::Library)
        } else if starts_with(t, "Platform "@) {
            match regex_captures_result(ROW@, t.skip(9)) {
                Some(c) => (out.push(row_package(c, PkgKind::Platform)), nested),
                None => (out, nested),
            }
        } else {
            match regex_captures_result(ROW@, t) {
                Some(c) => (out.push(row_package(c, nested)), nested),
                None => (out, nested),
            }
        }
    }
}

fn group_string(c: &Vec<Option<String>>, i: usize) -> (r: String)
    ensures
        r@ == group_text(c@.map_values(|g: Option<String>| opt_view(g)), i as int),
{
    if i < c.len() {
        match &c[i] {
            Some(s) => s.clone(),
            None => string_from_chars(&[]),
        }
    } else {
        string_from_chars(&[])
    }
}

/// The package of a row, from the row pattern's match on it (group 0 first).
pub fn package_from_captures(c: &Vec<Option<String>>, kind: PkgKind) -> (r: InstalledPackage)
    ensures
        installed_model(r) == row_package(c@.map_values(|g: Option<String>| opt_view(g)), kind),
{
    let name = group_string(c, 1);
    let name_t = trim_chars(str_chars(name.as_str()).as_slice());
    let spec = if 3 < c.len() {
        match &c[3] {
            Some(s) => Some(s.clone()),
            None => None,
        }
    } else {
        None
    };
    InstalledPackage { name: string_from_chars(name_t.as_slice()), version: group_string(c, 2), required_spec: spec, kind }
}

/// The installed packages listed by `pio pkg list`, in order; lines of any other shape are
/// skipped.
pub fn parse_pkg_list(text: &str) -> (r: Vec<InstalledPackage>)
    ensures
        r@.map_values(|p: InstalledPackage| installed_model(p)) == pkg_list_fold(lines_of(text@)).0,
{
    let lines = lines_chars(text);
    let ghost ls = lines_of(text@);
    let mut out: Vec<InstalledPackage> = Vec::new();
    let mut nested = PkgKind::Tool;
    let mut i: usize = 0;
    while i < lines.len()
        invariant
            i <= lines@.len(),
            lines@.map_values(|l: Vec<char>| l@) == ls,
            (out@.map_values(|p: InstalledPackage| installed_model(p)), nested) == pkg_list_fold(ls.take(i as int)),
        decreases lines@.len() - i,
    {
        proof {
            assert(lines@.map_values(|l: Vec<char>| l@)[i as int] == lines@[i as int]@);
            assert(ls.take(i + 1).drop_last() =~= ls.take(i as int));
            assert(ls.take(i + 1).last() == ls[i as int]);
        }
        let ghost o0 = out@.map_values(|p: InstalledPackage| installed_model(p));
        let t = trim_chars(lines[i].as_slice());
        if t.len() == 0 || starts_with_str(t.as_slice(), "Resolving ") {
        } else if str_eq_chars("Libraries", t.as_slice()) {
            nested = PkgKind::Library;
        } else if starts_with_str(t.as_slice(), "Platform ") {
            proof {
                reveal_strlit("Platform ");
            }
            let rest = sub_chars(t.as_slice(), 9, t.len());
            let rs = string_from_chars(rest.as_slice());
            match regex_captures(ROW, rs.as_str()) {
                Some(c) => {
                    let p = package_from_captures(&c, PkgKind::Platform);
                    out.push(p);
                    assert(out@.map_values(|p: InstalledPackage| installed_model(p)) =~= o0.push(installed_model(p)));
                },
                None => {},
            }
        } else {
            let ts = string_from_chars(t.as_slice());
            match regex_captures(ROW, ts.as_str()) {
                Some(c) => {
                    let p = package_from_captures(&c, nested);
                    out.push(p);
                    assert(out@.map_values(|p: InstalledPackage| installed_model(p)) =~= o0.push(installed_model(p)));
                },
                None => {},
            }
        }
        i += 1;
    }
    proof {
        assert(lines@.map_values(|l: Vec<char>| l@).len() == lines@.len());
        assert(ls.take(lines@.len() as int) =~= ls);
    }
    out
}

/// An outdated package: name, current, wanted, latest, kind, environments.
pub type OutdatedModel = (Seq<char>, Seq<char>, Seq<char>, Seq<char>, Seq<char>, Seq<Seq<char>>);

pub open spec fn outdated_model(p: OutdatedPackage) -> OutdatedModel {
    (p.name@, p.current@, p.wanted@, p.latest@, p.kind@, strings_view(p.environments@))
}

/// The row of a table line's columns: nothing for fewer than six; the sixth is split at
/// whitespace into environments.
pub open spec fn outdated_row(cols: Seq<Seq<char>>) -> Option<OutdatedModel> {
    if cols.len() < 6 {
        None
    } else {
        Some((cols[0], cols[1], cols[2], cols[3], cols[4], words(cols[5])))
    }
}

pub open spec fn outdated_rows(rows: Seq<Seq<char>>) -> Seq<OutdatedModel>
    decreases rows.len(),
{
    if rows.len() == 0 {
        Seq::empty()
    } else {
        let prev = outdated_rows(rows.drop_last());
        let r = rows.last();
        if trim(r).len() == 0 {
            prev
        } else {
            match outdated_row(regex_split_result(COLUMN_SEP@, trim(r))) {
                Some(m) => prev.push(m),
                None => prev,
            }
        }
    }
}

/// The rows after the `Package` header and its dashed separator row.
pub open spec fn outdated_table_spec(text: Seq<char>) -> Seq<OutdatedModel> {
    let lines = lines_of(text);
    let h = header_index(lines, "Package"@, 0);
    if h < 0 || h + 2 >= lines.len() {
        Seq::empty()
    } else {
        outdated_rows(lines.skip(h + 2))
    }
}

/// The package of a table row, from the row's columns (as the column separator splits
/// them).
pub fn outdated_from_columns(cols: &Vec<String>) -> (r: Option<OutdatedPackage>)
    ensures
        match r {
            Some(p) => outdated_row(strings_view(cols@)) == Some(outdated_model(p)),
            None => outdated_row(strings_view(cols@)) is None,
        },
{
    if cols.len() < 6 {
        return None;
    }
    let env_chars = str_chars(cols[5].as_str());
    let ws = words_chars(env_chars.as_slice());
    let mut envs: Vec<String> = Vec::new();
    let mut j: usize = 0;
    while j < ws.len()
        invariant
            j <= ws@.len(),
            ws@.map_values(|w: Vec<char>| w@) == words(cols@[5]@),
            strings_view(envs@) == ws@.map_values(|w: Vec<char>| w@).take(j as int),
        decreases ws@.len() - j,
    {
        let ghost e0 = strings_view(envs@);
        let s = string_from_chars(ws[j].as_slice());
        envs.push(s);
        proof {
            assert(ws@.map_values(|w: Vec<char>| w@)[j as int] == ws@[j as int]@);
            assert(strings_view(envs@) =~= e0.push(ws@[j as int]@));
            assert(ws@.map_values(|w: Vec<char>| w@).take(j + 1) =~= ws@.map_values(|w: Vec<char>| w@).take(j as int).push(ws@[j as int]@));
        }
        j += 1;
    }
    proof {
        assert(ws@.map_values(|w: Vec<char>| w@).len() == ws@.len());
        assert(ws@.map_values(|w: Vec<char>| w@).take(ws@.len() as int) =~= words(cols@[5]@));
    }
    Some(OutdatedPackage {
        name: cols[0].clone(),
        current: cols[1].clone(),
        wanted: cols[2].clone(),
        latest: cols[3].clone(),
        kind: cols[4].clone(),
        environments: envs,
    })
}

/// The outdated packages in `pio pkg outdated`'s table; without a header row (everything
/// up to date) the list is empty.
pub fn parse_pkg_outdated(text: &str) -> (r: Vec<OutdatedPackage>)
    ensures
        r@.map_values(|p: OutdatedPackage| outdated_model(p)) == outdated_table_spec(text@),
{
    let lines = lines_chars(text);
    let ghost ls = lines_of(text@);
    proof {
        assert(lines@.map_values(|l: Vec<char>| l@).len() == lines@.len());
    }
    let h = find_header(&lines, "Package");
    let mut out: Vec<OutdatedPackage> = Vec::new();
    if h >= lines.len() || lines.len() - h <= 2 {
        assert(out@.map_values(|p: OutdatedPackage| outdated_model(p)) =~= Seq::<OutdatedModel>::empty());
        return out;
    }
    let ghost rows = ls.skip(h + 2);
    let mut i: usize = h + 2;
    while i < lines.len()
        invariant
            h + 2 <= i <= lines@.len(),
            lines@.map_values(|l: Vec<char>| l@) == ls,
            rows == ls.skip(h + 2),
            out@.map_values(|p: OutdatedPackage| outdated_model(p)) == outdated_rows(rows.take(i - h - 2)),
        decreases lines@.len() - i,
    {
        proof {
            assert(lines@.map_values(|l: Vec<char>| l@)[i as int] == lines@[i as int]@);
            let t = rows.take(i - h - 2 + 1);
            assert(t.drop_last() =~= rows.take(i - h - 2));
            assert(t.last() == ls[i as int]);
        }
        let trimmed = trim_chars(lines[i].as_slice());
        if trimmed.len() > 0 {
            let ts = string_from_chars(trimmed.as_slice());
            let cols = regex_split(COLUMN_SEP, ts.as_str());
            match outdated_from_columns(&cols) {
                Some(p) => {
                    let ghost o0 = out@.map_values(|p: OutdatedPackage| outdated_model(p));
                    out.push(p);
                    assert(out@.map_values(|p: OutdatedPackage| outdated_model(p)) =~= o0.push(outdated_model(p)));
                },
                None => {},
            }
        }
        i += 1;
    }
    assert(rows.take(lines@.len() - h - 2) =~= rows);
    out
}

} // verus!

//! Which editor to try, in what order, and the arguments that open a workspace, a file, or
//! a file at a line in it.
use crate::text::{push_str, str_chars, str_to_string, string_from_chars, strings_view};
use crate::textops::{decimal, decimal_chars, join_path, join_path_chars, replace_all, replace_chars, words, words_chars};
use vstd::prelude::*;

verus! {

/// Editors looked for on `PATH` when nothing else names one.
pub const KNOWN_EDITORS: [&'static str; 6] = ["code", "cursor", "zed", "subl", "idea", "nvim"];

pub open spec fn known_editors() -> Seq<Seq<char>> {
    seq!["code"@, "cursor"@, "zed"@, "subl"@, "idea"@, "nvim"@]
}

pub open spec fn opt_seq(o: Option<&str>) -> Seq<(Seq<char>, bool)> {
    match o {
        Some(s) => seq![(s@, true)],
        None => Seq::empty(),
    }
}

/// The candidates in resolution order: the explicit setting, `$VISUAL`, `$EDITOR` (each
/// also accepted as a path to an existing file), then the known editors (looked up on
/// `PATH` only).
pub open spec fn editor_candidates_spec(setting: Option<&str>, visual: Option<&str>, editor: Option<&str>) -> Seq<(Seq<char>, bool)> {
    opt_seq(setting) + opt_seq(visual) + opt_seq(editor) + known_editors().map_values(|e: Seq<char>| (e, false))
}

pub open spec fn candidates_view(v: Seq<(String, bool)>) -> Seq<(Seq<char>, bool)> {
    v.map_values(|c: (String, bool)| (c.0@, c.1))
}

fn push_candidate(v: &mut Vec<(String, bool)>, s: &str, as_path: bool)
    ensures
        candidates_view(final(v)@) == candidates_view(old(v)@).push((s@, as_path)),
{
    let ghost c0 = candidates_view(v@);
    v.push((str_to_string(s), as_path));
    assert(candidates_view(v@) =~= c0.push((s@, as_path)));
}

/// The editor commands to try, in order, each with whether an existing file at that path
/// is accepted too.
pub fn editor_candidates(setting: Option<&str>, visual: Option<&str>, editor: Option<&str>) -> (r: Vec<(String, bool)>)
    ensures
        candidates_view(r@) == editor_candidates_spec(setting, visual, editor),
{
    let mut out: Vec<(String, bool)> = Vec::new();
    if let Some(s) = setting {
        push_candidate(&mut out, s, true);
    }
    let ghost c1 = candidates_view(out@);
    if let Some(s) = visual {
        push_candidate(&mut out, s, true);
    }
    let ghost c2 = candidates_view(out@);
    if let Some(s) = editor {
        push_candidate(&mut out, s, true);
    }
    let ghost c3 = candidates_view(out@);
    let known = KNOWN_EDITORS;
    let mut i: usize = 0;
    while i < 6
        invariant
            i <= 6,
            known@ =~= seq!["code", "cursor", "zed", "subl", "idea", "nvim"],
            candidates_view(out@) == c3 + known_editors().take(i as int).map_values(|e: Seq<char>| (e, false)),
        decreases 6 - i,
    {
        assert(known@[i as int]@ == known_editors()[i as int]);
        push_candidate(&mut out, known[i], false);
        assert(known_editors().take(i + 1).map_values(|e: Seq<char>| (e, false))
            =~= known_editors().take(i as int).map_values(|e: Seq<char>| (e, false)).push((known_editors()[i as int], false)));
        i += 1;
    }
    proof {
        assert(known_editors().take(6) =~= known_editors());
        assert(c1 =~= opt_seq(setting));
        assert(c2 =~= opt_seq(setting) + opt_seq(visual));
        assert(c3 =~= opt_seq(setting) + opt_seq(visual) + opt_seq(editor));
    }
    out
}

/// The arguments after the editor: the workspace; or the file in it; or, with a line, the
/// goto template with `{file}` and `{line}` filled in and split at whitespace.
pub open spec fn open_args_spec(workspace: Seq<char>, file: Option<Seq<char>>, line: Option<u32>, template: Seq<char>) -> Seq<Seq<char>> {
    match (file, line) {
        (Some(f), Some(l)) => words(
            replace_all(replace_all(template, "{file}"@, join_path(workspace, f)), "{line}"@, decimal(l as nat)),
        ),
        (Some(f), None) => seq![join_path(workspace, f)],
        (None, _) => seq![workspace],
    }
}

pub fn build_open_args(workspace: &str, file: Option<&str>, line: Option<u32>, goto_template: &str) -> (r: Vec<String>)
    ensures
        strings_view(r@) == open_args_spec(
            workspace@,
            match file {
                Some(f) => Some(f@),
                None => None,
            },
            line,
            goto_template@,
        ),
{
    let ws = str_chars(workspace);
    match file {
        Some(f) => {
            let target = join_path_chars(ws.as_slice(), str_chars(f).as_slice());
            match line {
                Some(l) => {
                    let file_key = str_chars("{file}");
                    let line_key = str_chars("{line}");
                    proof {
                        reveal_strlit("{file}");
                        reveal_strlit("{line}");
                    }
                    let t = str_chars(goto_template);
                    let a = replace_chars(t.as_slice(), file_key.as_slice(), target.as_slice());
                    let d = decimal_chars(l as u64);
                    let b = replace_chars(a.as_slice(), line_key.as_slice(), d.as_slice());
                    let ws_words = words_chars(b.as_slice());
                    let mut out: Vec<String> = Vec::new();
                    let mut i: usize = 0;
                    while i < ws_words.len()
                        invariant
                            i <= ws_words@.len(),
                            strings_view(out@) == ws_words@.map_values(|w: Vec<char>| w@).take(i as int),
                        decreases ws_words@.len() - i,
                    {
                        let ghost o0 = strings_view(out@);
                        let s = string_from_chars(ws_words[i].as_slice());
                        out.push(s);
                        proof {
                            assert(ws_words@.map_values(|w: Vec<char>| w@)[i as int] == ws_words@[i as int]@);
                            assert(strings_view(out@) =~= o0.push(ws_words@[i as int]@));
                            assert(ws_words@.map_values(|w: Vec<char>| w@).take(i + 1)
                                =~= ws_words@.map_values(|w: Vec<char>| w@).take(i as int).push(ws_words@[i as int]@));
                        }
                        i += 1;
                    }
                    proof {
                        assert(ws_words@.map_values(|w: Vec<char>| w@).len() == ws_words@.len());
                        assert(ws_words@.map_values(|w: Vec<char>| w@).take(ws_words@.len() as int) =~= ws_words@.map_values(|w: Vec<char>| w@));
                    }
                    out
                },
                None => {
                    let mut out: Vec<String> = Vec::new();
                    let s = string_from_chars(target.as_slice());
                    out.push(s);
                    assert(strings_view(out@) =~= seq![target@]);
                    out
                },
            }
        },
        None => {
            let mut out: Vec<String> = Vec::new();
            push_str(&mut out, workspace);
            assert(strings_view(out@) =~= seq![workspace@]);
            out
        },
    }
}

} // verus!

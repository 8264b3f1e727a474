//! `pio project init`: project-name validation and the argument vector.
use crate::error::AppError;
use crate::text::{push_str, push_string, strings_from, append_chars, append_str, contains_char, contains_char_exec, str_chars, str_eq, str_to_string, string_from_chars, strings_view};
use vstd::prelude::*;

verus! {

#[derive(Debug, Clone)]
pub struct CreateProjectRequest {
    pub parent_dir: String,
    pub name: String,
    pub board_id: String,
    pub framework: String,
    pub sample_code: bool,
    pub init_git: bool,
    pub generate_claude_md: bool,
    pub extra_options: Vec<(String, String)>,
}

/// `char::is_control`: the Unicode `Cc` category, U+0000..U+001F and U+007F..U+009F.
pub open spec fn is_control(c: char) -> bool {
    (c as u32) <= 0x1f || (0x7f <= (c as u32) && (c as u32) <= 0x9f)
}

/// A project name is refused when it is empty, `.` or `..`, or holds a path separator, a
/// colon or a control character.
pub open spec fn bad_name(name: Seq<char>) -> bool {
    ||| name.len() == 0
    ||| name == "."@
    ||| name == ".."@
    ||| contains_char(name, '/')
    ||| contains_char(name, '\\')
    ||| contains_char(name, ':')
    ||| exists|i: int| 0 <= i < name.len() && is_control(name[i])
}

pub open spec fn bad_name_message(name: Seq<char>) -> Seq<char> {
    seq!['\''] + name + "' is not a valid project name"@
}

pub fn validate_name(name: &str) -> (r: Result<(), AppError>)
    ensures
        match r {
            Ok(()) => !bad_name(name@),
            Err(AppError::Io { message }) => bad_name(name@) && message@ == bad_name_message(name@),
            Err(_) => false,
        },
{
    let v = str_chars(name);
    let mut has_control = false;
    let mut i: usize = 0;
    while i < v.len()
        invariant
            i <= v.len(),
            v@ == name@,
            has_control == exists|j: int| 0 <= j < i && is_control(v@[j]),
        decreases v.len() - i,
    {
        let u = v[i] as u32;
        if u <= 0x1f || (0x7f <= u && u <= 0x9f) {
            has_control = true;
        }
        i += 1;
    }
    let bad = v.len() == 0 || str_eq(name, ".") || str_eq(name, "..") || contains_char_exec(v.as_slice(), '/')
        || contains_char_exec(v.as_slice(), '\\') || contains_char_exec(v.as_slice(), ':') || has_control;
    if bad {
        let mut m: Vec<char> = Vec::new();
        m.push('\'');
        append_chars(&mut m, v.as_slice());
        append_str(&mut m, "' is not a valid project name");
        Err(AppError::Io { message: string_from_chars(m.as_slice()) })
    } else {
        Ok(())
    }
}

pub open spec fn kv(k: Seq<char>, v: Seq<char>) -> Seq<char> {
    k + seq!['='] + v
}

/// The `-O key=value` pairs for the extra options, in order.
pub open spec fn option_args(opts: Seq<(String, String)>) -> Seq<Seq<char>>
    decreases opts.len(),
{
    if opts.len() == 0 {
        Seq::empty()
    } else {
        option_args(opts.drop_last()) + seq!["-O"@, kv(opts.last().0@, opts.last().1@)]
    }
}

/// `pio project init -d <dir> -b <board> [--sample-code] -O framework=<fw>`, then one
/// `-O key=value` per extra option.
pub fn build_init_args(req: &CreateProjectRequest, dir: &str) -> (r: Vec<String>)
    ensures
        strings_view(r@) == seq!["project"@, "init"@, "-d"@, dir@, "-b"@, req.board_id@] + (if req.sample_code {
            seq!["--sample-code"@]
        } else {
            Seq::<Seq<char>>::empty()
        }) + seq!["-O"@, kv("framework"@, req.framework@)] + option_args(req.extra_options@),
{
    let mut args = strings_from(&["project", "init", "-d", dir, "-b", req.board_id.as_str()]);
    if req.sample_code {
        push_str(&mut args, "--sample-code");
    }
    push_str(&mut args, "-O");
    let mut fw = str_chars("framework");
    fw.push('=');
    append_str(&mut fw, req.framework.as_str());
    assert(fw@ =~= kv("framework"@, req.framework@));
    push_string(&mut args, string_from_chars(fw.as_slice()));
    let ghost base = seq!["project"@, "init"@, "-d"@, dir@, "-b"@, req.board_id@] + (if req.sample_code {
        seq!["--sample-code"@]
    } else {
        Seq::<Seq<char>>::empty()
    }) + seq!["-O"@, kv("framework"@, req.framework@)];
    assert(strings_view(args@) =~= base);
    let mut i: usize = 0;
    while i < req.extra_options.len()
        invariant
            i <= req.extra_options.len(),
            strings_view(args@) == base + option_args(req.extra_options@.take(i as int)),
        decreases req.extra_options.len() - i,
    {
        let (k, v) = &req.extra_options[i];
        let ghost prev = strings_view(args@);
        push_str(&mut args, "-O");
        let mut kvv = str_chars(k.as_str());
        kvv.push('=');
        append_str(&mut kvv, v.as_str());
        assert(kvv@ =~= kv(k@, v@));
        push_string(&mut args, string_from_chars(kvv.as_slice()));
        proof {
            let o = req.extra_options@.take(i + 1);
            assert(o.drop_last() == req.extra_options@.take(i as int));
            assert(o.last() == req.extra_options@[i as int]);
            assert(strings_view(args@) =~= prev + seq!["-O"@, kv(k@, v@)]);
        }
        i += 1;
    }
    assert(req.extra_options@.take(req.extra_options.len() as int) == req.extra_options@);
    args
}

/// The new project's directory: the name joined onto the parent directory.
pub fn project_dir(req: &CreateProjectRequest) -> (r: String)
    ensures
        r@ == crate::textops::join_path(req.parent_dir@, req.name@),
{
    let v = crate::textops::join_path_chars(str_chars(req.parent_dir.as_str()).as_slice(), str_chars(req.name.as_str()).as_slice());
    string_from_chars(v.as_slice())
}

} // verus!

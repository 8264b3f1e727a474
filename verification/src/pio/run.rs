//! `pio run` argument vectors.
use crate::text::{push_str, strings_from, strings_view};
use vstd::prelude::*;

verus! {

/// `pio run -d <dir> -e <env>`.
pub fn build_args(dir: &str, env: &str) -> (r: Vec<String>)
    ensures
        strings_view(r@) == seq!["run"@, "-d"@, dir@, "-e"@, env@],
{
    let a = ["run", "-d", dir, "-e", env];
    let r = strings_from(&a);
    assert(a@.map_values(|s: &str| s@) =~= seq!["run"@, "-d"@, dir@, "-e"@, env@]);
    r
}

/// The build arguments plus `-t upload`, and `--upload-port <port>` when a port is given.
pub fn upload_args(dir: &str, env: &str, port: Option<&str>) -> (r: Vec<String>)
    ensures
        strings_view(r@) == seq!["run"@, "-d"@, dir@, "-e"@, env@, "-t"@, "upload"@] + match port {
            Some(p) => seq!["--upload-port"@, p@],
            None => Seq::<Seq<char>>::empty(),
        },
{
    let mut args = build_args(dir, env);
    push_str(&mut args, "-t");
    push_str(&mut args, "upload");
    if let Some(p) = port {
        push_str(&mut args, "--upload-port");
        push_str(&mut args, p);
    }
    assert(strings_view(args@) =~= seq!["run"@, "-d"@, dir@, "-e"@, env@, "-t"@, "upload"@] + match port {
        Some(p) => seq!["--upload-port"@, p@],
        None => Seq::<Seq<char>>::empty(),
    });
    args
}

/// The build arguments plus `-t <target>`.
pub fn target_args(dir: &str, env: &str, target: &str) -> (r: Vec<String>)
    ensures
        strings_view(r@) == seq!["run"@, "-d"@, dir@, "-e"@, env@, "-t"@, target@],
{
    let mut args = build_args(dir, env);
    push_str(&mut args, "-t");
    push_str(&mut args, target);
    assert(strings_view(args@) =~= seq!["run"@, "-d"@, dir@, "-e"@, env@, "-t"@, target@]);
    args
}

/// The build arguments plus `--list-targets`.
pub fn list_targets_args(dir: &str, env: &str) -> (r: Vec<String>)
    ensures
        strings_view(r@) == seq!["run"@, "-d"@, dir@, "-e"@, env@, "--list-targets"@],
{
    let mut args = build_args(dir, env);
    push_str(&mut args, "--list-targets");
    assert(strings_view(args@) =~= seq!["run"@, "-d"@, dir@, "-e"@, env@, "--list-targets"@]);
    args
}

} // verus!

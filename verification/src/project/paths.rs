//! Which file paths a read-only viewer request may reach inside a workspace: a relative
//! path with no `..` component, whose resolved location lies under the resolved workspace.
use crate::error::AppError;
use crate::text::{concat_str, str_chars};
use vstd::prelude::*;

verus! {

pub open spec fn is_sep(c: char) -> bool {
    c == '/' || c == '\\'
}

/// Some component of `rel`, between separators (`/` or `\`), is `..`.
pub open spec fn has_parent_component(rel: Seq<char>) -> bool {
    exists|i: int|
        0 <= i && i + 2 <= rel.len() && #[trigger] rel[i] == '.' && rel[i + 1] == '.' && (i == 0 || is_sep(
            rel[i - 1],
        )) && (i + 2 == rel.len() || is_sep(rel[i + 2]))
}

/// A request is refused before any lookup when its path is empty, absolute (`absolute`, as
/// the platform's path rules decide) or climbs out through `..`.
pub open spec fn refused_spec(rel: Seq<char>, absolute: bool) -> bool {
    rel.len() == 0 || absolute || has_parent_component(rel)
}

pub fn refuses_relative_path(rel: &str, absolute: bool) -> (r: bool)
    ensures
        r == refused_spec(rel@, absolute),
{
    if absolute {
        return true;
    }
    let v = str_chars(rel);
    let n = v.len();
    if n == 0 {
        return true;
    }
    let mut i: usize = 0;
    while n - i >= 2
        invariant
            i <= n,
            n == v@.len(),
            v@ == rel@,
            forall|k: int|
                0 <= k < i && k + 2 <= n ==> !(#[trigger] v@[k] == '.' && v@[k + 1] == '.' && (k == 0 || is_sep(
                    v@[k - 1],
                )) && (k + 2 == n || is_sep(v@[k + 2]))),
        decreases n - i,
    {
        let before_ok = i == 0 || v[i - 1] == '/' || v[i - 1] == '\\';
        let after_ok = i + 2 == n || v[i + 2] == '/' || v[i + 2] == '\\';
        if v[i] == '.' && v[i + 1] == '.' && before_ok && after_ok {
            return true;
        }
        i += 1;
    }
    false
}

/// `Path::starts_with` on component lists: `root`'s components are the first ones of `path`.
pub open spec fn starts_with_components(path: Seq<Seq<char>>, root: Seq<Seq<char>>) -> bool {
    root.len() <= path.len() && forall|k: int| 0 <= k < root.len() ==> path[k] == root[k]
}

pub fn components_start_with(path: &Vec<String>, root: &Vec<String>) -> (r: bool)
    ensures
        r == starts_with_components(path@.map_values(|s: String| s@), root@.map_values(|s: String| s@)),
{
    if root.len() > path.len() {
        return false;
    }
    let mut k: usize = 0;
    while k < root.len()
        invariant
            root@.len() <= path@.len(),
            k <= root@.len(),
            forall|j: int| 0 <= j < k ==> path@[j]@ == root@[j]@,
        decreases root@.len() - k,
    {
        if !crate::text::string_eq(&path[k], &root[k]) {
            assert(path@.map_values(|s: String| s@)[k as int] == path@[k as int]@);
            assert(root@.map_values(|s: String| s@)[k as int] == root@[k as int]@);
            return false;
        }
        k += 1;
    }
    true
}

pub open spec fn outside_message(rel: Seq<char>) -> Seq<char> {
    "refusing to read path outside the workspace: "@ + rel
}

pub open spec fn missing_message(what: Seq<char>) -> Seq<char> {
    what + " does not exist"@
}

pub open spec fn views(v: Option<Vec<String>>) -> Option<Seq<Seq<char>>> {
    match v {
        Some(w) => Some(w@.map_values(|s: String| s@)),
        None => None,
    }
}

/// The decision on a viewer request for `rel` inside `workspace`, given whether `rel` is
/// absolute and the resolved component lists of the workspace and of the joined path
/// (`None` where resolving failed, as for a missing file): refused paths first, then a
/// missing workspace, then a missing file, then a resolved file outside the workspace.
/// `None` allows the read; otherwise the refusal's message.
pub open spec fn check_spec(
    workspace: Seq<char>,
    rel: Seq<char>,
    absolute: bool,
    resolved_workspace: Option<Seq<Seq<char>>>,
    resolved_target: Option<Seq<Seq<char>>>,
) -> Option<Seq<char>> {
    if refused_spec(rel, absolute) {
        Some(outside_message(rel))
    } else {
        match (resolved_workspace, resolved_target) {
            (None, _) => Some(missing_message(workspace)),
            (Some(_), None) => Some(missing_message(rel)),
            (Some(w), Some(t)) => if starts_with_components(t, w) {
                None
            } else {
                Some(outside_message(rel))
            },
        }
    }
}

pub fn check_workspace_path(
    workspace: &str,
    rel: &str,
    absolute: bool,
    resolved_workspace: Option<Vec<String>>,
    resolved_target: Option<Vec<String>>,
) -> (r: Result<(), AppError>)
    ensures
        match r {
            Ok(()) => check_spec(workspace@, rel@, absolute, views(resolved_workspace), views(resolved_target)) is None,
            Err(AppError::Io { message }) => check_spec(
                workspace@,
                rel@,
                absolute,
                views(resolved_workspace),
                views(resolved_target),
            ) == Some(message@),
            Err(_) => false,
        },
{
    if refuses_relative_path(rel, absolute) {
        return Err(AppError::Io { message: concat_str("refusing to read path outside the workspace: ", rel) });
    }
    let ws = match resolved_workspace {
        Some(w) => w,
        None => return Err(AppError::Io { message: concat_str(workspace, " does not exist") }),
    };
    let target = match resolved_target {
        Some(t) => t,
        None => return Err(AppError::Io { message: concat_str(rel, " does not exist") }),
    };
    if !components_start_with(&target, &ws) {
        return Err(AppError::Io { message: concat_str("refusing to read path outside the workspace: ", rel) });
    }
    Ok(())
}

} // verus!

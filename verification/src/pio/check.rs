//! `pio check` arguments and severity mapping.
use crate::proc::events::Severity;
use crate::text::{push_str, push_string, strings_from, str_eq, str_to_string, strings_view};
use vstd::prelude::*;

verus! {

/// `pio check -d <dir> -e <env> --json-output`.
pub fn check_args(dir: &str, env: &str) -> (r: Vec<String>)
    ensures
        strings_view(r@) == seq!["check"@, "-d"@, dir@, "-e"@, env@, "--json-output"@],
{
    let r = strings_from(&["check", "-d", dir, "-e", env, "--json-output"]);
    assert(strings_view(r@) =~= seq!["check"@, "-d"@, dir@, "-e"@, env@, "--json-output"@]);
    r
}

/// `high` is an error, `medium` a warning, anything else a note.
pub fn map_severity(s: &str) -> (r: Severity)
    ensures
        r == (if s@ == "high"@ {
            Severity::Error
        } else if s@ == "medium"@ {
            Severity::Warning
        } else {
            Severity::Note
        }),
{
    if str_eq(s, "high") {
        Severity::Error
    } else if str_eq(s, "medium") {
        Severity::Warning
    } else {
        Severity::Note
    }
}

} // verus!

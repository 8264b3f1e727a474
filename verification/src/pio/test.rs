//! `pio test` arguments and status mapping.
use crate::proc::events::TestStatus;
use crate::text::{push_str, push_string, strings_from, str_eq, str_to_string, strings_view};
use vstd::prelude::*;

verus! {

/// `pio test -d <dir> -e <env> --json-output`, plus `--upload-port <p> --test-port <p>` when
/// a port is given.
pub fn test_args(dir: &str, env: &str, port: Option<&str>) -> (r: Vec<String>)
    ensures
        strings_view(r@) == seq!["test"@, "-d"@, dir@, "-e"@, env@, "--json-output"@] + match port {
            Some(p) => seq!["--upload-port"@, p@, "--test-port"@, p@],
            None => Seq::<Seq<char>>::empty(),
        },
{
    let mut args = strings_from(&["test", "-d", dir, "-e", env, "--json-output"]);
    if let Some(p) = port {
        push_str(&mut args, "--upload-port");
        push_str(&mut args, p);
        push_str(&mut args, "--test-port");
        push_str(&mut args, p);
    }
    assert(strings_view(args@) =~= seq!["test"@, "-d"@, dir@, "-e"@, env@, "--json-output"@] + match port {
        Some(p) => seq!["--upload-port"@, p@, "--test-port"@, p@],
        None => Seq::<Seq<char>>::empty(),
    });
    args
}

/// `PASSED`, `FAILED`, `SKIPPED`; anything else counts as errored.
pub fn map_status(s: &str) -> (r: TestStatus)
    ensures
        r == (if s@ == "PASSED"@ {
            TestStatus::Passed
        } else if s@ == "FAILED"@ {
            TestStatus::Failed
        } else if s@ == "SKIPPED"@ {
            TestStatus::Skipped
        } else {
            TestStatus::Errored
        }),
{
    if str_eq(s, "PASSED") {
        TestStatus::Passed
    } else if str_eq(s, "FAILED") {
        TestStatus::Failed
    } else if str_eq(s, "SKIPPED") {
        TestStatus::Skipped
    } else {
        TestStatus::Errored
    }
}

} // verus!

//! What the process-tree killers hold: on Unix the process group (equal to the child's
//! pid, since the child leads a new group), on Windows the pid and the job handle. The
//! signals themselves are sent outside the library.
use vstd::prelude::*;

verus! {

pub struct UnixKiller {
    /// The process group, equal to the child's pid.
    pub pgid: i32,
}

impl UnixKiller {
    pub fn new(pid: u32) -> (r: UnixKiller)
        ensures
            r.pgid == pid as i32,
    {
        UnixKiller { pgid: pid as i32 }
    }
}

/// A signal that could not be delivered only because the group is already gone counts as
/// delivered: `kill` returned 0, or it failed with `ESRCH`.
pub fn signal_succeeded(rc: i32, errno: Option<i32>, esrch: i32) -> (r: bool)
    ensures
        r == (rc == 0 || errno == Some(esrch)),
{
    if rc == 0 {
        true
    } else {
        match errno {
            Some(e) => e == esrch,
            None => false,
        }
    }
}

pub struct WinKiller {
    pub pid: u32,
    /// The job object's handle.
    pub job: isize,
}

impl WinKiller {
    pub fn new(pid: u32, job: isize) -> (r: WinKiller)
        ensures
            r.pid == pid && r.job == job,
    {
        WinKiller { pid, job }
    }
}

} // verus!

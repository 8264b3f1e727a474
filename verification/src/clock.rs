//! The current time, from the system clock through `chrono`.
use crate::text::ends_with;
use vstd::prelude::*;

verus! {

/// The shape of `chrono`'s RFC 3339 text for a UTC time: at least the 25 characters of
/// `YYYY-MM-DDTHH:MM:SS+00:00`, ending in the zero offset `+00:00`.
pub open spec fn utc_rfc3339_text(s: Seq<char>) -> bool {
    s.len() >= 25 && ends_with(s, "+00:00"@)
}

/// The current time as RFC 3339 text (`chrono::Utc::now().to_rfc3339()`). The contract
/// claims only its shape: `write_rfc3339` writes at least a four-digit year, the date,
/// `T`, the time to the second, and for UTC the offset `+00:00`. Which time it is, is the
/// clock's reading. `Utc::now` panics when the system clock reads before 1970: that comes
/// from the machine, not from an argument, so no `requires` can rule it out.
#[verifier::external_body]
pub(crate) fn now_rfc3339() -> (r: String)
    ensures
        utc_rfc3339_text(r@),
{
    chrono::Utc::now().to_rfc3339()
}

} // verus!

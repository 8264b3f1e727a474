//! Fresh random identifiers, from `uuid`.
use vstd::prelude::*;

verus! {

pub open spec fn is_lower_hex(c: char) -> bool {
    ('0' <= c && c <= '9') || ('a' <= c && c <= 'f')
}

/// The character a version-4 UUID's hyphenated lowercase text has at position `i`:
/// hyphens at 8, 13, 18 and 23, the version digit `4` at 14, the variant digit (`8`, `9`,
/// `a` or `b`) at 19, and a lowercase hexadecimal digit everywhere else.
pub open spec fn uuid_char_ok(i: int, c: char) -> bool {
    if i == 8 || i == 13 || i == 18 || i == 23 {
        c == '-'
    } else if i == 14 {
        c == '4'
    } else if i == 19 {
        c == '8' || c == '9' || c == 'a' || c == 'b'
    } else {
        is_lower_hex(c)
    }
}

/// The hyphenated lowercase text of a version-4 UUID: 36 characters, each as
/// [`uuid_char_ok`] says.
pub open spec fn uuid_v4_text(s: Seq<char>) -> bool {
    s.len() == 36 && forall|i: int| 0 <= i < 36 ==> uuid_char_ok(i, #[trigger] s[i])
}

/// A fresh random version-4 UUID in its hyphenated text form
/// (`uuid::Uuid::new_v4().to_string()`). The contract claims only its form: `new_v4` sets
/// the version and variant bits of random bits, and `Display` writes the lowercase
/// hyphenated form, 36 characters long. `new_v4` panics when the operating system's
/// random source fails: that comes from the machine, not from an argument, so no
/// `requires` can rule it out.
#[verifier::external_body]
pub(crate) fn new_uuid_v4() -> (r: String)
    ensures
        uuid_v4_text(r@),
{
    uuid::Uuid::new_v4().to_string()
}

} // verus!

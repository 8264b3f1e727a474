//! Attachments of a turn: files copied into the workspace's attachments directory and
//! referenced by relative path in the prompt, where the assistant's own file reader
//! fetches them.
use crate::text::{append_chars, append_str, push_str, str_chars, string_from_chars, strings_view};
use crate::textops::{decimal, decimal_chars, join_with};
use vstd::prelude::*;

verus! {

pub const ATTACHMENTS_DIR: &'static str = ".vibe/attachments";

/// `- path` for each attachment.
pub open spec fn bullet(a: Seq<char>) -> Seq<char> {
    "- "@ + a
}

/// The prompt unchanged when there is nothing attached; otherwise the prompt, a blank
/// line, `Attachments:` and one bullet line per attachment.
pub open spec fn augment_prompt_spec(prompt: Seq<char>, attachments: Seq<Seq<char>>) -> Seq<char> {
    if attachments.len() == 0 {
        prompt
    } else {
        prompt + "\n\nAttachments:\n"@ + join_with(attachments.map_values(|a: Seq<char>| bullet(a)), "\n"@)
    }
}

pub fn augment_prompt(prompt: &str, attachments: &[String]) -> (r: String)
    ensures
        r@ == augment_prompt_spec(prompt@, strings_view(attachments@)),
{
    if attachments.len() == 0 {
        return crate::text::str_to_string(prompt);
    }
    let mut bullets: Vec<String> = Vec::new();
    let mut i: usize = 0;
    while i < attachments.len()
        invariant
            i <= attachments@.len(),
            strings_view(bullets@) == strings_view(attachments@).take(i as int).map_values(|a: Seq<char>| bullet(a)),
        decreases attachments@.len() - i,
    {
        let mut b = str_chars("- ");
        append_str(&mut b, attachments[i].as_str());
        let ghost before = strings_view(bullets@);
        let s = string_from_chars(b.as_slice());
        let ghost sv = s@;
        bullets.push(s);
        proof {
            assert(strings_view(bullets@) =~= before.push(sv));
            assert(strings_view(attachments@).take(i + 1) =~= strings_view(attachments@).take(i as int).push(attachments@[i as int]@));
            assert(strings_view(attachments@).take(i + 1).map_values(|a: Seq<char>| bullet(a))
                =~= strings_view(attachments@).take(i as int).map_values(|a: Seq<char>| bullet(a)).push(bullet(attachments@[i as int]@)));
        }
        i += 1;
    }
    assert(strings_view(attachments@).take(attachments@.len() as int) =~= strings_view(attachments@));
    let mut out = str_chars(prompt);
    append_str(&mut out, "\n\nAttachments:\n");
    let list = crate::textops::join_strings(&bullets, "\n");
    append_chars(&mut out, list.as_slice());
    string_from_chars(out.as_slice())
}

/// The file name tried on the `n`-th attempt: the original name on the first, then the
/// stem with `-n` before the extension (or at the end, without one).
pub open spec fn candidate_name_spec(stem: Seq<char>, ext: Option<Seq<char>>, file_name: Seq<char>, n: nat) -> Seq<char> {
    if n <= 1 {
        file_name
    } else {
        match ext {
            Some(e) => stem + "-"@ + decimal(n) + "."@ + e,
            None => stem + "-"@ + decimal(n),
        }
    }
}

pub fn candidate_name(stem: &str, ext: Option<&str>, file_name: &str, n: u32) -> (r: String)
    ensures
        r@ == candidate_name_spec(stem@, match ext {
            Some(e) => Some(e@),
            None => None,
        }, file_name@, n as nat),
{
    if n <= 1 {
        return crate::text::str_to_string(file_name);
    }
    let mut out = str_chars(stem);
    append_str(&mut out, "-");
    let d = decimal_chars(n as u64);
    append_chars(&mut out, d.as_slice());
    match ext {
        Some(e) => {
            append_str(&mut out, ".");
            append_str(&mut out, e);
        },
        None => {},
    }
    string_from_chars(out.as_slice())
}

/// `.vibe/attachments/<name>`, with every backslash turned into a forward slash.
pub open spec fn relative_path_spec(name: Seq<char>) -> Seq<char> {
    (ATTACHMENTS_DIR@ + "/"@ + name).map_values(|c: char| if c == '\\' { '/' } else { c })
}

pub fn relative_path(name: &str) -> (r: String)
    ensures
        r@ == relative_path_spec(name@),
{
    let mut all = str_chars(ATTACHMENTS_DIR);
    append_str(&mut all, "/");
    append_str(&mut all, name);
    let mut out: Vec<char> = Vec::new();
    let mut i: usize = 0;
    while i < all.len()
        invariant
            i <= all@.len(),
            all@ == ATTACHMENTS_DIR@ + "/"@ + name@,
            out@ == all@.take(i as int).map_values(|c: char| if c == '\\' { '/' } else { c }),
        decreases all@.len() - i,
    {
        let c = all[i];
        out.push(if c == '\\' { '/' } else { c });
        assert(all@.take(i + 1).map_values(|c: char| if c == '\\' { '/' } else { c })
            =~= all@.take(i as int).map_values(|c: char| if c == '\\' { '/' } else { c }).push(if c == '\\' { '/' } else { c }));
        i += 1;
    }
    assert(all@.take(all@.len() as int) =~= all@);
    string_from_chars(out.as_slice())
}

/// A prompt with no attachments is passed through unchanged, and one with attachments
/// keeps the user's own text as its beginning.
pub proof fn law_augment_keeps_the_prompt(prompt: Seq<char>, attachments: Seq<Seq<char>>)
    ensures
        attachments.len() == 0 ==> augment_prompt_spec(prompt, attachments) == prompt,
        augment_prompt_spec(prompt, attachments).take(prompt.len() as int) == prompt,
{
    if attachments.len() > 0 {
        let r = augment_prompt_spec(prompt, attachments);
        assert(r.take(prompt.len() as int) =~= prompt);
    } else {
        assert(prompt.take(prompt.len() as int) =~= prompt);
    }
}

} // verus!

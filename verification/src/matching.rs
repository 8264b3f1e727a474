//! The regular-expression calls the parsers make, through the `regex` crate. What a
//! pattern matches is the crate's business and is not restated here: each call's result is
//! named, and the parsers are verified for whatever those results are.
use vstd::prelude::*;

verus! {

/// The capture groups (group 0 first) of the leftmost-first match of `pattern` in
/// `text`, each group's text if it took part in the match; `None` when nothing matches.
pub uninterp spec fn regex_captures_result(pattern: Seq<char>, text: Seq<char>) -> Option<Seq<Option<Seq<char>>>>;

/// The text before the leftmost-first match of `pattern` in `text`, and the match.
pub uninterp spec fn regex_find_result(pattern: Seq<char>, text: Seq<char>) -> Option<(Seq<char>, Seq<char>)>;

/// The pieces of `text` between the successive matches of `pattern`.
pub uninterp spec fn regex_split_result(pattern: Seq<char>, text: Seq<char>) -> Seq<Seq<char>>;

pub open spec fn opt_view(o: Option<String>) -> Option<Seq<char>> {
    match o {
        Some(s) => Some(s@),
        None => None,
    }
}

pub open spec fn captures_view(r: Option<Vec<Option<String>>>) -> Option<Seq<Option<Seq<char>>>> {
    match r {
        Some(v) => Some(v@.map_values(|g: Option<String>| opt_view(g))),
        None => None,
    }
}

/// `Regex::new(pattern)` and then `Regex::captures(text)`; every group is copied out as a
/// `String`. A pattern that does not compile gives `None`, as no match would. The contract
/// claims that the result is the named one, that group 0 (the whole match) is always
/// present in a match, and nothing of which text matches.
#[verifier::external_body]
pub(crate) fn regex_captures(pattern: &str, text: &str) -> (r: Option<Vec<Option<String>>>)
    ensures
        captures_view(r) == regex_captures_result(pattern@, text@),
        r matches Some(v) ==> v@.len() >= 1 && v@[0] is Some,
{
    match regex::Regex::new(pattern) {
        Ok(re) => re.captures(text).map(|c| c.iter().map(|g| g.map(|m| m.as_str().to_string())).collect()),
        Err(_) => None,
    }
}

/// `Regex::new(pattern)` and then `Regex::find(text)`, returned as the text before the
/// match and the matched text. The contract claims that the result is the named one and
/// that the two pieces are, in order, the start of `text`.
#[verifier::external_body]
pub(crate) fn regex_find(pattern: &str, text: &str) -> (r: Option<(String, String)>)
    ensures
        match r {
            Some((a, b)) => regex_find_result(pattern@, text@) == Some((a@, b@)) && text@.take((a@.len() + b@.len()) as int) == a@ + b@
                && a@.len() + b@.len() <= text@.len(),
            None => regex_find_result(pattern@, text@) is None,
        },
{
    match regex::Regex::new(pattern) {
        Ok(re) => re.find(text).map(|m| (text[..m.start()].to_string(), m.as_str().to_string())),
        Err(_) => None,
    }
}

/// `Regex::new(pattern)` and then `Regex::split(text)`, each piece copied out. A pattern
/// that does not compile gives the whole text as the one piece. The contract claims only
/// that the result is the named one.
#[verifier::external_body]
pub(crate) fn regex_split(pattern: &str, text: &str) -> (r: Vec<String>)
    ensures
        r@.map_values(|s: String| s@) == regex_split_result(pattern@, text@),
{
    match regex::Regex::new(pattern) {
        Ok(re) => re.split(text).map(|s| s.to_string()).collect(),
        Err(_) => vec![text.to_string()],
    }
}

} // verus!

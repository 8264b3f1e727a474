//! The workspace trust scan: before the first assistant turn in a folder the app did not
//! create, what would run without a prompt of its own is listed (hook events, MCP
//! servers, agents), so the user can decide.
use crate::project::types::TrustScan;
use crate::text::strings_view;
use crate::textsort::{lex_leq, sort_strings};
use vstd::prelude::*;

verus! {

/// The scan of what was found: the hook event names of the assistant's workspace settings
/// file, the server names of the workspace's MCP file, and the file stems in its agents
/// directory (each empty when the file is missing or unreadable), every list sorted.
pub fn scan(hooks: Vec<String>, mcp_servers: Vec<String>, agents: Vec<String>) -> (r: TrustScan)
    ensures
        strings_view(r.hooks@) == strings_view(hooks@).sort_by(lex_leq()),
        strings_view(r.mcp_servers@) == strings_view(mcp_servers@).sort_by(lex_leq()),
        strings_view(r.agents@) == strings_view(agents@).sort_by(lex_leq()),
{
    TrustScan { hooks: sort_strings(&hooks), mcp_servers: sort_strings(&mcp_servers), agents: sort_strings(&agents) }
}

/// A scan finds nothing exactly when nothing was found.
pub proof fn law_scan_is_empty_iff_nothing_found(hooks: Seq<Seq<char>>, servers: Seq<Seq<char>>, agents: Seq<Seq<char>>)
    ensures
        (hooks.sort_by(lex_leq()).len() == 0 && servers.sort_by(lex_leq()).len() == 0 && agents.sort_by(lex_leq()).len() == 0)
            <==> (hooks.len() == 0 && servers.len() == 0 && agents.len() == 0),
{
    crate::textsort::lemma_lex_total_ordering();
    hooks.lemma_sort_by_ensures(lex_leq());
    servers.lemma_sort_by_ensures(lex_leq());
    agents.lemma_sort_by_ensures(lex_leq());
    hooks.to_multiset_ensures();
    servers.to_multiset_ensures();
    agents.to_multiset_ensures();
    hooks.sort_by(lex_leq()).to_multiset_ensures();
    servers.sort_by(lex_leq()).to_multiset_ensures();
    agents.sort_by(lex_leq()).to_multiset_ensures();
}

} // verus!

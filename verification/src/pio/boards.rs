//! The board catalogue's records.
use crate::error::AppError;
use crate::text::{str_eq, str_to_string};
use vstd::prelude::*;

verus! {

#[derive(Debug, Clone, PartialEq)]
pub struct BoardBrief {
    pub id: String,
    pub name: String,
    pub platform: String,
    pub mcu: String,
    pub fcpu: u64,
    pub ram: u64,
    pub rom: u64,
    pub frameworks: Vec<String>,
    pub vendor: String,
    pub url: String,
    pub connectivity: Vec<String>,
    pub debug_tools: Vec<String>,
}

#[derive(Debug, Clone, Copy, PartialEq, Eq, Structural)]
pub enum BoardSource {
    Registry,
    Installed,
}

#[derive(Debug, Clone, PartialEq)]
pub struct BoardCatalogue {
    pub schema_version: u32,
    pub fetched_at: String,
    pub pio_version: String,
    pub source: BoardSource,
    pub boards: Vec<BoardBrief>,
}

/// Where a catalogue answer came from.
#[derive(Debug, Clone, Copy, PartialEq, Eq, Structural)]
pub enum CatalogueStatus {
    /// Fetched fresh from the registry this call.
    FreshFromRegistry,
    /// Served from an unexpired disk cache.
    FreshFromCache,
    /// The registry fetch failed; served a stale disk cache instead.
    StaleOffline,
    /// No cache existed and the registry was unreachable; fell back to installed platforms.
    InstalledOffline,
    /// The caller explicitly asked for installed-only.
    InstalledOnly,
}


pub const CURRENT_SCHEMA_VERSION: u32 = 1;

/// A UTC instant: whole seconds since the Unix epoch and the nanoseconds past them.
#[derive(Debug, Clone, Copy, PartialEq, Eq)]
pub struct UtcInstant {
    pub secs: i64,
    pub nanos: u32,
}

pub open spec fn instant_nanos(secs: i64, nanos: u32) -> int {
    secs * 1_000_000_000 + nanos
}

/// The instant RFC 3339 text denotes, as seconds since the epoch and nanoseconds past
/// them, when the text parses.
pub uninterp spec fn rfc3339_instant(s: Seq<char>) -> Option<(i64, u32)>;

/// `chrono::DateTime::parse_from_rfc3339`, read through `timestamp` and
/// `timestamp_subsec_nanos`. The result is named, not stated: the grammar is chrono's.
#[verifier::external_body]
fn parse_rfc3339(s: &str) -> (r: Option<(i64, u32)>)
    ensures
        r == rfc3339_instant(s@),
{
    match chrono::DateTime::parse_from_rfc3339(s) {
        Ok(d) => Some((d.timestamp(), d.timestamp_subsec_nanos())),
        Err(_) => None,
    }
}

/// A catalogue is stale when its fetch time does not parse, lies in the future, or is at
/// least `ttl_secs` old.
pub open spec fn stale_spec(fetched: Option<(i64, u32)>, ttl_secs: u64, now: UtcInstant) -> bool {
    match fetched {
        None => true,
        Some((s, n)) => {
            let age = instant_nanos(now.secs, now.nanos) - instant_nanos(s, n);
            age < 0 || age >= ttl_secs * 1_000_000_000
        },
    }
}

/// Staleness from an already parsed fetch time.
pub fn stale_from_parsed(fetched: Option<(i64, u32)>, ttl_secs: u64, now: UtcInstant) -> (r: bool)
    ensures
        r == stale_spec(fetched, ttl_secs, now),
{
    match fetched {
        None => true,
        Some((s, n)) => {
            let age: i128 = (now.secs as i128 - s as i128) * 1_000_000_000 + now.nanos as i128 - n as i128;
            let ttl: i128 = ttl_secs as i128 * 1_000_000_000;
            age < 0 || age >= ttl
        },
    }
}

pub fn is_stale(catalogue: &BoardCatalogue, ttl_secs: u64, now: UtcInstant) -> (r: bool)
    ensures
        r == stale_spec(rfc3339_instant(catalogue.fetched_at@), ttl_secs, now),
{
    let parsed = parse_rfc3339(catalogue.fetched_at.as_str());
    stale_from_parsed(parsed, ttl_secs, now)
}

/// What a catalogue lookup knows of its disk cache.
#[derive(Debug, Clone, Copy, PartialEq, Eq, Structural)]
pub enum CacheState {
    Missing,
    Fresh,
    Stale,
}

/// The next step of a catalogue lookup.
#[derive(Debug, Clone, Copy, PartialEq, Eq, Structural)]
pub enum BoardsStep {
    /// Answer with the cached boards, under this status.
    ServeCache(CatalogueStatus),
    /// Run `pio boards --json-output` (the registry); on success cache the result as a
    /// registry catalogue and answer `FreshFromRegistry`.
    RunRegistry,
    /// Run `pio boards --installed --json-output` and answer under this status; after a
    /// failed registry fetch the result is cached as an installed catalogue.
    RunInstalled(CatalogueStatus),
}

/// The first step: without `pio` nothing can be listed; installed-only asks for the
/// installed platforms; a fresh cache is reused unless a refresh is asked for; otherwise
/// the registry is asked.
pub fn boards_first_step(has_pio: bool, installed_only: bool, refresh: bool, cache: CacheState) -> (r: Result<
    BoardsStep,
    AppError,
>)
    ensures
        !has_pio ==> (r matches Err(AppError::ToolMissing { tool, install_action }) && tool@ == "pio"@
            && install_action),
        has_pio && installed_only ==> r == Ok::<BoardsStep, AppError>(
            BoardsStep::RunInstalled(CatalogueStatus::InstalledOnly),
        ),
        has_pio && !installed_only && !refresh && cache == CacheState::Fresh ==> r == Ok::<BoardsStep, AppError>(
            BoardsStep::ServeCache(CatalogueStatus::FreshFromCache),
        ),
        has_pio && !installed_only && (refresh || cache != CacheState::Fresh) ==> r == Ok::<BoardsStep, AppError>(
            BoardsStep::RunRegistry,
        ),
{
    if !has_pio {
        return Err(AppError::ToolMissing { tool: str_to_string("pio"), install_action: true });
    }
    if installed_only {
        return Ok(BoardsStep::RunInstalled(CatalogueStatus::InstalledOnly));
    }
    if !refresh && cache == CacheState::Fresh {
        return Ok(BoardsStep::ServeCache(CatalogueStatus::FreshFromCache));
    }
    Ok(BoardsStep::RunRegistry)
}

/// After a failed registry fetch: any cached catalogue, fresh or not, is served as
/// stale-offline; without one the installed platforms are listed.
pub fn boards_after_registry_failure(cache: CacheState) -> (r: BoardsStep)
    ensures
        cache != CacheState::Missing ==> r == BoardsStep::ServeCache(CatalogueStatus::StaleOffline),
        cache == CacheState::Missing ==> r == BoardsStep::RunInstalled(CatalogueStatus::InstalledOffline),
{
    match cache {
        CacheState::Missing => BoardsStep::RunInstalled(CatalogueStatus::InstalledOffline),
        _ => BoardsStep::ServeCache(CatalogueStatus::StaleOffline),
    }
}

/// The catalogue cached after a fetch: the current schema, stamped with the clock's
/// reading.
pub fn new_catalogue(boards: Vec<BoardBrief>, source: BoardSource) -> (r: BoardCatalogue)
    ensures
        r.schema_version == CURRENT_SCHEMA_VERSION,
        r.pio_version@.len() == 0,
        r.source == source,
        r.boards == boards,
        crate::clock::utc_rfc3339_text(r.fetched_at@),
{
    BoardCatalogue {
        schema_version: CURRENT_SCHEMA_VERSION,
        fetched_at: crate::clock::now_rfc3339(),
        pio_version: String::new(),
        source,
        boards,
    }
}

/// The index of the first board with id `id`, or -1.
pub open spec fn board_index(bs: Seq<BoardBrief>, id: Seq<char>) -> int
    decreases bs.len(),
{
    if bs.len() == 0 {
        -1
    } else {
        let r = board_index(bs.drop_last(), id);
        if r >= 0 {
            r
        } else if bs.last().id@ == id {
            bs.len() - 1
        } else {
            -1
        }
    }
}

proof fn lemma_board_index_prefix(bs: Seq<BoardBrief>, id: Seq<char>, n: int)
    requires
        0 <= n <= bs.len(),
        board_index(bs.take(n), id) >= 0,
    ensures
        board_index(bs, id) == board_index(bs.take(n), id),
    decreases bs.len() - n,
{
    if n < bs.len() {
        assert(bs.take(n + 1).drop_last() =~= bs.take(n));
        lemma_board_index_prefix(bs, id, n + 1);
    } else {
        assert(bs.take(n) =~= bs);
    }
}

/// The first board with id `id`.
pub fn board_by_id(boards: Vec<BoardBrief>, id: &str) -> (r: Option<BoardBrief>)
    ensures
        board_index(boards@, id@) < 0 ==> r is None,
        board_index(boards@, id@) >= 0 ==> r == Some(boards@[board_index(boards@, id@)]),
{
    let ghost bs = boards@;
    let mut i: usize = 0;
    while i < boards.len()
        invariant
            i <= bs.len(),
            boards@ == bs,
            board_index(bs.take(i as int), id@) == -1,
        decreases bs.len() - i,
    {
        assert(bs.take(i + 1).drop_last() =~= bs.take(i as int));
        assert(bs.take(i + 1).last() == bs[i as int]);
        if str_eq(boards[i].id.as_str(), id) {
            proof {
                assert(board_index(bs.take(i + 1), id@) == i);
                lemma_board_index_prefix(bs, id@, i + 1);
            }
            let mut v = boards;
            let b = v.remove(i);
            return Some(b);
        }
        i += 1;
    }
    assert(bs.take(bs.len() as int) =~= bs);
    None
}

/// A targeted `pio boards <id>` lookup's answer: the board with that id, or an error
/// naming it.
pub fn board_from_lookup(boards: Vec<BoardBrief>, id: &str) -> (r: Result<BoardBrief, AppError>)
    ensures
        board_index(boards@, id@) >= 0 ==> r == Ok::<BoardBrief, AppError>(boards@[board_index(boards@, id@)]),
        board_index(boards@, id@) < 0 ==> (r matches Err(AppError::Io { message }) && message@ == "board '"@ + id@
            + "' not found"@),
{
    match board_by_id(boards, id) {
        Some(b) => Ok(b),
        None => {
            let mut v = crate::text::str_chars("board '");
            crate::text::append_str(&mut v, id);
            crate::text::append_str(&mut v, "' not found");
            Err(AppError::Io { message: crate::text::string_from_chars(v.as_slice()) })
        },
    }
}

} // verus!

use vibe_core::error::AppError;
use vibe_core::pio::boards::{
    board_by_id, board_from_lookup, boards_after_registry_failure, boards_first_step, is_stale, new_catalogue,
    stale_from_parsed, BoardBrief, BoardCatalogue, BoardSource, BoardsStep, CacheState, CatalogueStatus, UtcInstant,
    CURRENT_SCHEMA_VERSION,
};
use vibe_core::textops::tail_bytes;

fn instant(t: chrono::DateTime<chrono::Utc>) -> UtcInstant {
    UtcInstant { secs: t.timestamp(), nanos: t.timestamp_subsec_nanos() }
}

fn catalogue(fetched_at: String) -> BoardCatalogue {
    BoardCatalogue {
        schema_version: CURRENT_SCHEMA_VERSION,
        fetched_at,
        pio_version: "6.2.0".into(),
        source: BoardSource::Registry,
        boards: vec![],
    }
}

fn board(id: &str, name: &str) -> BoardBrief {
    BoardBrief {
        id: id.into(),
        name: name.into(),
        platform: "atmelavr".into(),
        mcu: "ATMEGA328P".into(),
        fcpu: 16000000,
        ram: 2048,
        rom: 32256,
        frameworks: vec!["arduino".into()],
        vendor: "Arduino".into(),
        url: "https://example.com".into(),
        connectivity: vec![],
        debug_tools: vec![],
    }
}

#[test]
fn freshness_is_ttl_bounded() {
    let now = chrono::Utc::now();
    let catalogue = catalogue((now - chrono::Duration::hours(10)).to_rfc3339());
    assert!(!is_stale(&catalogue, 24 * 3600, instant(now)));
    assert!(is_stale(&catalogue, 5 * 3600, instant(now)));
}

#[test]
fn unparseable_fetched_at_is_treated_as_stale() {
    let catalogue = catalogue("not a date".into());
    assert!(is_stale(&catalogue, 999_999, instant(chrono::Utc::now())));
}

#[test]
fn staleness_counts_exact_age_and_future_stamps() {
    let now = UtcInstant { secs: 1_000, nanos: 500 };
    assert!(!stale_from_parsed(Some((990, 501)), 10, now));
    assert!(stale_from_parsed(Some((990, 500)), 10, now));
    assert!(stale_from_parsed(Some((1_001, 0)), 10, now));
    assert!(stale_from_parsed(None, 10, now));
    let offset = catalogue("2024-01-01T01:00:00+01:00".into());
    assert!(!is_stale(&offset, 3600, UtcInstant { secs: 1_704_067_200 + 3599, nanos: 0 }));
    assert!(is_stale(&offset, 3600, UtcInstant { secs: 1_704_067_200 + 3600, nanos: 0 }));
}

#[test]
fn catalogue_policy_prefers_a_fresh_cache_then_the_registry() {
    match boards_first_step(false, false, false, CacheState::Fresh) {
        Err(AppError::ToolMissing { tool, install_action }) => {
            assert_eq!(tool, "pio");
            assert!(install_action);
        }
        other => panic!("expected ToolMissing, got {other:?}"),
    }
    assert_eq!(
        boards_first_step(true, true, false, CacheState::Fresh),
        Ok(BoardsStep::RunInstalled(CatalogueStatus::InstalledOnly))
    );
    assert_eq!(
        boards_first_step(true, false, false, CacheState::Fresh),
        Ok(BoardsStep::ServeCache(CatalogueStatus::FreshFromCache))
    );
    assert_eq!(boards_first_step(true, false, true, CacheState::Fresh), Ok(BoardsStep::RunRegistry));
    assert_eq!(boards_first_step(true, false, false, CacheState::Stale), Ok(BoardsStep::RunRegistry));
    assert_eq!(boards_first_step(true, false, false, CacheState::Missing), Ok(BoardsStep::RunRegistry));
}

#[test]
fn registry_failure_falls_back_to_any_cache_then_installed() {
    assert_eq!(
        boards_after_registry_failure(CacheState::Stale),
        BoardsStep::ServeCache(CatalogueStatus::StaleOffline)
    );
    assert_eq!(
        boards_after_registry_failure(CacheState::Fresh),
        BoardsStep::ServeCache(CatalogueStatus::StaleOffline)
    );
    assert_eq!(
        boards_after_registry_failure(CacheState::Missing),
        BoardsStep::RunInstalled(CatalogueStatus::InstalledOffline)
    );
}

#[test]
fn new_catalogue_is_stamped_now_and_fresh() {
    let c = new_catalogue(vec![board("uno", "Arduino Uno")], BoardSource::Installed);
    assert_eq!(c.schema_version, CURRENT_SCHEMA_VERSION);
    assert_eq!(c.source, BoardSource::Installed);
    assert!(c.pio_version.is_empty());
    assert_eq!(c.boards.len(), 1);
    assert!(!is_stale(&c, 3600, instant(chrono::Utc::now())));
}

#[test]
fn lookup_takes_the_first_board_with_the_id() {
    let boards = vec![board("uno", "first"), board("nano", "n"), board("uno", "second")];
    assert_eq!(board_by_id(boards.clone(), "uno").map(|b| b.name), Some("first".to_string()));
    assert_eq!(board_by_id(boards.clone(), "esp32dev"), None);
    match board_from_lookup(boards, "esp32dev") {
        Err(AppError::Io { message }) => assert_eq!(message, "board 'esp32dev' not found"),
        other => panic!("expected Io, got {other:?}"),
    }
}

#[test]
fn tail_keeps_the_last_bytes_behind_an_ellipsis() {
    assert_eq!(tail_bytes("short", 10), "short");
    assert_eq!(tail_bytes("abcdef", 3), "\u{2026}def");
    assert_eq!(tail_bytes("aé", 2), "\u{2026}é");
}

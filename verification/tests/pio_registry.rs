use vibe_core::pio::registry::{build_query, package_from_item, page_from_items, RawPackageItem};

#[test]
fn build_query_joins_free_text_and_qualifiers() {
    assert_eq!(build_query("json parser", &[("framework".to_string(), "arduino".to_string())]), "json parser framework:\"arduino\"");
    assert_eq!(build_query("", &[("owner".to_string(), "bblanchon".to_string())]), "owner:\"bblanchon\"");
    assert_eq!(build_query("json", &[]), "json");
    assert_eq!(build_query("  ", &[]), "");
}

fn item(owner: Option<&str>, name: Option<&str>, version: Option<&str>) -> RawPackageItem {
    RawPackageItem {
        owner_username: owner.map(String::from),
        name: name.map(String::from),
        kind: None,
        tier: Some("community".into()),
        description: None,
        version_name: version.map(String::from),
        released_at: Some("2026-03-02T17:23:45Z".into()),
    }
}

#[test]
fn an_item_missing_a_required_field_is_skipped_not_fatal() {
    assert!(package_from_item(item(None, Some("x"), Some("1"))).is_none());
    let page = page_from_items(vec![item(None, None, None), item(Some("bblanchon"), Some("ArduinoJson"), Some("7.4.3"))], 1, 409, 10);
    assert_eq!(page.items.len(), 1);
    let p = &page.items[0];
    assert_eq!(p.owner, "bblanchon");
    assert_eq!(p.kind, "library");
    assert_eq!(p.tier, "community");
    assert_eq!(p.description, "");
    assert_eq!(p.released_at.as_deref(), Some("2026-03-02T17:23:45Z"));
    assert_eq!(p.installed_version, None);
    assert_eq!((page.page, page.total, page.limit), (1, 409, 10));
}

use vibe_core::pio::build_history::{record_build, BuildHistory, BuildKind, BuildRecord, BuildSize, DefectCount};
use vibe_core::proc::events::SizeUsage;

fn sample(id: &str, success: bool, snapshot: Option<&str>) -> BuildRecord {
    BuildRecord {
        id: id.into(),
        at: "2026-09-20T09:16:20Z".into(),
        env: "esp32dev".into(),
        kind: BuildKind::Build,
        success,
        duration_ms: 21430,
        snapshot: snapshot.map(String::from),
        size: Some(BuildSize { ram_used: 44112, ram_total: 327680, flash_used: 812345, flash_total: 4194304 }),
        defect_count: DefectCount::default(),
    }
}

#[test]
fn record_build_updates_last_good_snapshot_only_on_success() {
    let mut history = BuildHistory::empty();
    record_build(&mut history, sample("b-1", false, Some("snap-fail")));
    assert_eq!(history.last_good_snapshot, None);

    record_build(&mut history, sample("b-2", true, Some("snap-ok")));
    assert_eq!(history.last_good_snapshot.as_deref(), Some("snap-ok"));
}

#[test]
fn record_build_caps_at_200_entries() {
    let mut history = BuildHistory::empty();
    for i in 0..250 {
        record_build(&mut history, sample(&format!("b-{i}"), true, Some("s")));
    }
    assert_eq!(history.builds.len(), 200);
    assert_eq!(history.builds[0].id, "b-50");
    assert_eq!(history.builds[199].id, "b-249");
}

#[test]
fn previous_size_finds_the_most_recent_successful_build_for_the_env() {
    let mut history = BuildHistory::empty();
    record_build(&mut history, sample("b-1", true, Some("s1")));
    let mut second = sample("b-2", true, Some("s2"));
    second.size = Some(BuildSize { ram_used: 50000, ram_total: 327680, flash_used: 900000, flash_total: 4194304 });
    record_build(&mut history, second);

    let prev = history.previous_size("esp32dev").expect("previous size");
    assert_eq!(prev.ram_used, 50000);
}

#[test]
fn previous_size_ignores_failed_builds_and_other_environments() {
    let mut history = BuildHistory::empty();
    record_build(&mut history, sample("b-1", true, Some("s1")));
    let mut failed = sample("b-2", false, None);
    failed.env = "esp32dev".into();
    record_build(&mut history, failed);
    let mut other_env = sample("b-3", true, Some("s3"));
    other_env.env = "uno".into();
    record_build(&mut history, other_env);

    let prev = history.previous_size("esp32dev").expect("previous size");
    assert_eq!(prev.flash_used, 812345);
}

#[test]
fn a_successful_check_does_not_move_the_last_good_snapshot_or_the_size_baseline() {
    let mut history = BuildHistory::empty();
    record_build(&mut history, sample("b-1", true, Some("s1")));
    let mut check = sample("c-1", true, Some("s-check"));
    check.kind = BuildKind::Check;
    check.size = Some(BuildSize { ram_used: 1, ram_total: 2, flash_used: 3, flash_total: 4 });
    record_build(&mut history, check);
    assert_eq!(history.last_good_snapshot.as_deref(), Some("s1"));
    assert_eq!(history.previous_size("esp32dev").unwrap().ram_used, 44112);
    assert_eq!(history.previous_size("uno"), None);
}

#[test]
fn build_size_from_a_size_report_drops_the_deltas() {
    let u = SizeUsage { ram_used: 10, ram_total: 20, flash_used: 30, flash_total: 40, ram_delta: Some(-1), flash_delta: None };
    let b = BuildSize::from(&u);
    assert_eq!(b, BuildSize { ram_used: 10, ram_total: 20, flash_used: 30, flash_total: 40 });
}

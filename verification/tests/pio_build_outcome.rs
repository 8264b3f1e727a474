use vibe_core::pio::build_history::{BuildKind, BuildSize};
use vibe_core::pio::build_outcome::{build_record, effective_pipeline_policy, size_with_delta, snapshot_label, watch_build_applies, BuildTally};
use vibe_core::pio::pipeline::{PipelineRegistry, PipelineStep};
use vibe_core::proc::events::{Severity, SizeUsage};
use vibe_core::settings::PipelinePolicySetting;

fn usage(ram: u64, flash: u64) -> SizeUsage {
    SizeUsage { ram_used: ram, ram_total: 327680, flash_used: flash, flash_total: 1310720, ram_delta: None, flash_delta: None }
}

#[test]
fn the_tally_counts_errors_and_warnings_but_not_notes() {
    let mut t = BuildTally::new();
    t.on_defect(Severity::Error);
    t.on_defect(Severity::Warning);
    t.on_defect(Severity::Warning);
    t.on_defect(Severity::Note);
    t.on_size(usage(1, 2));
    t.on_size(usage(3, 4));
    t.on_finished(true, 1234);
    assert_eq!((t.error_count, t.warning_count, t.success, t.duration_ms), (1, 2, true, 1234));
    assert_eq!(t.last_size.unwrap().ram_used, 3);
}

#[test]
fn size_deltas_are_against_the_previous_good_build() {
    let prev = BuildSize { ram_used: 22000, ram_total: 327680, flash_used: 280000, flash_total: 1310720 };
    let u = size_with_delta(usage(22116, 274536), Some(prev));
    assert_eq!(u.ram_delta, Some(116));
    assert_eq!(u.flash_delta, Some(-5464));
    assert_eq!(size_with_delta(usage(1, 1), None).ram_delta, None);
}

#[test]
fn a_record_carries_the_tally() {
    let mut t = BuildTally::new();
    t.on_defect(Severity::Error);
    t.on_size(usage(10, 20));
    t.on_finished(false, 5);
    let r = build_record("b-1".into(), "2026-01-01T00:00:00Z".into(), "esp32dev".into(), BuildKind::Upload, &t, None);
    assert_eq!(r.defect_count.error, 1);
    assert_eq!(r.size.unwrap().flash_used, 20);
    assert!(!r.success);
    assert_eq!(r.kind, BuildKind::Upload);
}

#[test]
fn labels_policies_and_the_final_step() {
    assert_eq!(snapshot_label(false, "p1"), "build-p1");
    assert_eq!(snapshot_label(true, "p1"), "build-watch-p1");
    assert_eq!(effective_pipeline_policy(None, PipelinePolicySetting::Safe), PipelinePolicySetting::Safe);
    assert_eq!(effective_pipeline_policy(Some(PipelinePolicySetting::Watch), PipelinePolicySetting::Safe), PipelinePolicySetting::Watch);
    assert!(watch_build_applies(PipelinePolicySetting::Watch, 2));
    assert!(!watch_build_applies(PipelinePolicySetting::Watch, 0));
    assert!(!watch_build_applies(PipelinePolicySetting::FastPath, 2));
    let mut reg = PipelineRegistry::new();
    assert_eq!(reg.finish_build("ws", false, None, "esp32dev").step, PipelineStep::Failed);
    assert_eq!(reg.finish_build("ws", true, Some(3), "esp32dev").step, PipelineStep::BuildOk);
    assert_eq!(reg.get("ws").step, PipelineStep::BuildOk);
}

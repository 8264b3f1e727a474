use vibe_core::pio::pipeline::{detect_stage, PipelineRegistry, PipelineStep};
use vibe_core::proc::ProcId;
use vibe_core::settings::PipelinePolicySetting;

#[test]
fn detects_known_stage_prefixes() {
    assert_eq!(detect_stage("Compiling .pio/build/esp32dev/src/main.cpp.o"), Some("Compiling .pio/build/esp32dev/src/main.cpp.o".to_string()));
    assert_eq!(detect_stage("Linking .pio/build/esp32dev/firmware.elf"), Some("Linking .pio/build/esp32dev/firmware.elf".to_string()));
    assert_eq!(detect_stage("Writing at 0x00010000... (12 %)"), Some("Writing at 0x00010000... (12 %)".to_string()));
}

#[test]
fn pipeline_ignores_unrelated_lines() {
    assert_eq!(detect_stage("PLATFORM: Espressif 32 (55.3.311)"), None);
    assert_eq!(detect_stage(""), None);
}

#[test]
fn stage_lines_are_trimmed() {
    assert_eq!(detect_stage("  Checking size .pio/build/x/firmware.elf \r"), Some("Checking size .pio/build/x/firmware.elf".to_string()));
    assert_eq!(detect_stage("Compiling"), None);
}

#[test]
fn fresh_workspace_starts_idle() {
    let reg = PipelineRegistry::new();
    assert_eq!(reg.get("ws-1").step, PipelineStep::Idle);
}

#[test]
fn transition_updates_and_persists_state() {
    let mut reg = PipelineRegistry::new();
    let state = reg.transition("ws-1", PipelineStep::Building, Some("esp32dev".into()), Some(ProcId("p1".into())));
    assert_eq!(state.step, PipelineStep::Building);
    assert_eq!(reg.get("ws-1").step, PipelineStep::Building);
    assert_eq!(reg.get("ws-1").env, Some("esp32dev".to_string()));
    assert_eq!(reg.get("ws-2").step, PipelineStep::Idle);
}

#[test]
fn safe_policy_invalidates_build_ok_after_a_watched_file_changes() {
    let mut reg = PipelineRegistry::new();
    reg.mark_build_ok("ws-1", Some(1_000), "esp32dev");
    assert_eq!(reg.effective_state("ws-1", Some(1_000), PipelinePolicySetting::Safe).step, PipelineStep::BuildOk);
    let state = reg.effective_state("ws-1", Some(2_000), PipelinePolicySetting::Safe);
    assert_eq!(state.step, PipelineStep::Idle);
    assert_eq!(reg.get("ws-1").step, PipelineStep::Idle);
}

#[test]
fn safe_policy_invalidates_when_watched_files_appear_after_an_empty_build() {
    let mut reg = PipelineRegistry::new();
    reg.mark_build_ok("ws-1", None, "esp32dev");
    assert_eq!(reg.effective_state("ws-1", None, PipelinePolicySetting::Safe).step, PipelineStep::BuildOk);
    assert_eq!(reg.effective_state("ws-1", Some(5), PipelinePolicySetting::Safe).step, PipelineStep::Idle);
}

#[test]
fn fast_path_policy_never_invalidates_build_ok() {
    let mut reg = PipelineRegistry::new();
    reg.mark_build_ok("ws-1", Some(1_000), "esp32dev");
    let state = reg.effective_state("ws-1", Some(2_000), PipelinePolicySetting::FastPath);
    assert_eq!(state.step, PipelineStep::BuildOk);
    assert_eq!(state.env, Some("esp32dev".to_string()));
}

use vibe_core::project::types::CreatedBy;
use vibe_core::project::workspace::{new_settings, strip_windows_verbatim_prefix_str, vibe_dir};

#[test]
fn strip_windows_verbatim_prefix_leaves_non_verbatim_paths_alone() {
    let p = "/home/fay/greenhouse-sensor";
    assert_eq!(strip_windows_verbatim_prefix_str(p, false), p);
    assert_eq!(strip_windows_verbatim_prefix_str(p, true), p);
}

#[test]
fn strip_windows_verbatim_prefix_strips_drive_and_unc_forms() {
    assert_eq!(strip_windows_verbatim_prefix_str(r"\\?\C:\Users\fay\proj", true), r"C:\Users\fay\proj");
    assert_eq!(strip_windows_verbatim_prefix_str(r"\\?\UNC\server\share\proj", true), r"\\server\share\proj");
}

#[test]
fn verbatim_paths_are_kept_off_windows() {
    assert_eq!(strip_windows_verbatim_prefix_str(r"\\?\C:\x", false), r"\\?\C:\x");
}

#[test]
fn opened_workspaces_default_to_untrusted() {
    let settings = new_settings("someone-elses-project", CreatedBy::Opened);
    assert!(!settings.trusted);
    assert!(new_settings("mine", CreatedBy::VibeHardware).trusted);
}

#[test]
fn each_new_settings_call_gets_a_fresh_id() {
    let a = new_settings("x", CreatedBy::VibeHardware);
    let b = new_settings("x", CreatedBy::VibeHardware);
    assert_ne!(a.id, b.id);
    assert_eq!(a.name, "x");
}

#[test]
fn the_vibe_dir_is_inside_the_workspace() {
    assert_eq!(vibe_dir("/ws"), "/ws/.vibe");
    assert_eq!(vibe_dir("/ws/"), "/ws/.vibe");
}

use vibe_core::pio::global_settings::{parse_settings_get, split_value_and_default};

// A stand-in for the captured `pio settings get` table, which is not part of this crate.
const SETTINGS_TABLE: &str = "\
Name                         Current value [Default]                                  Description
---------------------------  -------------------------------------------------------  --------------------------------------------------------
auto_update_libraries        No                                                       Automatically update libraries (Yes/No)
auto_update_platforms        No                                                       Automatically update platforms (Yes/No)
check_platformio_interval    7                                                        Check for the new PlatformIO Core interval (days)
enable_cache                 Yes                                                      Enable caching for HTTP API requests
force_verbose                No                                                       Force verbose output when processing environments
projects_dir                 C:\\Users\\resea\\OneDrive\\Documents\\PlatformIO\\Projects    Default location for PlatformIO projects (PlatformIO Home)
";

#[test]
fn parses_the_real_captured_settings_table() {
    let settings = parse_settings_get(SETTINGS_TABLE);
    assert_eq!(settings.len(), 6);

    let interval = settings.iter().find(|s| s.name == "check_platformio_interval").expect("check_platformio_interval");
    assert_eq!(interval.current_value, "7");
    assert_eq!(interval.description, "Check for the new PlatformIO Core interval (days)");

    let projects_dir = settings.iter().find(|s| s.name == "projects_dir").expect("projects_dir");
    assert_eq!(projects_dir.current_value, "C:\\Users\\resea\\OneDrive\\Documents\\PlatformIO\\Projects");

    let enable_cache = settings.iter().find(|s| s.name == "enable_cache").expect("enable_cache");
    assert_eq!(enable_cache.current_value, "Yes");
}

#[test]
fn splits_a_bracketed_default_when_present() {
    let (current, default) = split_value_and_default("115200 [9600]");
    assert_eq!(current, "115200");
    assert_eq!(default.as_deref(), Some("9600"));
}

#[test]
fn a_value_with_no_bracket_has_no_default() {
    let (current, default) = split_value_and_default("Yes");
    assert_eq!(current, "Yes");
    assert_eq!(default, None);
}

#[test]
fn no_header_returns_an_empty_list_not_an_error() {
    assert!(parse_settings_get("nothing here").is_empty());
    assert!(parse_settings_get("").is_empty());
}

#[test]
fn a_row_with_a_bracketed_default_keeps_both_values() {
    let table = "Name  Value  Description\n----  -----  -----------\nmonitor  115200 [9600]  Baud rate\n\nbad\n";
    let settings = parse_settings_get(table);
    assert_eq!(settings.len(), 1);
    assert_eq!(settings[0].name, "monitor");
    assert_eq!(settings[0].current_value, "115200");
    assert_eq!(settings[0].default_value.as_deref(), Some("9600"));
    assert_eq!(settings[0].description, "Baud rate");
}

use vibe_core::device::telemetry::{
    esp_telemetry, flash_id_args, is_esp_platform, parse_flash_id_output, run_generic_adapter, strip_package_prefix, telemetry_plan,
    EsptoolEntrypoint, EsptoolEntrypointCache, TelemetryPlan,
};

const SAMPLE_FLASH_ID_OUTPUT: &str = "\
Using tool-esptoolpy@1.40501.0 package
esptool.py v5.3.0
Serial port COM10:
Connecting.....
Connected to ESP32-C6 on COM10:
Chip type:          ESP32-C6 (QFN40) (revision v0.2)
Features:           Wi-Fi 6, BT 5 (LE), IEEE802.15.4, Single Core + LP Core, 160MHz, Unknown Embedded Flash
Crystal frequency:  40MHz
MAC:                10:51:db:ff:fe:03:97:dc

Manufacturer: c8
Device: 4016
Detected flash size: 4MB
Hard resetting via RTS pin...
";

// A stand-in for the captured `flash_id` transcript, which is not part of this crate:
// the same shape, with the deprecation notices esptool v5 prints.
const REAL_FLASH_ID_OUTPUT: &str = "\
Using tool-esptoolpy@5.3.0 package
Warning: DEPRECATED: 'esptool.py' is deprecated. Please use 'esptool' instead.
Warning: Deprecated: Command 'flash_id' is deprecated. Use 'flash-id' instead.
esptool v5.3.0
Connected to ESP32-C6 on COM10:
Chip type:          ESP32-C6 (QFN40) (revision v0.2)
Features:           Wi-Fi 6, BT 5 (LE), IEEE802.15.4, Single Core + LP Core, 160MHz
Crystal frequency:  40MHz
MAC:                10:51:db:ff:fe:03:97:dc

Stub flasher running.

Flash Memory Information:
=========================
Manufacturer: c8
Device: 4017
Detected flash size: 8MB

Hard resetting via RTS pin...
";

#[test]
fn parses_chip_and_mac_from_the_real_connect_banner_shape() {
    let parsed = parse_flash_id_output(SAMPLE_FLASH_ID_OUTPUT);
    assert_eq!(parsed.chip.as_deref(), Some("ESP32-C6 (QFN40) (revision v0.2)"));
    assert_eq!(parsed.mac.as_deref(), Some("10:51:db:ff:fe:03:97:dc"));
    assert_eq!(parsed.flash_size.as_deref(), Some("4MB"));
    assert_eq!(parsed.flash_vendor.as_deref(), Some("c8"));
}

#[test]
fn flash_id_args_matches_cli_contract_shape_with_an_explicit_port() {
    assert_eq!(flash_id_args("esptool.py", "COM10"), vec!["pkg", "exec", "-p", "tool-esptoolpy", "--", "esptool.py", "--port", "COM10", "flash_id"]);
    assert_eq!(
        flash_id_args("esptool", "/dev/ttyUSB0"),
        vec!["pkg", "exec", "-p", "tool-esptoolpy", "--", "esptool", "--port", "/dev/ttyUSB0", "flash_id"]
    );
}

#[test]
fn real_captured_flash_id_output_parses_every_field() {
    let parsed = parse_flash_id_output(REAL_FLASH_ID_OUTPUT);
    assert_eq!(parsed.chip.as_deref(), Some("ESP32-C6 (QFN40) (revision v0.2)"));
    assert_eq!(parsed.mac.as_deref(), Some("10:51:db:ff:fe:03:97:dc"));
    assert_eq!(parsed.flash_size.as_deref(), Some("8MB"));
    assert_eq!(parsed.flash_vendor.as_deref(), Some("c8"));
}

#[test]
fn strips_the_using_package_prefix_line() {
    let stripped = strip_package_prefix(SAMPLE_FLASH_ID_OUTPUT);
    assert!(!stripped.starts_with("Using"));
    assert!(stripped.starts_with("esptool.py v5.3.0"));
    assert_eq!(strip_package_prefix("esptool v5\nUsing x package\n"), "esptool v5\nUsing x package\n");
}

#[test]
fn unparseable_output_yields_all_none_fields_not_a_panic() {
    let parsed = parse_flash_id_output("garbage that matches nothing");
    assert!(parsed.chip.is_none());
    assert!(parsed.mac.is_none());
    assert!(parsed.flash_size.is_none());
    assert!(parsed.flash_vendor.is_none());
}

#[test]
fn is_esp_platform_matches_espressif_families_case_insensitively() {
    assert!(is_esp_platform("espressif32"));
    assert!(is_esp_platform("espressif8266"));
    assert!(is_esp_platform("Espressif32"));
    assert!(!is_esp_platform("atmelavr"));
    assert!(!is_esp_platform("ststm32"));
}

#[test]
fn generic_adapter_reports_unavailable_without_a_port() {
    let t = run_generic_adapter(None, None);
    assert_eq!(t.adapter, "generic");
    assert!(!t.connected);
    assert!(t.unavailable_reason.is_some());
}

#[test]
fn generic_adapter_reports_connected_with_a_port_and_no_error() {
    let t = run_generic_adapter(Some("COM10"), None);
    assert_eq!(t.adapter, "generic");
    assert!(t.connected);
    assert!(t.unavailable_reason.is_none());
}

#[test]
fn the_entrypoint_cache_tries_both_until_one_works() {
    let mut c = EsptoolEntrypointCache::new();
    assert_eq!(c.candidates(), vec![EsptoolEntrypoint::Py, EsptoolEntrypoint::Plain]);
    c.remember(EsptoolEntrypoint::Plain);
    c.remember(EsptoolEntrypoint::Py);
    assert_eq!(c.candidates(), vec![EsptoolEntrypoint::Plain]);
    assert_eq!(EsptoolEntrypoint::Py.name(), "esptool.py");
}

#[test]
fn esp_telemetry_without_a_reading_is_unavailable() {
    let t = esp_telemetry("COM10", None, None);
    assert_eq!(t.adapter, "esp");
    assert!(!t.connected);
    assert_eq!(t.port.as_deref(), Some("COM10"));
    assert!(t.unavailable_reason.unwrap().contains("esptool"));
}

#[test]
fn plans_pick_the_adapter_by_platform_port_and_tool() {
    assert_eq!(telemetry_plan(&None, true, Some("COM1")), TelemetryPlan::Generic);
}

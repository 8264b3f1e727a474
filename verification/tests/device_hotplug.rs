use vibe_core::device::hotplug::{diff_devices, matches_sticky, rebound_port, select_port, settle_wait, sticky_hwid_for};
use vibe_core::device::list::{known_bridge_for, SerialDevice};
use vibe_core::project::types::{DeviceSettings, StickyHwid};

fn dev(port: &str, vid: Option<&str>, pid: Option<&str>, serial: Option<&str>) -> SerialDevice {
    SerialDevice {
        port: port.into(),
        description: "test device".into(),
        hwid: "n/a".into(),
        vid: vid.map(str::to_string),
        pid: pid.map(str::to_string),
        serial: serial.map(str::to_string),
        known_bridge: None,
    }
}

#[test]
fn no_change_yields_an_empty_diff() {
    let a = vec![dev("COM3", Some("10C4"), Some("EA60"), Some("SER1"))];
    let diff = diff_devices(&a, &a.clone());
    assert!(diff.is_empty());
}

#[test]
fn a_new_port_is_added() {
    let previous = vec![];
    let current = vec![dev("COM3", None, None, None)];
    let diff = diff_devices(&previous, &current);
    assert_eq!(diff.added.len(), 1);
    assert!(diff.removed.is_empty());
}

#[test]
fn a_vanished_port_is_removed() {
    let previous = vec![dev("COM3", None, None, None)];
    let current = vec![];
    let diff = diff_devices(&previous, &current);
    assert!(diff.added.is_empty());
    assert_eq!(diff.removed, vec!["COM3".to_string()]);
}

#[test]
fn a_device_reappearing_on_a_different_port_is_one_remove_and_one_add() {
    let previous = vec![dev("COM3", Some("10C4"), Some("EA60"), Some("SER1"))];
    let current = vec![dev("COM5", Some("10C4"), Some("EA60"), Some("SER1"))];
    let diff = diff_devices(&previous, &current);
    assert_eq!(diff.removed, vec!["COM3".to_string()]);
    assert_eq!(diff.added.len(), 1);
    assert_eq!(diff.added[0].port, "COM5");
}

#[test]
fn matches_sticky_requires_vid_and_pid() {
    let sticky = StickyHwid { vid: "10C4".into(), pid: "EA60".into(), serial: None };
    assert!(matches_sticky(&dev("COM5", Some("10C4"), Some("EA60"), Some("anything")), &sticky));
    assert!(!matches_sticky(&dev("COM5", Some("10C4"), Some("0000"), None), &sticky));
    assert!(!matches_sticky(&dev("COM5", None, None, None), &sticky));
}

#[test]
fn matches_sticky_checks_serial_when_recorded() {
    let sticky = StickyHwid { vid: "10C4".into(), pid: "EA60".into(), serial: Some("SER1".into()) };
    assert!(matches_sticky(&dev("COM5", Some("10C4"), Some("EA60"), Some("SER1")), &sticky));
    assert!(!matches_sticky(&dev("COM5", Some("10C4"), Some("EA60"), Some("SER2")), &sticky));
    assert!(!matches_sticky(&dev("COM5", Some("10C4"), Some("EA60"), None), &sticky));
}

#[test]
fn matches_sticky_is_case_insensitive_on_vid_pid() {
    let sticky = StickyHwid { vid: "10c4".into(), pid: "ea60".into(), serial: None };
    assert!(matches_sticky(&dev("COM5", Some("10C4"), Some("EA60"), None), &sticky));
}

#[test]
fn sticky_hwid_for_requires_vid_and_pid() {
    assert!(sticky_hwid_for(&dev("COM5", None, None, None)).is_none());
    let s = sticky_hwid_for(&dev("COM5", Some("10C4"), Some("EA60"), Some("SER1"))).expect("some");
    assert_eq!(s.vid, "10C4");
    assert_eq!(s.serial.as_deref(), Some("SER1"));
}

#[test]
fn known_bridges_are_recognised_case_insensitively() {
    assert_eq!(known_bridge_for("10c4").as_deref(), Some("CP210x"));
    assert_eq!(known_bridge_for("1A86").as_deref(), Some("CH340"));
    assert_eq!(known_bridge_for("0403").as_deref(), Some("FTDI"));
    assert_eq!(known_bridge_for("2341"), None);
}

#[test]
fn diff_keeps_order_and_only_reports_changes() {
    let previous = vec![dev("A", None, None, None), dev("B", None, None, None)];
    let current = vec![dev("B", None, None, None), dev("C", None, None, None), dev("D", None, None, None)];
    let diff = diff_devices(&previous, &current);
    assert_eq!(diff.added.iter().map(|d| d.port.as_str()).collect::<Vec<_>>(), vec!["C", "D"]);
    assert_eq!(diff.removed, vec!["A".to_string()]);
}

#[test]
fn a_bound_project_follows_its_device_to_a_new_port() {
    let sticky = StickyHwid { vid: "10c4".into(), pid: "ea60".into(), serial: Some("SER1".into()) };
    let settings = DeviceSettings { preferred_port: Some("COM3".into()), sticky_hwid: Some(sticky.clone()) };
    let added = vec![
        dev("COM5", Some("10C4"), Some("EA60"), Some("OTHER")),
        dev("COM7", Some("10C4"), Some("EA60"), Some("SER1")),
        dev("COM9", Some("10C4"), Some("EA60"), Some("SER1")),
    ];
    assert_eq!(rebound_port(&settings, &added), Some("COM7".to_string()));
    let already = DeviceSettings { preferred_port: Some("COM7".into()), sticky_hwid: Some(sticky) };
    assert_eq!(rebound_port(&already, &added), None);
    let unbound = DeviceSettings { preferred_port: Some("COM3".into()), sticky_hwid: None };
    assert_eq!(rebound_port(&unbound, &added), None);
}

#[test]
fn selecting_a_port_remembers_the_identity_when_known() {
    let old = DeviceSettings {
        preferred_port: None,
        sticky_hwid: Some(StickyHwid { vid: "1A86".into(), pid: "7523".into(), serial: None }),
    };
    let devices = vec![dev("COM3", Some("10C4"), Some("EA60"), Some("SER1")), dev("COM4", None, None, None)];
    let picked = select_port(old.clone(), "COM3", &devices);
    assert_eq!(picked.preferred_port.as_deref(), Some("COM3"));
    assert_eq!(
        picked.sticky_hwid,
        Some(StickyHwid { vid: "10C4".into(), pid: "EA60".into(), serial: Some("SER1".into()) })
    );
    let anonymous = select_port(old.clone(), "COM4", &devices);
    assert_eq!(anonymous.preferred_port.as_deref(), Some("COM4"));
    assert_eq!(anonymous.sticky_hwid, old.sticky_hwid);
    let absent = select_port(old.clone(), "COM9", &devices);
    assert_eq!(absent.sticky_hwid, old.sticky_hwid);
}

#[test]
fn waits_grow_while_a_known_port_is_missing_and_stop_once_it_is_back() {
    let known = vec![dev("COM3", None, None, None), dev("COM4", None, None, None)];
    let gone = vec![dev("COM4", None, None, None)];
    assert_eq!(settle_wait(&known, &gone, 0), Some(300));
    assert_eq!(settle_wait(&known, &gone, 1), Some(500));
    assert_eq!(settle_wait(&known, &gone, 2), Some(700));
    assert_eq!(settle_wait(&known, &gone, 3), Some(1000));
    assert_eq!(settle_wait(&known, &gone, 4), None);
    let back = vec![dev("COM3", None, None, None), dev("COM4", None, None, None), dev("COM9", None, None, None)];
    assert_eq!(settle_wait(&known, &back, 0), None);
}

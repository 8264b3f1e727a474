use vibe_core::device::list::{device_from_raw, known_bridge_for};

#[test]
fn recognizes_ch340_and_ftdi_vids() {
    // The two rows of a `pio device list --serial --json-output` report.
    let devices = vec![
        device_from_raw("/dev/ttyUSB0".into(), "CH340".into(), "USB VID:PID=1A86:7523 LOCATION=1-1".into()),
        device_from_raw("/dev/ttyUSB1".into(), "FTDI".into(), "USB VID:PID=0403:6001 LOCATION=1-2".into()),
    ];
    assert_eq!(devices[0].known_bridge.as_deref(), Some("CH340"));
    assert_eq!(devices[1].known_bridge.as_deref(), Some("FTDI"));
}

#[test]
fn hardware_ids_give_upper_case_ids_and_the_serial() {
    let d = device_from_raw("COM3".into(), "CP2102".into(), "USB VID:PID=10c4:ea60 SER=0001 LOCATION=1-3".into());
    assert_eq!(d.vid.as_deref(), Some("10C4"));
    assert_eq!(d.pid.as_deref(), Some("EA60"));
    assert_eq!(d.serial.as_deref(), Some("0001"));
    assert_eq!(d.known_bridge.as_deref(), Some("CP210x"));
    let bare = device_from_raw("/dev/ttyS0".into(), "n/a".into(), "n/a".into());
    assert_eq!((bare.vid, bare.pid, bare.serial, bare.known_bridge), (None, None, None, None));
    assert_eq!(known_bridge_for("1a86").as_deref(), Some("CH340"));
    assert_eq!(known_bridge_for("dead"), None);
}

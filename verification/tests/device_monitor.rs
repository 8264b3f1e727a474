use vibe_core::device::monitor::{eol_bytes, parse_bool_flag, settings_from_ini, MonitorParity, RingBuffer, SerialMonitorSettings};

const INI: &str = "\
[env]
monitor_speed = 115200
monitor_eol = LF

[env:esp32dev]
platform = espressif32
board = esp32dev
monitor_rts = 0
monitor_dtr = 0

[env:legacy]
platform = atmelavr
board = uno
monitor_parity = E
monitor_echo = yes
";

#[test]
fn reads_settings_with_env_fallback() {
    let s = settings_from_ini(INI, "esp32dev");
    assert_eq!(s.baud, 115200);
    assert_eq!(s.eol, "LF");
    assert_eq!(s.rts, Some(false));
    assert_eq!(s.dtr, Some(false));
}

#[test]
fn unset_env_falls_back_to_all_defaults() {
    let s = settings_from_ini("", "does-not-exist");
    assert_eq!(s, SerialMonitorSettings::default());
}

#[test]
fn parses_parity_and_echo() {
    let s = settings_from_ini(INI, "legacy");
    assert_eq!(s.parity, MonitorParity::Even);
    assert!(s.echo);
    assert_eq!(s.baud, 115200);
}

#[test]
fn unsupported_parity_values_fall_back_to_none() {
    let ini = "[env:x]\nmonitor_parity = S\n";
    assert_eq!(settings_from_ini(ini, "x").parity, MonitorParity::NoParity);
}

#[test]
fn eol_bytes_maps_known_values_and_defaults_to_crlf() {
    assert_eq!(eol_bytes("LF"), b"\n");
    assert_eq!(eol_bytes("cr"), b"\r");
    assert_eq!(eol_bytes("CRLF"), b"\r\n");
    assert_eq!(eol_bytes("weird"), b"\r\n");
}

#[test]
fn ring_buffer_retains_pushed_bytes_under_the_cap() {
    let mut rb = RingBuffer::new(100, 1024);
    rb.push(b"hello\n");
    rb.push(b"world\n");
    assert_eq!(rb.as_bytes(), b"hello\nworld\n");
}

#[test]
fn ring_buffer_evicts_oldest_bytes_once_over_the_byte_cap() {
    let mut rb = RingBuffer::new(100, 10);
    rb.push(b"0123456789");
    rb.push(b"X");
    assert_eq!(rb.len_bytes(), 10);
    assert_eq!(rb.as_bytes(), b"123456789X");
}

#[test]
fn ring_buffer_evicts_oldest_lines_once_over_the_line_cap() {
    let mut rb = RingBuffer::new(2, 1024);
    rb.push(b"one\n");
    rb.push(b"two\n");
    rb.push(b"three\n");
    assert_eq!(rb.as_bytes(), b"two\nthree\n");
}

#[test]
fn clear_empties_the_buffer() {
    let mut rb = RingBuffer::new(100, 1024);
    rb.push(b"hello\n");
    rb.clear();
    assert_eq!(rb.len_bytes(), 0);
    assert!(rb.as_bytes().is_empty());
}

#[test]
fn parses_bool_flags_leniently() {
    assert_eq!(parse_bool_flag("1"), Some(true));
    assert_eq!(parse_bool_flag("yes"), Some(true));
    assert_eq!(parse_bool_flag("0"), Some(false));
    assert_eq!(parse_bool_flag("no"), Some(false));
    assert_eq!(parse_bool_flag("maybe"), None);
}

#[test]
fn an_unparseable_or_overflowing_speed_keeps_the_default_and_a_plus_sign_is_accepted() {
    assert_eq!(settings_from_ini("[env:x]\nmonitor_speed = fast\n", "x").baud, 9600);
    assert_eq!(settings_from_ini("[env:x]\nmonitor_speed = 99999999999\n", "x").baud, 9600);
    assert_eq!(settings_from_ini("[env:x]\nmonitor_speed = +74880\n", "x").baud, 74880);
    assert_eq!(parse_bool_flag("  TRUE "), Some(true));
}

#[test]
fn a_one_byte_cap_keeps_only_the_newest_byte() {
    let mut rb = RingBuffer::new(0, 1);
    rb.push(b"ab\ncd");
    assert_eq!(rb.as_bytes(), b"d");
}

#[test]
fn the_buffer_keeps_the_longest_suffix_that_fits() {
    let mut rb = RingBuffer::new(2, 100);
    rb.push(b"a\nbb\nccc\ndd");
    assert_eq!(rb.as_bytes(), b"bb\nccc\ndd".to_vec());
    let mut rb = RingBuffer::new(100, 5);
    rb.push(b"abcdefgh");
    assert_eq!(rb.as_bytes(), b"defgh".to_vec());
}

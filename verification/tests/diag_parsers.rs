use vibe_core::diag::parser::DiagnosticParser;
use vibe_core::diag::size::SizeParser;
use vibe_core::proc::events::{DefectSource, Severity};

// The captured transcripts these tests were first written against are not part of this
// crate; these are shortened transcripts of the same shape.
const PIO_RUN_FAIL: &str = "\
Processing esp32dev (platform: espressif32; board: esp32dev; framework: arduino)
--------------------------------------------------------------------------------
Verbose mode can be enabled via `-v, --verbose` option
CONFIGURATION: https://docs.platformio.org/page/boards/espressif32/esp32dev.html
PLATFORM: Espressif 32 (55.3.311) > Espressif ESP32 Dev Module
Compiling .pio/build/esp32dev/src/main.cpp.o
src/main.cpp: In function 'void setup()':
src/main.cpp:5:11: error: expected primary-expression before ';' token
     int x = ;
           ^
src/main.cpp: In function 'void loop()':
src/main.cpp:9:3: error: 'undefinedThing' was not declared in this scope
   undefinedThing();
   ^~~~~~~~~~~~~~
*** [.pio/build/esp32dev/src/main.cpp.o] Error 1
========================= [FAILED] Took 3.21 seconds =========================
";

const PIO_RUN_SUCCESS: &str = "\
Processing esp32dev (platform: espressif32; board: esp32dev; framework: arduino)
--------------------------------------------------------------------------------
PLATFORM: Espressif 32 (55.3.311) > Espressif ESP32 Dev Module
Compiling .pio/build/esp32dev/src/main.cpp.o
Linking .pio/build/esp32dev/firmware.elf
Retrieving maximum program size .pio/build/esp32dev/firmware.elf
Checking size .pio/build/esp32dev/firmware.elf
Advanced Memory Usage is available via \"PlatformIO Home > Project Inspect\"
RAM:   [=         ]   6.7% (used 22116 bytes from 327680 bytes)
Flash: [==        ]  20.9% (used 274536 bytes from 1310720 bytes)
Building .pio/build/esp32dev/firmware.bin
========================= [SUCCESS] Took 12.44 seconds =========================
";

#[test]
fn parses_a_real_captured_compiler_error() {
    let mut p = DiagnosticParser::new();
    let d = p.feed_line("src/main.cpp:5:11: error: expected primary-expression before ';' token").expect("defect");
    assert_eq!(d.file, "src/main.cpp");
    assert_eq!(d.line, 5);
    assert_eq!(d.column, Some(11));
    assert!(matches!(d.severity, Severity::Error));
    assert_eq!(d.message, "expected primary-expression before ';' token");
    assert!(matches!(d.source, DefectSource::Compiler));
}

#[test]
fn parses_a_warning() {
    let mut p = DiagnosticParser::new();
    let d = p.feed_line("src/main.cpp:12:3: warning: unused variable 'x' [-Wunused-variable]").expect("defect");
    assert!(matches!(d.severity, Severity::Warning));
}

#[test]
fn parses_fatal_error_as_error_severity() {
    let mut p = DiagnosticParser::new();
    let d = p.feed_line("src/main.cpp:1:10: fatal error: missing.h: No such file or directory").expect("defect");
    assert!(matches!(d.severity, Severity::Error));
}

#[test]
fn parses_a_note_without_a_column() {
    let mut p = DiagnosticParser::new();
    let d = p.feed_line("include/a.h:7: note: declared here").expect("defect");
    assert!(matches!(d.severity, Severity::Note));
    assert_eq!(d.column, None);
    assert_eq!(d.line, 7);
    assert_eq!(d.raw, "include/a.h:7: note: declared here");
}

#[test]
fn ordinary_build_progress_lines_produce_no_defect() {
    let mut p = DiagnosticParser::new();
    assert!(p.feed_line("Compiling .pio/build/esp32dev/src/main.cpp.o").is_none());
    assert!(p.feed_line("Linking .pio/build/esp32dev/firmware.elf").is_none());
    assert!(p.feed_line("PLATFORM: Espressif 32 (55.3.311)").is_none());
}

#[test]
fn parses_a_linker_error_with_file_line_and_symbol_on_one_line() {
    let mut p = DiagnosticParser::new();
    let d = p.feed_line("src/main.cpp:12: undefined reference to `missingFunction()'").expect("defect");
    assert_eq!(d.file, "src/main.cpp");
    assert_eq!(d.line, 12);
    assert!(matches!(d.source, DefectSource::Linker));
    assert!(d.message.contains("missingFunction()"));
    assert_eq!(d.message, "undefined reference to `missingFunction()'");
}

#[test]
fn attributes_a_bare_undefined_reference_to_the_preceding_file_line() {
    let mut p = DiagnosticParser::new();
    assert!(p.feed_line(".pio/build/esp32dev/src/main.cpp.o: In function `loop()':").is_none());
    assert!(p.feed_line("src/main.cpp:12:").is_none());
    let d = p.feed_line("undefined reference to `missingFunction()'").expect("defect");
    assert_eq!(d.file, "src/main.cpp");
    assert_eq!(d.line, 12);
    assert!(matches!(d.source, DefectSource::Linker));
    // The position is used once.
    assert!(p.feed_line("undefined reference to `other()'").is_none());
}

#[test]
fn a_bare_undefined_reference_with_no_preceding_context_is_dropped_not_fatal() {
    let mut p = DiagnosticParser::new();
    assert!(p.feed_line("undefined reference to `missingFunction()'").is_none());
}

#[test]
fn full_fixture_produces_exactly_the_two_captured_errors() {
    let mut p = DiagnosticParser::new();
    let defects: Vec<_> = PIO_RUN_FAIL.lines().filter_map(|l| p.feed_line(l)).collect();
    assert_eq!(defects.len(), 2, "{defects:?}");
    assert_eq!(defects[0].line, 5);
    assert_eq!(defects[1].line, 9);
    assert!(defects.iter().all(|d| matches!(d.severity, Severity::Error)));
}

#[test]
fn full_success_fixture_produces_no_defects() {
    let mut p = DiagnosticParser::new();
    let defects: Vec<_> = PIO_RUN_SUCCESS.lines().filter_map(|l| p.feed_line(l)).collect();
    assert!(defects.is_empty(), "{defects:?}");
}

#[test]
fn parses_the_real_captured_ram_and_flash_lines() {
    let mut p = SizeParser::new();
    assert!(p.feed_line("RAM:   [=         ]   6.7% (used 22116 bytes from 327680 bytes)").is_none());
    let usage = p.feed_line("Flash: [==        ]  20.9% (used 274536 bytes from 1310720 bytes)").expect("usage");
    assert_eq!(usage.ram_used, 22116);
    assert_eq!(usage.ram_total, 327680);
    assert_eq!(usage.flash_used, 274536);
    assert_eq!(usage.flash_total, 1310720);
    assert_eq!(usage.ram_delta, None);
    assert_eq!(usage.flash_delta, None);
}

#[test]
fn size_ignores_unrelated_lines() {
    let mut p = SizeParser::new();
    assert!(p.feed_line("Compiling .pio/build/esp32dev/src/main.cpp.o").is_none());
    assert!(p.feed_line("RAM:   [=         ]   6.7% (used 22116 bytes from 327680 bytes)").is_none());
    assert!(p.feed_line("Building .pio/build/esp32dev/firmware.bin").is_none());
}

#[test]
fn a_flash_line_without_a_ram_line_yields_nothing() {
    let mut p = SizeParser::new();
    assert!(p.feed_line("Flash: [==        ]  20.9% (used 274536 bytes from 1310720 bytes)").is_none());
}

#[test]
fn full_success_fixture_yields_exactly_one_size_usage() {
    let mut p = SizeParser::new();
    let usages: Vec<_> = PIO_RUN_SUCCESS.lines().filter_map(|l| p.feed_line(l)).collect();
    assert_eq!(usages.len(), 1);
    assert_eq!(usages[0].ram_used, 22116);
    assert_eq!(usages[0].flash_used, 274536);
}

#[test]
fn a_repeated_flash_line_reports_nothing_more() {
    let mut p = SizeParser::new();
    let flash = "Flash: [==        ]  20.9% (used 274536 bytes from 1310720 bytes)";
    assert!(p.feed_line("RAM:   [=         ]   6.7% (used 22116 bytes from 327680 bytes)").is_none());
    assert!(p.feed_line(flash).is_some());
    assert!(p.feed_line(flash).is_none());
    assert!(p.feed_line("RAM:   [=         ]   6.7% (used 22116 bytes from 327680 bytes)").is_none());
    assert!(p.feed_line(flash).is_none());
}

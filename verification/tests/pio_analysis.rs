use vibe_core::pio::analysis::{RunAnalyzer, RunFinding};

#[test]
fn a_run_is_read_line_by_line_into_defects_sizes_and_stages() {
    let mut a = RunAnalyzer::new();
    let found = a.feed("Compiling .pio/build/esp32dev/src/main.cpp.o");
    assert!(matches!(found.as_slice(), [RunFinding::Stage(s)] if s.starts_with("Compiling")));
    let found = a.feed("src/main.cpp:10:5: error: 'foo' was not declared in this scope");
    assert!(matches!(found.as_slice(), [RunFinding::Defect(d)] if d.line == 10 && d.file == "src/main.cpp"));
    assert!(a.feed("RAM:   [=         ]   6.7% (used 22116 bytes from 327680 bytes)").is_empty());
    let found = a.feed("Flash: [==        ]  20.9% (used 274536 bytes from 1310720 bytes)");
    assert!(matches!(found.as_slice(), [RunFinding::Size(u)] if u.flash_used == 274536 && u.ram_used == 22116));
    assert!(a.feed("Flash: [==        ]  20.9% (used 274536 bytes from 1310720 bytes)").is_empty());
}

use vibe_core::pio::boards::BoardBrief;
use vibe_core::project::claude_md::{regenerate, BEGIN_MARKER, END_MARKER};

fn esp32dev() -> BoardBrief {
    BoardBrief {
        id: "esp32dev".into(),
        name: "Espressif ESP32 Dev Module".into(),
        platform: "espressif32".into(),
        mcu: "ESP32".into(),
        fcpu: 240_000_000,
        ram: 327_680,
        rom: 4_194_304,
        frameworks: vec!["arduino".into(), "espidf".into()],
        vendor: "Espressif".into(),
        url: "https://example.com".into(),
        connectivity: vec!["wifi".into(), "bluetooth".into(), "ethernet".into(), "can".into()],
        debug_tools: vec![],
    }
}

const INI: &str = "[env:esp32dev]\nplatform = espressif32\nboard = esp32dev\nframework = arduino\nmonitor_speed = 115200\n";

#[test]
fn matches_the_documented_template_exactly() {
    let out = regenerate(None, &esp32dev(), "arduino", INI);
    let expected = "<!-- vibe-hardware:begin (generated — edits inside this block are overwritten) -->\n\
# Hardware context\n\n\
Target board: **esp32dev** — Espressif ESP32 Dev Module (Espressif)\n\
MCU: ESP32 @ 240 MHz · Flash 4 MB · RAM 320 KB\n\
Frameworks available: arduino, espidf · Active: arduino\n\
Connectivity: wifi, bluetooth, ethernet, can\n\n\
## Build system\n\
PlatformIO. Do not invent a Makefile or CMakeLists — `platformio.ini` is the build\n\
configuration.\n\n\
Current `platformio.ini`:\n\n\
```ini\n\
[env:esp32dev]\n\
platform = espressif32\n\
board = esp32dev\n\
framework = arduino\n\
monitor_speed = 115200\n\
```\n\n\
## House rules\n\
- Application code goes in `src/`. Shared headers in `include/`. Private libraries in\n  `lib/<Name>/`. Tests in `test/`.\n\
- Add every external library to `lib_deps` in `platformio.ini`. Never vendor sources\n  into `src/`.\n\
- This target is memory-constrained: avoid dynamic allocation inside `loop()`, prefer\n  fixed-size buffers, and keep ISRs short and `IRAM_ATTR` where the platform requires it.\n\
- Do not write to `.pio/` or `.vibe/`.\n\
- Do not change `board`, `platform`, `upload_protocol`, or flash layout options unless\n  explicitly asked — those can make the device unflashable.\n\
- After changing code, do not run the build yourself; the user triggers Build and Upload\n  from the app.\n\
<!-- vibe-hardware:end -->\n";
    assert_eq!(out, expected);
}

#[test]
fn regeneration_preserves_user_content_outside_the_markers() {
    let board = esp32dev();
    let first = regenerate(None, &board, "arduino", INI);
    let hand_edited = format!("{first}\n## My own notes\n\nDon't forget to solder the antenna.\n");

    let mut board2 = board.clone();
    board2.ram = 520_000;
    let regenerated = regenerate(Some(&hand_edited), &board2, "arduino", INI);

    assert!(regenerated.contains("Don't forget to solder the antenna."));
    assert!(regenerated.contains("RAM 507 KB"));
    assert!(!regenerated.contains("RAM 320 KB"), "stale generated content should be replaced");
}

#[test]
fn appends_the_block_when_the_file_predates_the_markers() {
    let hand_written = "# My Project\n\nSome notes I wrote before using this app.\n";
    let out = regenerate(Some(hand_written), &esp32dev(), "arduino", INI);
    assert!(out.starts_with(hand_written));
    assert!(out.contains(BEGIN_MARKER));
    assert!(out.contains(END_MARKER));
}

#[test]
fn small_flash_boards_render_in_kb_not_mb() {
    let mut board = esp32dev();
    board.rom = 32_256;
    let out = regenerate(None, &board, "arduino", INI);
    assert!(out.contains("Flash 31 KB"));
}

#[test]
fn text_before_the_block_and_after_it_survives_exactly() {
    let board = esp32dev();
    let first = regenerate(None, &board, "arduino", INI);
    let edited = format!("intro\n{first}\ntail\n");
    let out = regenerate(Some(&edited), &board, "arduino", INI);
    assert_eq!(out, edited);
}

#[test]
fn appended_block_gets_a_blank_line_separator() {
    let board = esp32dev();
    let block = regenerate(None, &board, "arduino", INI);
    assert_eq!(regenerate(Some("notes"), &board, "arduino", INI), format!("notes\n\n{block}"));
    assert_eq!(regenerate(Some("notes\n"), &board, "arduino", INI), format!("notes\n\n{block}"));
    assert_eq!(regenerate(Some("notes\n\n"), &board, "arduino", INI), format!("notes\n\n{block}"));
    assert_eq!(regenerate(Some(""), &board, "arduino", INI), block);
}

#[test]
fn no_connectivity_line_without_connectivity() {
    let mut board = esp32dev();
    board.connectivity = vec![];
    let out = regenerate(None, &board, "espidf", INI);
    assert!(!out.contains("Connectivity:"));
    assert!(out.contains("Active: espidf\n\n## Build system"));
}

#[test]
fn user_text_on_both_sides_of_the_block_survives_regeneration() {
    let old = format!("{BEGIN_MARKER}\nstale body\n{END_MARKER}\n");
    let existing = format!("# My notes\n\n{old}\n## After\nkeep me\n");
    let fresh = regenerate(None, &esp32dev(), "arduino", INI);
    let out = regenerate(Some(&existing), &esp32dev(), "arduino", INI);
    assert_eq!(out, format!("# My notes\n\n{fresh}\n## After\nkeep me\n"));
    assert_eq!(regenerate(Some(&out), &esp32dev(), "arduino", INI), out);
}

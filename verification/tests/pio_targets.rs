use vibe_core::pio::targets::{parse_list_targets, UNIVERSAL_TARGETS};

// A stand-in for the captured `pio run --list-targets` table, which is not part of this
// crate: the same fixed-width layout, built row by row.
fn row(env: &str, group: &str, name: &str, title: &str, desc: &str) -> String {
    format!("{env:<13}  {group:<8}  {name:<17}  {title:<27}  {desc}").trim_end().to_string() + "\n"
}

fn list_targets_table() -> String {
    let mut t = String::from("Processing esp32dev (platform: espressif32)\n");
    t += &row("Environment", "Group", "Name", "Title", "Description");
    t += &format!("{}  {}  {}  {}  {}\n", "-".repeat(13), "-".repeat(8), "-".repeat(17), "-".repeat(27), "-".repeat(66));
    t += &row("esp32dev", "Custom", "coredump", "Coredump Analysis", "Analyze coredumps using esp-coredump (supports CLI args after --)");
    t += &row("esp32dev", "Generic", "compiledb", "Compilation Database", "Generate compilation database `compile_commands.json`");
    t += &row("esp32dev", "General", "clean", "Clean", "");
    t += &row("esp32dev", "General", "cleanall", "Clean All", "Clean a build environment and installed library dependencies");
    t += &row("esp32dev", "Platform", "buildfs", "Build Filesystem Image", "");
    t += &row("esp32dev", "Platform", "erase", "Erase Flash", "");
    t += &row("esp32dev", "Platform", "size", "Program Size", "Calculate program size");
    t += &row("esp32dev", "Platform", "upload", "Upload", "");
    t += &row("esp32dev", "Platform", "uploadfs", "Upload Filesystem Image", "");
    t += &row("esp32dev", "Platform", "uploadfsota", "Upload Filesystem Image OTA", "");
    t += &row("esp32dev", "Platform", "erase_upload", "Erase Flash and Upload", "");
    t += &row("esp32dev", "Platform", "menuconfig", "Run Menuconfig", "");
    t += "\n";
    t
}

#[test]
fn parses_the_real_captured_table() {
    let targets = parse_list_targets(&list_targets_table());
    assert_eq!(targets.len(), 12, "{targets:?}");

    let upload = targets.iter().find(|t| t.name == "upload").expect("upload target");
    assert_eq!(upload.title, "Upload");
    assert_eq!(upload.description, None);

    let coredump = targets.iter().find(|t| t.name == "coredump").expect("coredump target");
    assert_eq!(coredump.title, "Coredump Analysis");
    assert_eq!(coredump.description.as_deref(), Some("Analyze coredumps using esp-coredump (supports CLI args after --)"));

    let size = targets.iter().find(|t| t.name == "size").expect("size target");
    assert_eq!(size.description.as_deref(), Some("Calculate program size"));
}

#[test]
fn unrecognized_input_yields_an_empty_list_not_a_panic() {
    assert_eq!(parse_list_targets("pio: command not found").len(), 0);
    assert_eq!(parse_list_targets("").len(), 0);
}

#[test]
fn a_table_with_too_few_columns_yields_nothing() {
    assert!(parse_list_targets("Environment  Name\n-----------  ----\nx  y\n").is_empty());
}

#[test]
fn a_multibyte_character_before_a_column_shifts_byte_bounds() {
    let text = "Environment  Group  Name   Title\n-----------  -----  -----  -----\nénv          G      build  Build\n";
    let t = parse_list_targets(text);
    // The row's bytes are shifted by one; the name column still starts on a boundary.
    assert_eq!(t.len(), 1);
    assert_eq!(t[0].name, "buil");
}

#[test]
fn universal_targets_are_the_documented_six() {
    assert_eq!(UNIVERSAL_TARGETS, ["build", "upload", "clean", "fullclean", "size", "monitor"]);
}

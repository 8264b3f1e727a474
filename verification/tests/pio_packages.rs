use vibe_core::pio::packages::{parse_pkg_list, parse_pkg_outdated, PkgKind};

// Stand-ins for the captured `pio pkg list` / `pio pkg outdated` outputs, which are not
// part of this crate.
const PKG_LIST: &str = "\
Resolving esp32-c6-devkitm-1 dependencies...
Platform espressif32 @ 55.3.311 (required: https://github.com/pioarduino/platform-espressif32/releases/download/55.03.31/platform-espressif32.zip)
├── framework-arduinoespressif32 @ 3.3.1 (required: platformio/framework-arduinoespressif32 @ 3.3.1)
├── framework-arduinoespressif32-libs @ 5.5.0 (required: platformio/framework-arduinoespressif32-libs @ 5.5.0)
├── tool-esptoolpy @ 5.3.0 (required: pioarduino/tool-esptoolpy @ ~5.3.0)
├── tool-mklittlefs @ 3.2.0 (required: pioarduino/tool-mklittlefs @ ~3.2.0)
├── tool-scons @ 4.40801.0 (required: platformio/tool-scons @ ~4.40801.0)
└── toolchain-riscv32-esp @ 14.2.0 (required: pioarduino/toolchain-riscv32-esp @ 14.2.0)

Libraries
├── ArduinoJson @ 6.21.5 (required: bblanchon/ArduinoJson @ 6.21.5)
└── PubSubClient @ 2.8.0 (required: knolleary/PubSubClient @ ^2.8)
";

const PKG_OUTDATED: &str = "\
Checking
Semantic Versioning color legend:
<Major Update>  backward-incompatible updates
<Minor Update>  backward-compatible features
<Patch Update>  backward-compatible bug fixes

Package      Current    Wanted    Latest    Type       Environments
-----------  ---------  --------  --------  ---------  ------------------
ArduinoJson  6.21.5     6.21.5    7.4.3     Library    esp32-c6-devkitm-1
";

#[test]
fn parses_the_real_captured_pkg_list() {
    let packages = parse_pkg_list(PKG_LIST);

    let platform = packages.iter().find(|p| p.kind == PkgKind::Platform).expect("a platform row");
    assert_eq!(platform.name, "espressif32");
    assert_eq!(platform.version, "55.3.311");
    assert!(platform.required_spec.as_deref().unwrap().starts_with("https://github.com/pioarduino"));

    let tools: Vec<_> = packages.iter().filter(|p| p.kind == PkgKind::Tool).collect();
    assert_eq!(tools.len(), 6);
    assert!(tools.iter().any(|t| t.name == "tool-esptoolpy" && t.version == "5.3.0"));

    let libs: Vec<_> = packages.iter().filter(|p| p.kind == PkgKind::Library).collect();
    assert_eq!(libs.len(), 2);
    let arduino_json = libs.iter().find(|l| l.name == "ArduinoJson").expect("ArduinoJson");
    assert_eq!(arduino_json.required_spec.as_deref(), Some("bblanchon/ArduinoJson @ 6.21.5"));
}

#[test]
fn unparseable_pkg_list_output_yields_an_empty_list_not_a_panic() {
    assert!(parse_pkg_list("garbage\nmore garbage").is_empty());
    assert!(parse_pkg_list("").is_empty());
}

#[test]
fn a_row_without_a_required_spec_has_none() {
    let p = parse_pkg_list("Libraries\n└── Wire @ 2.0.0\n");
    assert_eq!(p.len(), 1);
    assert_eq!(p[0].name, "Wire");
    assert_eq!(p[0].required_spec, None);
    assert_eq!(p[0].kind, PkgKind::Library);
}

#[test]
fn parses_the_real_captured_outdated_table() {
    let outdated = parse_pkg_outdated(PKG_OUTDATED);
    assert_eq!(outdated.len(), 1);
    let row = &outdated[0];
    assert_eq!(row.name, "ArduinoJson");
    assert_eq!(row.current, "6.21.5");
    assert_eq!(row.wanted, "6.21.5");
    assert_eq!(row.latest, "7.4.3");
    assert_eq!(row.kind, "Library");
    assert_eq!(row.environments, vec!["esp32-c6-devkitm-1"]);
}

#[test]
fn everything_up_to_date_yields_an_empty_list() {
    let text = "Checking\nEverything is up-to-date!\n";
    assert!(parse_pkg_outdated(text).is_empty());
}

#[test]
fn an_outdated_row_with_several_environments_splits_them() {
    let text = "Package  Current  Wanted  Latest  Type  Environments\n---  ---  ---  ---  ---  ---\nFoo  1.0  1.1  2.0  Library  env-a env-b\nshort  row\n";
    let rows = parse_pkg_outdated(text);
    assert_eq!(rows.len(), 1);
    assert_eq!(rows[0].environments, vec!["env-a", "env-b"]);
}

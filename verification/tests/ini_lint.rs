use vibe_core::ini::lint::parse_lint_output;

// Stand-ins for the captured lint transcripts, which are not part of this crate.
const LINT_CLEAN: &str = "The \"platformio.ini\" configuration file is free from linting errors.\n";
const LINT_ERRORS: &str = "\
Warning  Ignore unknown configuration option `totally_bogus_option` in section [env:esp32dev]
ProjectOptionValueError  Invalid value `not_a_real_mode` for option `lib_ldf_mode` in section [env:esp32dev], expected one of off, chain, deep, chain+, deep+

";

#[test]
fn a_clean_file_yields_an_empty_report() {
    let report = parse_lint_output(LINT_CLEAN);
    assert!(report.errors.is_empty());
    assert!(report.warnings.is_empty());
}

#[test]
fn real_captured_invalid_choice_and_unknown_option_parse_correctly() {
    let report = parse_lint_output(LINT_ERRORS);

    assert_eq!(report.errors.len(), 1);
    let err = &report.errors[0];
    assert_eq!(err.kind, "ProjectOptionValueError");
    assert!(err.message.contains("not_a_real_mode"));
    assert!(err.message.contains("lib_ldf_mode"));
    assert_eq!(err.source, None);

    assert_eq!(report.warnings.len(), 1);
    assert!(report.warnings[0].contains("totally_bogus_option"));
}

#[test]
fn a_genuine_parse_error_carries_a_path_line_source() {
    let line = "ParsingError  Parsing error: 'this line has no equals sign and no section'  C:\\Users\\resea\\AppData\\Local\\Temp\\vibe-hw-m7-ini\\platformio.ini:8";
    let report = parse_lint_output(line);
    assert_eq!(report.errors.len(), 1);
    let err = &report.errors[0];
    assert_eq!(err.kind, "ParsingError");
    assert!(err.message.starts_with("Parsing error:"));
    assert_eq!(err.source.as_deref(), Some("C:\\Users\\resea\\AppData\\Local\\Temp\\vibe-hw-m7-ini\\platformio.ini:8"));
}

#[test]
fn blank_lines_and_unrecognized_text_are_skipped_not_fatal() {
    let report = parse_lint_output("\n\nsome unrelated line with no double space\n");
    assert!(report.errors.is_empty());
    assert!(report.warnings.is_empty());
}

#[test]
fn warning_rows_keep_their_text_after_the_kind() {
    let report = parse_lint_output("Warning    something odd   \n  Warning  indented rows have no kind\n");
    assert_eq!(report.warnings, vec!["something odd".to_string()]);
    assert!(report.errors.is_empty());
}

use formatmd::fixture::run_tests_from_file;
use formatmd::FormatterConfig;

fn consecutive_numbering_fixture() -> &'static str {
    "renumber from the start\n.\n1. a\n1. b\n1. c\n.\n1. a\n2. b\n3. c\n.\n"
}

fn default_style_fixture() -> &'static str {
    "normalize bullets\n.\n* a\n* b\n.\n- a\n- b\n.\nkeep canonical lists\n.\n1. a\n2. b\n.\n1. a\n2. b\n.\n"
}

fn wrap_width_50_fixture() -> &'static str {
    "leave a short paragraph alone\n.\nhello world\n.\nhello world\n.\n"
}

#[test]
fn test_consecutive_numbering() {
    let config = FormatterConfig {
        consecutive_numbering: true,
        ..Default::default()
    };
    if let Err(e) = run_tests_from_file(
        "tests/data/consecutive_numbering.md",
        consecutive_numbering_fixture(),
        config,
    ) {
        panic!("{}", e.message());
    }
}

#[test]
fn test_default_style() {
    let config = FormatterConfig::default();
    if let Err(e) = run_tests_from_file(
        "tests/data/default_style.md",
        default_style_fixture(),
        config,
    ) {
        panic!("{}", e.message());
    }
}

#[test]
fn test_wrap_width_50() {
    let config = FormatterConfig {
        wrap_width: 50,
        ..Default::default()
    };
    if let Err(e) = run_tests_from_file(
        "tests/data/wrap_width_50.md",
        wrap_width_50_fixture(),
        config,
    ) {
        panic!("{}", e.message());
    }
}

#[test]
fn test_all_files() {
    let test_files = [
        (
            "consecutive_numbering.md",
            consecutive_numbering_fixture(),
            FormatterConfig {
                consecutive_numbering: true,
                ..Default::default()
            },
        ),
        (
            "default_style.md",
            default_style_fixture(),
            FormatterConfig::default(),
        ),
        (
            "wrap_width_50.md",
            wrap_width_50_fixture(),
            FormatterConfig {
                wrap_width: 50,
                ..Default::default()
            },
        ),
    ];

    let mut all_failures = Vec::new();

    for (file_name, fixture, config) in test_files {
        if let Err(e) = run_tests_from_file(file_name, fixture, config) {
            all_failures.push(e);
        }
    }

    if !all_failures.is_empty() {
        let error_message = all_failures
            .iter()
            .map(|f| f.message())
            .collect::<Vec<_>>()
            .join("\n\n");
        panic!("Test failures:\n{}", error_message);
    }
}

#[test]
fn test_fixture_parsing_sections() {
    let cases = formatmd::fixture::read_fixture_file("desc one\n.\nin put\n.\nout put\n.\n");
    assert_eq!(cases.len(), 1);
    assert_eq!(cases[0].description, "desc one");
    assert_eq!(cases[0].input, "in put");
    assert_eq!(cases[0].expected, "out put");
}

#[test]
fn test_fixture_parsing_multiline() {
    let cases =
        formatmd::fixture::read_fixture_file("t\n.\nline one\nline two\n.\nexpected\n.\nu\n.\na\n.\nb\n.\n");
    assert_eq!(cases.len(), 2);
    assert_eq!(cases[0].input, "line one\nline two");
    assert_eq!(cases[1].description, "u");
    assert_eq!(cases[1].input, "a");
    assert_eq!(cases[1].expected, "b");
}

#[test]
fn test_fixture_failure_reported() {
    let r = run_tests_from_file(
        "broken.md",
        "mismatch\n.\n* a\n.\n* a\n.\n",
        FormatterConfig::default(),
    );
    let failures = r.err().expect("bullet must be normalized, so this case fails");
    assert_eq!(failures.file_name, "broken.md");
    assert_eq!(failures.failures.len(), 1);
    assert_eq!(failures.failures[0].actual, "- a\n");
}

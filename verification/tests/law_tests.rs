use formatmd::conf::{load_opts, EndOfLine, FormatOpts, WrapOption};
use formatmd::escape::process_escapes;
use formatmd::events::{MdEvent, MdTag, MdTagEnd};
use formatmd::parse::parse_document;
use formatmd::post::{normalize, post_process_markdown};
use formatmd::{format_markdown, FormatterConfig, MarkdownFormatter};

fn sample_documents() -> Vec<&'static str> {
    vec![
        "1. a\n2. b\n3. c\n   d",
        "* a\n* b\n+ x\n+ y\n- c\n- d",
        "# Heading\n\nSome *text* with `code` and [a link](https://example.org).\n\n> quoted",
        "Escape*asterisk\\*\n\nplain",
        "```rust\nfn main() {}\n```",
        "a\n\n\n\nb",
        "- item\n  - nested\n    - deeper",
        "text with trailing spaces   \nand a second line",
    ]
}

#[test]
fn test_format_idempotent() {
    for d in sample_documents() {
        let once = format_markdown(d);
        let twice = format_markdown(&once);
        assert_eq!(twice, once, "formatting is not idempotent on {:?}", d);
    }
}

#[test]
fn test_round_trip_events() {
    for d in sample_documents() {
        let before = parse_document(&format_markdown(d));
        let after = parse_document(&format_markdown(&format_markdown(d)));
        assert_eq!(before, after, "reformatting changed the event stream of {:?}", d);
    }
}

#[test]
fn test_round_trip_canonical_document() {
    let d = "# Heading\n\nSome *text* with `code`.\n\n- one\n- two";
    let formatted = format_markdown(d);
    assert_eq!(parse_document(&formatted), parse_document(d));
}

#[test]
fn test_list_renumbering_from_start() {
    let input = "3. a\n5. b\n9. c";
    let expected = "3. a\n4. b\n5. c\n";
    assert_eq!(format_markdown(input), expected);
}

#[test]
fn test_blank_line_collapse() {
    let input = "first paragraph\n\n\n\n\nsecond paragraph";
    let expected = "first paragraph\n\nsecond paragraph\n";
    assert_eq!(format_markdown(input), expected);
}

#[test]
fn test_post_process_collapses_and_trims() {
    assert_eq!(post_process_markdown("a  \nb\n\n\n\nc\n\n"), "a\nb\n\nc\n");
    assert_eq!(post_process_markdown("\n\n  lead"), "lead\n");
}

#[test]
fn test_post_process_idempotent() {
    let once = post_process_markdown("x   \n\n\n\ny\t\n");
    assert_eq!(post_process_markdown(&once), once);
}

#[test]
fn test_normalize_trailing_newline_and_crlf() {
    assert_eq!(normalize("a", false), "a\n");
    assert_eq!(normalize("a\nb", true), "a\r\nb\r\n");
    assert_eq!(normalize("", false), "\n");
}

#[test]
fn test_minimal_escaping_scenarios() {
    assert_eq!(process_escapes("1. x"), "1\\. x");
    assert_eq!(process_escapes("12) y"), "12\\) y");
    assert_eq!(process_escapes("1.No space"), "1.No space");
    assert_eq!(process_escapes("a*b"), "a\\*b");
    assert_eq!(process_escapes("a * b"), "a * b");
    assert_eq!(process_escapes("tick`"), "tick\\`");
    assert_eq!(process_escapes("plain words"), "plain words");
    assert_eq!(process_escapes("- x"), "\\- x");
    assert_eq!(process_escapes("not-a-bullet"), "not-a-bullet");
}

#[test]
fn test_unbalanced_stream_is_refused() {
    let config = FormatterConfig::default();
    let formatter = MarkdownFormatter::new(&config);
    let stray = vec![MdEvent::End(MdTagEnd::ListEnd)];
    let r = formatter.format(&stray);
    let e = r.err().expect("a stray list end must be refused");
    assert!(e.message().contains("not properly nested"));
}

#[test]
fn test_item_outside_list_is_refused() {
    let config = FormatterConfig::default();
    let formatter = MarkdownFormatter::new(&config);
    let stray = vec![MdEvent::Start(MdTag::Item), MdEvent::End(MdTagEnd::Item)];
    assert!(formatter.format(&stray).is_err());
}

#[test]
fn test_formatter_renders_events() {
    let config = FormatterConfig::default();
    let formatter = MarkdownFormatter::new(&config);
    let events = vec![
        MdEvent::Start(MdTag::Paragraph),
        MdEvent::Text("hello".chars().collect()),
        MdEvent::End(MdTagEnd::Paragraph),
    ];
    assert_eq!(formatter.format(&events).unwrap(), "hello\n");
}

#[test]
fn test_parse_document_yields_events() {
    let events = parse_document("# h");
    assert_eq!(
        events,
        vec![
            MdEvent::Start(MdTag::Heading(1)),
            MdEvent::Text("h".chars().collect()),
            MdEvent::End(MdTagEnd::Heading),
        ]
    );
}

#[test]
fn test_heading_level_clamped() {
    let config = FormatterConfig {
        max_header_level: 2,
        ..Default::default()
    };
    let formatter = MarkdownFormatter::new(&config);
    assert_eq!(formatter.format_string("#### deep"), "## deep\n");
}

#[test]
fn test_code_span_delimiters_grow() {
    let input = "`` a`b ``";
    assert_eq!(format_markdown(input), "``a`b``\n");
}

#[test]
fn test_hard_break_kept() {
    let input = "line one\\\nline two";
    assert_eq!(format_markdown(input), "line one\\\nline two\n");
}

#[test]
fn test_task_list_markers() {
    let input = "- [ ] open\n- [x] done";
    assert_eq!(format_markdown(input), "- [ ] open\n- [x] done\n");
}

#[test]
fn test_strikethrough_kept() {
    let input = "some ~~gone~~ text";
    assert_eq!(format_markdown(input), "some ~~gone~~ text\n");
}

#[test]
fn test_load_opts_accepts_valid_toml() {
    let opts: FormatOpts = load_opts("wrap = \"keep\"\nvalidate = true\n", "cfg.toml").unwrap();
    assert!(matches!(opts.wrap, WrapOption::Keep));
    assert!(matches!(opts.end_of_line, EndOfLine::Lf));
    assert!(opts.validate);
}

#[test]
fn test_load_opts_rejects_bad_toml() {
    assert!(load_opts("not [ valid toml", "cfg.toml").is_err());
}

#[test]
fn test_load_opts_rejects_bad_schema() {
    let r = load_opts("wrap = false\n", "cfg.toml");
    assert!(r.err().unwrap().message().contains("Invalid 'wrap' value"));
}

#[test]
fn test_image_and_link_rendering() {
    let input = "![alt](img.png) and [text](url \"title\")";
    assert_eq!(format_markdown(input), "![alt](img.png) and [text](url \"title\")\n");
}

#[test]
fn test_out_of_range_heading_refused() {
    let config = FormatterConfig::default();
    let formatter = MarkdownFormatter::new(&config);
    let bad = vec![MdEvent::Start(MdTag::Heading(9)), MdEvent::End(MdTagEnd::Heading)];
    assert!(formatter.format(&bad).is_err());
}

#[test]
fn test_empty_stream_formats_to_one_newline() {
    let config = FormatterConfig::default();
    let formatter = MarkdownFormatter::new(&config);
    assert_eq!(formatter.format(&Vec::new()).unwrap(), "\n");
}

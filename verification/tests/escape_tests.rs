use formatmd::format_markdown;

#[test]
fn test_dont_escape_hash() {
    let input = "- Recalculate secondary dependencies between rounds (#378)";
    let expected = "- Recalculate secondary dependencies between rounds (#378)\n";
    assert_eq!(format_markdown(input), expected);
}

#[test]
fn test_only_escape_first_paren_or_dot() {
    let input = "1\\) Only the first \"\\)\" of a line should be escaped in this paragraph.\n\n1\\. Only the first \"\\.\" of a line should be escaped in this paragraph.\n\nFirst \\. or \\) char should not be escaped here because this line does not look like a list.";
    let expected = "1\\) Only the first \")\" of a line should be escaped in this paragraph.\n\n1\\. Only the first \".\" of a line should be escaped in this paragraph.\n\nFirst . or ) char should not be escaped here because this line does not look like a list.\n";
    assert_eq!(format_markdown(input), expected);
}

#[test]
fn test_escape_exclamation_preceding_link() {
    let input = "We must escape the exclamation here \\![link](https://www.debian.org/)!!!";
    let expected = "We must escape the exclamation here \\![link](https://www.debian.org/)!!!\n";
    assert_eq!(format_markdown(input), expected);
}

#[test]
fn test_asterisk_escapes() {
    let input = "Escape*asterisk\\*\n\nDon't * escape\u{a0}*\u{a0}asterisk";
    let expected = "Escape\\*asterisk\\*\n\nDon't * escape\u{a0}*\u{a0}asterisk\n";
    assert_eq!(format_markdown(input), expected);
}

#[test]
fn test_underscore_escapes() {
    let input = "Do _escape\n\nDon't esc_ape\n\nDon't _ escape\u{a0}_\u{a0}underscore";
    let expected = "Do \\_escape\n\nDon't esc_ape\n\nDon't _ escape\u{a0}_\u{a0}underscore\n";
    assert_eq!(format_markdown(input), expected);
}

#[test]
fn test_dont_escape_hash_not_followed_by_space() {
    let input = "#No space after hash -> no need to escape";
    let expected = "#No space after hash -> no need to escape\n";
    assert_eq!(format_markdown(input), expected);
}

#[test]
fn test_only_escape_first_paren_or_dot_trailing() {
    // paragraph reflow keeps the marker escape line-start-only
    let input = "12\\. twelve";
    let expected = "12\\. twelve\n";
    assert_eq!(format_markdown(input), expected);
}

#[test]
fn test_dont_escape_list_item_marker() {
    let input = "1.No need to escape the dot here\n1)No need to escape the closing bracket here\n1.\u{a0}No need to escape the dot here (there is a no-break-space, not space)\n\nThis needs escaping (end of line after the dot)\n 1.\n\nThis needs escaping (space after the closing bracket)\n 1) ";
    let expected = "1.No need to escape the dot here 1)No need to escape the closing bracket here 1.\u{a0}No need to escape the dot here (there is a no-break-space, not space)\n\nThis needs escaping (end of line after the dot) 1.\n\nThis needs escaping (space after the closing bracket) 1)\n";
    assert_eq!(format_markdown(input), expected);
}

#[test]
fn test_escape_line_starting_plus_minus() {
    let input = "\\+\n\n\\+No need to escape plus\n+No need to escape plus\n\n\\-\n\n\\-No need to escape dash\n-No need to escape dash";
    let expected = "\\+\n\n+No need to escape plus +No need to escape plus\n\n\\-\n\n-No need to escape dash -No need to escape dash\n";
    assert_eq!(format_markdown(input), expected);
}

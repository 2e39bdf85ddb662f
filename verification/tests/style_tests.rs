use formatmd::format_markdown;

#[test]
fn test_strip_quotes() {
    let input = "> Paragraph 1\n> \n> Paragraph 2";
    let expected = "> Paragraph 1\n>\n> Paragraph 2\n";
    assert_eq!(format_markdown(input), expected);
}

#[test]
fn test_no_escape_ampersand() {
    let input = "R&B, rock & roll";
    let expected = "R&B, rock & roll\n";
    assert_eq!(format_markdown(input), expected);
}

#[test]
fn test_convert_setext_to_atx_heading() {
    let input = "Top level heading\n=========\n\n2nd level heading\n---------";
    let expected = "# Top level heading\n\n## 2nd level heading\n";
    assert_eq!(format_markdown(input), expected);
}

#[test]
fn test_thematic_breaks() {
    let input = "something something\n\n---\n\nsomething something";
    let expected = "something something\n\n______________________________________________________________________\n\nsomething something\n";
    assert_eq!(format_markdown(input), expected);
}

#[test]
fn test_empty_document() {
    let input = "";
    let expected = "\n";
    assert_eq!(format_markdown(input), expected);
}

#[test]
fn test_autolink_with_percentage_encoded_space() {
    let input = "<https://mytest.com/files/word%20document.docx>";
    let expected = "<https://mytest.com/files/word%20document.docx>\n";
    assert_eq!(format_markdown(input), expected);
}

#[test]
fn test_keep_mailto_prefix() {
    let input = "<MAILTO:FOO@BAR.BAZ>>";
    let expected = "<MAILTO:FOO@BAR.BAZ>>\n";
    assert_eq!(format_markdown(input), expected);
}

#[test]
fn test_tilde_in_info_string() {
    let input = "```~/.gitconfig\n[user]\n```";
    let expected = "```~/.gitconfig\n[user]\n```\n";
    assert_eq!(format_markdown(input), expected);
}

#[test]
fn test_info_string_starts_with_tilde_and_contains_backtick() {
    let input = "~~~\\~`\n123\n~~~";
    let expected = "~~~\\~`\n123\n~~~\n";
    assert_eq!(format_markdown(input), expected);
}

#[test]
fn test_unicode_space_after_heading() {
    let input = "# hoge\n\u{3000}\n";
    let expected = "# hoge\n";
    assert_eq!(format_markdown(input), expected);
}

#[test]
fn test_tabs_to_spaces() {
    let input = "# Convert\ttab\tto\tspace\tin\t\t\theadings\n\nMake a space\there.";
    let expected = "# Convert tab to space in headings\n\nMake a space here.\n";
    assert_eq!(format_markdown(input), expected);
}

#[test]
fn test_reduce_tabs_and_spaces_to_one_space() {
    let input = "# Reduce   \t\tin\t\t\t  \theadings\n\nReduce to a space\t \there.";
    let expected = "# Reduce in headings\n\nReduce to a space here.\n";
    assert_eq!(format_markdown(input), expected);
}

#[test]
fn test_strip_paragraph_lines() {
    let input = "trailing whitespace \nat the end of paragraph lines \nshould be stripped                   ";
    let expected = "trailing whitespace at the end of paragraph lines should be stripped\n";
    assert_eq!(format_markdown(input), expected);
}

#[test]
fn test_less_than_sign_escapes() {
    let input = "< no escape < no escape, now escape <\n<\n\n<";
    let expected = "< no escape < no escape, now escape < \\<\n\n\\<\n";
    assert_eq!(format_markdown(input), expected);
}

#[test]
fn test_indented_raw_html_contains_markdown() {
    let input = "  <center>\n\n - list item\n\n  </center>";
    let expected = "<center>\n\n- list item\n\n</center>\n";
    assert_eq!(format_markdown(input), expected);
}

#[test]
fn test_keep_inline_html_as_inline_and_block_html_as_block() {
    let input = "A\n    <div>\n\nA\n   <div>";
    let expected = "A <div>\n\nA\n\n<div>\n";
    assert_eq!(format_markdown(input), expected);
}

#[test]
fn test_keep_html_blocks_of_type_7_unindented() {
    let input = "text\n<br/>\ntext";
    let expected = "text <br/> text\n";
    assert_eq!(format_markdown(input), expected);
}

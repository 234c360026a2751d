use models_tui::markdown::{
    changelog_to_lines, changelog_to_lines_highlighted, line_contains_match, parse_inline_spans,
    trim_chars, MdLine, MdStyle,
};

fn contents(line: &MdLine) -> Vec<&str> {
    line.spans.iter().map(|s| s.text.as_str()).collect()
}

fn joined(line: &MdLine) -> String {
    line.spans.iter().map(|s| s.text.as_str()).collect()
}

#[test]
fn header_is_magenta_bold() {
    let lines = changelog_to_lines("## Bug Fixes");
    assert_eq!(lines.len(), 1);
    assert_eq!(lines[0].spans.len(), 1);
    assert_eq!(lines[0].spans[0].text, "Bug Fixes");
    assert_eq!(lines[0].spans[0].style, MdStyle::Header);
}

#[test]
fn h3_header_is_magenta_bold() {
    let lines = changelog_to_lines("### New Features");
    assert_eq!(lines.len(), 1);
    assert_eq!(lines[0].spans[0].text, "New Features");
    assert_eq!(lines[0].spans[0].style, MdStyle::Header);
}

#[test]
fn h1_header_is_skipped() {
    let lines = changelog_to_lines("# What's Changed");
    assert!(lines.is_empty());
}

#[test]
fn bullet_with_inline_code() {
    let lines = changelog_to_lines("- Fixed `crash` on startup");
    assert_eq!(lines.len(), 1);
    assert_eq!(lines[0].spans[0].text, "  \u{2022} ");
    assert_eq!(lines[0].spans[0].style, MdStyle::Bullet);
    assert_eq!(lines[0].spans[1].text, "Fixed ");
    assert_eq!(lines[0].spans[2].text, "crash");
    assert_eq!(lines[0].spans[2].style, MdStyle::Code);
    assert_eq!(lines[0].spans[3].text, " on startup");
}

#[test]
fn bold_text() {
    let lines = changelog_to_lines("- **Full Changelog**: see repo");
    assert_eq!(lines[0].spans[1].text, "Full Changelog");
    assert_eq!(lines[0].spans[1].style, MdStyle::Bold);
}

#[test]
fn markdown_link_renders_label_only() {
    let lines = changelog_to_lines("- Improved picker ([#61215](https://github.com/z/z/pull/61215))");
    let c = contents(&lines[0]);
    let label = lines[0].spans.iter().find(|s| s.text == "#61215").expect("link label span");
    assert_eq!(label.style, MdStyle::Url);
    assert!(!c.iter().any(|s| s.contains("https://")));
    assert!(!c.iter().any(|s| s.contains("](")));
}

#[test]
fn markdown_link_mixed_with_bare_url() {
    let lines = changelog_to_lines("- [docs](https://a.io/d) and https://b.io/x");
    let c = contents(&lines[0]);
    assert!(c.contains(&"docs"));
    assert!(c.contains(&"https://b.io/x"));
    assert!(!c.iter().any(|s| s.contains("a.io")));
}

#[test]
fn url_is_cyan_underlined() {
    let lines = changelog_to_lines("- See https://github.com/foo/bar");
    let url = lines[0].spans.iter().find(|s| s.text.starts_with("https://")).unwrap();
    assert_eq!(url.style, MdStyle::Url);
}

#[test]
fn blank_lines_preserved() {
    let lines = changelog_to_lines("## Header\n\n- item");
    assert_eq!(lines.len(), 3);
    assert_eq!(lines[1].spans.len(), 0);
}

#[test]
fn plain_text_indented() {
    let lines = changelog_to_lines("Some plain text");
    assert_eq!(lines.len(), 1);
    assert_eq!(lines[0].spans[0].text, "  ");
    assert_eq!(lines[0].spans[1].text, "Some plain text");
}

#[test]
fn highlight_splits_spans() {
    let lines = changelog_to_lines_highlighted("- Fixed crash on startup", "crash");
    let hl = lines[0].spans.iter().find(|s| s.text == "crash").unwrap();
    assert_eq!(hl.style, MdStyle::Highlight);
}

#[test]
fn highlight_case_insensitive() {
    let lines = changelog_to_lines_highlighted("- Added STREAMING support", "streaming");
    let hl = lines[0].spans.iter().find(|s| s.text == "STREAMING").unwrap();
    assert_eq!(hl.style, MdStyle::Highlight);
}

#[test]
fn highlight_preserves_no_match_lines() {
    let lines = changelog_to_lines_highlighted("## Bug Fixes\n- Fixed crash", "crash");
    assert_eq!(lines[0].spans[0].style, MdStyle::Header);
    assert!(lines[1].spans.iter().any(|s| s.style == MdStyle::Highlight));
}

#[test]
fn line_contains_match_works() {
    let lines = changelog_to_lines("- Fixed crash on startup");
    assert!(line_contains_match(&lines[0], "crash"));
    assert!(!line_contains_match(&lines[0], "missing"));
}

#[test]
fn mixed_inline_formatting() {
    let lines = changelog_to_lines("- Added **new** `feature` at https://example.com");
    let spans = &lines[0].spans;
    assert_eq!(spans[0].text, "  \u{2022} ");
    assert_eq!(spans[1].text, "Added ");
    assert_eq!(spans[2].text, "new");
    assert_eq!(spans[2].style, MdStyle::Bold);
    assert_eq!(spans[3].text, " ");
    assert_eq!(spans[4].text, "feature");
    assert_eq!(spans[4].style, MdStyle::Code);
    assert_eq!(spans[5].text, " at ");
    assert_eq!(spans[6].text, "https://example.com");
    assert_eq!(spans[6].style, MdStyle::Url);
}

#[test]
fn crlf_lines_and_surrounding_whitespace() {
    let lines = changelog_to_lines("  ## Title \r\n\t* item\r\n");
    assert_eq!(lines.len(), 2);
    assert_eq!(contents(&lines[0]), vec!["Title"]);
    assert_eq!(contents(&lines[1]), vec!["  \u{2022} ", "item"]);
}

#[test]
fn unclosed_markup_stays_plain() {
    let lines = changelog_to_lines("- **open and `tick and [label](no close");
    assert_eq!(lines[0].spans.len(), 2);
    assert_eq!(lines[0].spans[1].style, MdStyle::Plain);
    assert_eq!(lines[0].spans[1].text, "**open and `tick and [label](no close");
}

#[test]
fn bold_takes_the_shortest_run() {
    let v: Vec<char> = "**a** and **b**".chars().collect();
    let spans = parse_inline_spans(&v);
    let got: Vec<(&str, MdStyle)> = spans.iter().map(|s| (s.text.as_str(), s.style)).collect();
    assert_eq!(got, vec![("a", MdStyle::Bold), (" and ", MdStyle::Plain), ("b", MdStyle::Bold)]);
}

#[test]
fn bare_url_stops_at_closing_bracket() {
    let v: Vec<char> = "(see http://x.io/a)".chars().collect();
    let spans = parse_inline_spans(&v);
    let got: Vec<&str> = spans.iter().map(|s| s.text.as_str()).collect();
    assert_eq!(got, vec!["(see ", "http://x.io/a", ")"]);
    let empty = parse_inline_spans(&Vec::new());
    assert_eq!(empty.len(), 1);
    assert_eq!(empty[0].text, "");
}

#[test]
fn trim_drops_unicode_whitespace() {
    let v: Vec<char> = "\u{3000}\u{a0} x y\u{2028}".chars().collect();
    let t: String = trim_chars(&v).into_iter().collect();
    assert_eq!(t, "x y");
}

#[test]
fn highlight_keeps_text_and_marks_every_occurrence() {
    let plain = changelog_to_lines("- abcABCabc");
    let lit = changelog_to_lines_highlighted("- abcABCabc", "abc");
    assert_eq!(joined(&plain[0]), joined(&lit[0]));
    let marked = lit[0].spans.iter().filter(|s| s.style == MdStyle::Highlight).count();
    assert_eq!(marked, 3);
    let unchanged = changelog_to_lines_highlighted("- abc", "");
    assert_eq!(unchanged, changelog_to_lines("- abc"));
}

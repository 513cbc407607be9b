use ised::utils::{highlight_match, Color, Line};

fn line_to_string(line: &Line) -> String {
    line.spans.iter().map(|s| s.content.as_str()).collect::<String>()
}

#[test]
fn test_highlight_no_match() {
    let input = "this line has no match";
    let pattern = "not_found";
    let result = highlight_match(input, pattern);

    assert_eq!(result.len(), 1);
    let line = line_to_string(&result[0]);
    assert_eq!(line, input);

    assert!(result[0].spans.iter().all(|s| s.style.fg.is_none()));
}

#[test]
fn test_highlight_single_match() {
    let input = "match here please";
    let pattern = "match";
    let result = highlight_match(input, pattern);

    let line = line_to_string(&result[0]);
    assert_eq!(line, input);

    assert_eq!(result[0].spans.len(), 2);

    let first = &result[0].spans[0];
    assert_eq!(first.content.as_str(), "match");
    assert_eq!(first.style.fg, Some(Color::Green));
}

#[test]
fn test_highlight_multiple_matches_only_first() {
    let input = "repeat repeat repeat";
    let pattern = "repeat";
    let result = highlight_match(input, pattern);

    let line = line_to_string(&result[0]);
    assert_eq!(line, input);

    assert_eq!(
        result[0]
            .spans
            .iter()
            .filter(|s| s.style.fg == Some(Color::Green))
            .count(),
        1
    );
}

#[test]
fn test_highlight_partial_match() {
    let input = "only match part of this";
    let pattern = "part";
    let result = highlight_match(input, pattern);

    let line = line_to_string(&result[0]);
    assert!(line.contains("part"));
    assert!(result[0]
        .spans
        .iter()
        .any(|s| s.content.as_str() == "part" && s.style.fg == Some(Color::Green)));
}

#[test]
fn highlight_in_the_middle_gives_three_spans() {
    let result = highlight_match("src/main.rs", "main");
    let spans = &result[0].spans;
    assert_eq!(spans.len(), 3);
    assert_eq!(spans[0].content, "src/");
    assert_eq!(spans[1].content, "main");
    assert!(spans[1].style.bold);
    assert_eq!(spans[2].content, ".rs");
    assert!(!spans[2].style.bold);
}

#[test]
fn highlight_at_the_end_and_of_the_whole() {
    let result = highlight_match("a/b.rs", ".rs");
    assert_eq!(result[0].spans.len(), 2);
    assert_eq!(result[0].spans[1].content, ".rs");
    let whole = highlight_match("abc", "abc");
    assert_eq!(whole[0].spans.len(), 1);
    assert_eq!(whole[0].spans[0].style.fg, Some(Color::Green));
}

#[test]
fn highlight_counts_characters_not_bytes() {
    let result = highlight_match("héé/été.rs", "été");
    let spans = &result[0].spans;
    assert_eq!(spans.len(), 3);
    assert_eq!(spans[0].content, "héé/");
    assert_eq!(spans[1].content, "été");
    assert_eq!(spans[2].content, ".rs");
}

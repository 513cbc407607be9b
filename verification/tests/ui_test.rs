use ised::app::{App, ConfirmState, Focus};
use ised::ui::{
    char_count, cursor_in_field, cursor_visual_position, draw, first_row, list_rows, prompt,
    safe_slice_chars, visible_input, visible_lines, width_of, Dimensions,
};
use ised::utils::{highlight_diff_lines, Color, Line};

fn text_of(line: &Line) -> String {
    line.spans.iter().map(|s| s.content.as_str()).collect()
}

fn sizes() -> Dimensions {
    Dimensions { list_height: 5, filter_width: 6, from_width: 7, to_width: 8, diff_height: 4 }
}

#[test]
fn slices_count_characters() {
    assert_eq!(safe_slice_chars("héllo wörld", 1, 4), "éll");
    assert_eq!(safe_slice_chars("héllo", 0, 5), "héllo");
    assert_eq!(safe_slice_chars("héllo", 3, 99), "lo");
    assert_eq!(safe_slice_chars("héllo", 5, 9), "");
    assert_eq!(safe_slice_chars("héllo", 9, 2), "");
    assert_eq!(safe_slice_chars("", 0, 0), "");
    assert_eq!(safe_slice_chars("abc", 2, 2), "");
}

#[test]
fn characters_are_counted() {
    assert_eq!(char_count(""), 0);
    assert_eq!(char_count("héllo"), 5);
    assert_eq!(char_count("日本語"), 3);
}

#[test]
fn wide_characters_take_two_columns() {
    assert_eq!(width_of('a'), 1);
    assert_eq!(width_of('é'), 1);
    for c in ['\u{1100}', 'あ', 'ア', '\u{3100}', '\u{3200}', '\u{3400}', '日', '\u{A960}', '한', '\u{D7B0}', '\u{F900}', '\u{FE10}', '\u{FE30}', 'Ａ', '\u{FFEF}'] {
        assert_eq!(width_of(c), 2, "{:?}", c);
    }
    for c in ['\u{10FF}', '\u{1200}', '\u{303F}', '\u{3130}', '\u{4DC0}', '\u{A000}', '\u{FFF0}', '\u{1F600}'] {
        assert_eq!(width_of(c), 1, "{:?}", c);
    }
}

#[test]
fn cursor_column_is_the_width_before_it() {
    assert_eq!(cursor_visual_position("abc", 0), 0);
    assert_eq!(cursor_visual_position("abc", 2), 2);
    assert_eq!(cursor_visual_position("abc", 9), 3);
    assert_eq!(cursor_visual_position("a日本b", 1), 1);
    assert_eq!(cursor_visual_position("a日本b", 2), 3);
    assert_eq!(cursor_visual_position("a日本b", 4), 6);
}

#[test]
fn an_input_shows_what_fits() {
    assert_eq!(visible_input("hello world", 0, 5), "hello");
    assert_eq!(visible_input("hello world", 6, 40), "world");
    assert_eq!(visible_input("hello", 5, 3), "");
    assert_eq!(visible_input("hello", 9, 3), "");
    assert_eq!(visible_input("hello", 1, 0), "");
    // A wide character that does not fit whole is not shown.
    assert_eq!(visible_input("a日本b", 0, 2), "a");
    assert_eq!(visible_input("a日本b", 0, 3), "a日");
    assert_eq!(visible_input("a日本b", 1, 4), "日本");
    assert_eq!(cursor_in_field("a日本b", 3, 1, 4), 4);
    assert_eq!(cursor_in_field("a日本b", 2, 1, 4), 2);
    assert_eq!(cursor_in_field("a日本b", 0, 1, 4), 0);
    assert_eq!(cursor_in_field("abc", 9, 0, 2), 2);
}

#[test]
fn the_list_window_keeps_the_selection_in_sight() {
    assert_eq!(first_row(0, 0, 5), 0);
    assert_eq!(first_row(4, 0, 5), 0);
    assert_eq!(first_row(5, 0, 5), 1);
    assert_eq!(first_row(9, 2, 5), 5);
    assert_eq!(first_row(1, 3, 5), 1);
    assert_eq!(first_row(3, 3, 5), 3);
    assert_eq!(first_row(3, 0, 0), 4);
}

#[test]
fn rows_mark_the_filter_text_and_the_selection() {
    let files: Vec<String> = ["a.rs", "b.rs", "c.txt", "d.rs"].iter().map(|s| s.to_string()).collect();
    let rows = list_rows(&files, ".rs", 2, 1, 2);
    assert_eq!(rows.len(), 2);
    assert_eq!(text_of(&rows[0].text[0]), "b.rs");
    assert!(!rows[0].selected);
    assert_eq!(rows[0].text[0].spans[1].style.fg, Some(Color::Green));
    assert_eq!(text_of(&rows[1].text[0]), "c.txt");
    assert!(rows[1].selected);
    assert_eq!(rows[1].text[0].spans.len(), 1);
    assert_eq!(list_rows(&files, "", 0, 3, 5).len(), 1);
    assert!(list_rows(&files, "", 0, 4, 5).is_empty());
    assert!(list_rows(&files, "", 0, 0, 0).is_empty());
}

#[test]
fn the_prompt_names_the_file() {
    assert_eq!(prompt(&ConfirmState::Idle), "");
    assert_eq!(
        prompt(&ConfirmState::Confirming("src/a.rs".to_string())),
        "Apply changes to src/a.rs? (y/n)"
    );
    assert_eq!(
        prompt(&ConfirmState::ConfirmingAll(vec!["x".to_string()])),
        "Apply changes to ALL files? (y/n)"
    );
}

#[test]
fn the_diff_view_scrolls() {
    let lines = highlight_diff_lines("a\nb\nc\nd".to_string(), "a\nb\nc\nd".to_string());
    let texts = |shown: Vec<Line>| shown.iter().map(text_of).collect::<Vec<String>>();
    assert_eq!(texts(visible_lines(&lines, 0, 2)), vec!["a", "b"]);
    assert_eq!(texts(visible_lines(&lines, 3, 2)), vec!["d"]);
    assert_eq!(texts(visible_lines(&lines, 1, 9)), vec!["b", "c", "d"]);
    assert!(visible_lines(&lines, 4, 2).is_empty());
    assert!(visible_lines(&lines, 0, 0).is_empty());
}

#[test]
fn draw_while_loading() {
    let mut app = App::new(None);
    let screen = draw(&mut app, &[], None, &sizes());
    assert_eq!(screen.loading, Some("| Loading files...".to_string()));
    assert!(screen.rows.is_empty());
    assert_eq!((app.filter_field_width, app.from_field_width, app.to_field_width), (4, 5, 6));
    assert_eq!(screen.cursor, None);
    assert_eq!(screen.prompt, "");
    assert_eq!(screen.diff.len(), 1);
    assert_eq!(text_of(&screen.diff[0]), "No file selected.");
    assert_eq!(screen.focus, Focus::FileList);
}

#[test]
fn draw_with_a_selected_file() {
    let mut app = App::new(None);
    let files: Vec<String> = (0..6).map(|i| format!("f{}.rs", i)).collect();
    app.load_files(files.clone());
    app.selected = 4;
    app.from_input = "b".to_string();
    app.from_cursor = 1;
    app.to_input = "long replacement".to_string();
    app.to_cursor = 16;
    app.to_view_offset = 11;
    app.focus = Focus::To;
    app.diff_scroll = 1;
    app.confirm = ConfirmState::Confirming("f4.rs".to_string());
    let screen = draw(&mut app, &files, Some("a\nb\nc".to_string()), &sizes());
    assert_eq!(screen.loading, None);
    // Three rows fit inside the border; the selection is the last of them.
    let shown: Vec<String> = screen.rows.iter().map(|r| text_of(&r.text[0])).collect();
    assert_eq!(shown, vec!["f2.rs", "f3.rs", "f4.rs"]);
    assert!(screen.rows[2].selected);
    assert_eq!(screen.from_text, "b");
    assert_eq!(screen.to_text, "ement");
    assert_eq!(screen.cursor, Some(5));
    assert_eq!(screen.prompt, "Apply changes to f4.rs? (y/n)");
    // The diff of "a\nb\nc" against "a\nlong replacement\nc", from its second line on.
    let diff: Vec<String> = screen.diff.iter().map(text_of).collect();
    assert_eq!(diff, vec!["- b", "+ long replacement"]);
}

#[test]
fn draw_on_a_screen_without_room() {
    let mut app = App::new(None);
    app.load_files(vec!["a".to_string()]);
    app.focus = Focus::From;
    app.from_input = "abc".to_string();
    let none = Dimensions { list_height: 1, filter_width: 0, from_width: 2, to_width: 1, diff_height: 0 };
    let screen = draw(&mut app, &["a".to_string()], None, &none);
    assert!(screen.rows.is_empty());
    assert!(screen.diff.is_empty());
    assert_eq!(screen.from_text, "");
    assert_eq!(screen.cursor, Some(0));
    assert_eq!(app.from_field_width, 0);
}

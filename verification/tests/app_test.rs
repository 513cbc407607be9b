use ised::app::{App, ConfirmState, Focus, KeyAction, KeyCode, KeyEvent};
use ised::cache::ReadError;
use ised::field::{
    insert_char, remove_char, scroll_view_left, scroll_view_right, update_view_offset_for_cursor,
};
use ised::substitution::{plan_commit, preview, CommitBatch, CommitError, WriteError};
use ised::utils::DiffTag;
use ised::watch::{changed_path, ChangeKind};

fn key(code: KeyCode) -> KeyEvent {
    KeyEvent { code, control: false }
}

fn ctrl(c: char) -> KeyEvent {
    KeyEvent { code: KeyCode::Char(c), control: true }
}

fn files(paths: &[&str]) -> Vec<String> {
    paths.iter().map(|p| p.to_string()).collect()
}

fn type_text(app: &mut App, text: &str) {
    for c in text.chars() {
        app.handle_key_event(key(KeyCode::Char(c)), &[]);
    }
}

#[test]
fn starts_loading_with_the_focus_on_the_file_list() {
    let app = App::new(None);
    assert!(app.is_loading);
    assert!(app.files.is_empty());
    assert_eq!(app.focus, Focus::FileList);
    assert_eq!(app.spinner, '|');
    assert_eq!((app.filter_field_width, app.from_field_width, app.to_field_width), (40, 40, 40));
    assert!(matches!(app.confirm, ConfirmState::Idle));
    let by_default = App::default();
    assert_eq!(by_default.filter_input, "");
}

#[test]
fn spinner_turns_in_four_steps() {
    let mut app = App::new(None);
    let mut seen = String::new();
    for _ in 0..5 {
        app.spin();
        seen.push(app.spinner);
    }
    assert_eq!(seen, "/-\\|/");
    app.spinner = 'x';
    app.spin();
    assert_eq!(app.spinner, '|');
}

#[test]
fn tab_cycles_and_control_letters_name_the_focus() {
    let mut app = App::new(None);
    let mut order = Vec::new();
    for _ in 0..5 {
        app.handle_key_event(key(KeyCode::Tab), &[]);
        order.push(app.focus);
    }
    assert_eq!(
        order,
        vec![Focus::FilePathFilter, Focus::DiffView, Focus::From, Focus::To, Focus::FileList]
    );
    for (c, focus) in [
        ('g', Focus::FilePathFilter),
        ('d', Focus::DiffView),
        ('f', Focus::From),
        ('t', Focus::To),
        ('l', Focus::FileList),
    ] {
        assert!(matches!(app.handle_key_event(ctrl(c), &[]), KeyAction::Nothing));
        assert_eq!(app.focus, focus);
    }
}

#[test]
fn control_c_quits() {
    let mut app = App::new(None);
    assert!(matches!(app.handle_key_event(ctrl('c'), &[]), KeyAction::Quit));
    // Without Control it is a character like any other.
    app.focus = Focus::From;
    assert!(matches!(app.handle_key_event(key(KeyCode::Char('c')), &[]), KeyAction::Nothing));
    assert_eq!(app.from_input, "c");
}

#[test]
fn typing_goes_to_the_focused_input() {
    let mut app = App::new(None);
    app.selected = 3;
    app.offset = 2;
    app.focus = Focus::From;
    type_text(&mut app, "fo+");
    assert_eq!(app.from_input, "fo+");
    assert_eq!(app.from_cursor, 3);
    assert_eq!((app.selected, app.offset), (3, 2));
    app.focus = Focus::To;
    type_text(&mut app, "bar");
    assert_eq!(app.to_input, "bar");
    app.focus = Focus::FilePathFilter;
    type_text(&mut app, "*.rs");
    assert_eq!(app.filter_input, "*.rs");
    assert_eq!((app.selected, app.offset), (0, 0));
    // In the file list nothing is typed.
    app.focus = Focus::FileList;
    type_text(&mut app, "xz");
    assert_eq!((app.filter_input.as_str(), app.from_input.as_str(), app.to_input.as_str()), ("*.rs", "fo+", "bar"));
}

#[test]
fn typing_inserts_at_the_cursor() {
    let mut app = App::new(None);
    app.focus = Focus::From;
    type_text(&mut app, "héo");
    app.handle_key_event(key(KeyCode::Left), &[]);
    assert_eq!(app.from_cursor, 2);
    type_text(&mut app, "ll");
    assert_eq!(app.from_input, "héllo");
    assert_eq!(app.from_cursor, 4);
    app.handle_key_event(key(KeyCode::Right), &[]);
    app.handle_key_event(key(KeyCode::Right), &[]);
    assert_eq!(app.from_cursor, 5);
    app.handle_key_event(key(KeyCode::Backspace), &[]);
    assert_eq!(app.from_input, "héll");
    for _ in 0..3 {
        app.handle_key_event(key(KeyCode::Left), &[]);
    }
    app.handle_key_event(key(KeyCode::Backspace), &[]);
    assert_eq!(app.from_input, "éll");
    assert_eq!(app.from_cursor, 0);
    app.handle_key_event(key(KeyCode::Backspace), &[]);
    assert_eq!(app.from_input, "éll");
}

#[test]
fn backspace_in_the_glob_filter_resets_the_selection() {
    let mut app = App::new(None);
    app.focus = Focus::FilePathFilter;
    type_text(&mut app, "ab");
    app.selected = 4;
    app.offset = 1;
    app.handle_key_event(key(KeyCode::Backspace), &[]);
    assert_eq!(app.filter_input, "a");
    assert_eq!((app.selected, app.offset), (0, 0));
    app.focus = Focus::To;
    app.selected = 2;
    app.handle_key_event(key(KeyCode::Backspace), &[]);
    assert_eq!(app.selected, 2);
}

#[test]
fn the_view_follows_the_cursor() {
    let mut app = App::new(None);
    app.update_field_widths(3, 4, 5);
    assert_eq!((app.filter_field_width, app.from_field_width, app.to_field_width), (3, 4, 5));
    app.focus = Focus::FilePathFilter;
    type_text(&mut app, "abc");
    assert_eq!(app.filter_view_offset, 0);
    type_text(&mut app, "d");
    // Four characters in three columns, cursor at 4: the view shows 2..5.
    assert_eq!((app.filter_cursor, app.filter_view_offset), (4, 2));
    for _ in 0..3 {
        app.handle_key_event(key(KeyCode::Left), &[]);
    }
    assert_eq!((app.filter_cursor, app.filter_view_offset), (1, 1));
    app.handle_key_event(key(KeyCode::Left), &[]);
    assert_eq!((app.filter_cursor, app.filter_view_offset), (0, 0));
    // At the start the left arrow scrolls, and there is nothing to scroll.
    app.handle_key_event(key(KeyCode::Left), &[]);
    assert_eq!((app.filter_cursor, app.filter_view_offset), (0, 0));
    for _ in 0..4 {
        app.handle_key_event(key(KeyCode::Right), &[]);
    }
    assert_eq!((app.filter_cursor, app.filter_view_offset), (4, 2));
    // At the end the right arrow scrolls, as far as the text goes.
    app.handle_key_event(key(KeyCode::Right), &[]);
    assert_eq!((app.filter_cursor, app.filter_view_offset), (4, 2));
}

#[test]
fn view_offset_rules() {
    let mut offset = 5;
    update_view_offset_for_cursor(2, &mut offset, 10, 20);
    assert_eq!(offset, 0);
    offset = 5;
    update_view_offset_for_cursor(2, &mut offset, 30, 20);
    assert_eq!(offset, 2);
    offset = 5;
    update_view_offset_for_cursor(25, &mut offset, 30, 20);
    assert_eq!(offset, 6);
    offset = 5;
    update_view_offset_for_cursor(24, &mut offset, 30, 20);
    assert_eq!(offset, 5);
    offset = 5;
    scroll_view_left(&mut offset, 30, 20);
    assert_eq!(offset, 4);
    scroll_view_left(&mut offset, 10, 20);
    assert_eq!(offset, 4);
    offset = 0;
    scroll_view_left(&mut offset, 30, 20);
    assert_eq!(offset, 0);
    offset = 9;
    scroll_view_right(&mut offset, 30, 20);
    assert_eq!(offset, 10);
    scroll_view_right(&mut offset, 30, 20);
    assert_eq!(offset, 10);
    scroll_view_right(&mut offset, 10, 20);
    assert_eq!(offset, 10);
}

#[test]
fn characters_are_inserted_and_removed_by_position() {
    assert_eq!(insert_char(&"hé".to_string(), 2, '!'), "hé!");
    assert_eq!(insert_char(&"hé".to_string(), 1, 'x'), "hxé");
    assert_eq!(insert_char(&"".to_string(), 0, 'x'), "x");
    assert_eq!(remove_char(&"héllo".to_string(), 1), "hllo");
    assert_eq!(remove_char(&"a".to_string(), 0), "");
}

#[test]
fn selection_moves_within_the_list() {
    let mut app = App::new(None);
    let shown = files(&["a", "b", "c"]);
    app.handle_key_event(key(KeyCode::Up), &shown);
    assert_eq!(app.selected, 0);
    app.handle_key_event(key(KeyCode::Down), &shown);
    app.handle_key_event(key(KeyCode::Char('j')), &shown);
    assert_eq!(app.selected, 2);
    app.handle_key_event(key(KeyCode::Down), &shown);
    assert_eq!(app.selected, 2);
    app.handle_key_event(key(KeyCode::Char('k')), &shown);
    app.handle_key_event(key(KeyCode::Up), &shown);
    app.handle_key_event(key(KeyCode::Char('k')), &shown);
    assert_eq!(app.selected, 0);
    app.handle_key_event(key(KeyCode::Down), &[]);
    assert_eq!(app.selected, 0);
}

#[test]
fn diff_scrolls_in_the_diff_view() {
    let mut app = App::new(None);
    app.focus = Focus::DiffView;
    app.handle_key_event(key(KeyCode::Down), &[]);
    app.handle_key_event(key(KeyCode::Char('j')), &[]);
    assert_eq!(app.diff_scroll, 2);
    app.handle_key_event(key(KeyCode::Up), &[]);
    app.handle_key_event(key(KeyCode::Char('k')), &[]);
    app.handle_key_event(key(KeyCode::Char('k')), &[]);
    assert_eq!(app.diff_scroll, 0);
    assert_eq!(app.selected, 0);
}

#[test]
fn j_and_k_are_typed_in_an_input() {
    let mut app = App::new(None);
    app.focus = Focus::To;
    type_text(&mut app, "jk");
    assert_eq!(app.to_input, "jk");
}

#[test]
fn enter_asks_and_y_commits_one_file() {
    let mut app = App::new(None);
    let shown = files(&["a.rs", "b.rs"]);
    app.handle_key_event(key(KeyCode::Down), &shown);
    assert!(matches!(app.handle_key_event(key(KeyCode::Enter), &shown), KeyAction::Nothing));
    assert!(matches!(&app.confirm, ConfirmState::Confirming(p) if p == "b.rs"));
    match app.handle_key_event(key(KeyCode::Char('y')), &shown) {
        KeyAction::Commit(path) => assert_eq!(path, "b.rs"),
        other => panic!("unexpected action {:?}", other),
    }
    // The question stays until the commit is known to have worked.
    assert!(matches!(app.confirm, ConfirmState::Confirming(_)));
    assert_eq!(
        app.finish_commit("b.rs", Err(WriteError::PermissionDenied)),
        Err(CommitError::Write(WriteError::PermissionDenied))
    );
    assert!(matches!(app.confirm, ConfirmState::Confirming(_)));
    assert_eq!(app.finish_commit("b.rs", Ok(())), Ok(()));
    assert!(matches!(app.confirm, ConfirmState::Idle));
}

#[test]
fn enter_needs_a_selected_file_and_the_file_list() {
    let mut app = App::new(None);
    app.handle_key_event(key(KeyCode::Enter), &[]);
    assert!(matches!(app.confirm, ConfirmState::Idle));
    app.focus = Focus::From;
    app.handle_key_event(key(KeyCode::Enter), &files(&["a"]));
    assert!(matches!(app.confirm, ConfirmState::Idle));
    app.handle_key_event(ctrl('a'), &files(&["a"]));
    assert!(matches!(app.confirm, ConfirmState::Idle));
    assert_eq!(app.from_input, "");
}

#[test]
fn control_a_asks_and_y_commits_all() {
    let mut app = App::new(None);
    let shown = files(&["a.rs", "b.rs", "c.rs"]);
    app.handle_key_event(ctrl('a'), &shown);
    assert!(matches!(&app.confirm, ConfirmState::ConfirmingAll(all) if *all == shown));
    match app.handle_key_event(key(KeyCode::Char('y')), &[]) {
        KeyAction::CommitAll(paths) => assert_eq!(paths, shown),
        other => panic!("unexpected action {:?}", other),
    }
    assert!(matches!(app.confirm, ConfirmState::Idle));
}

#[test]
fn n_and_esc_take_the_question_back() {
    let mut app = App::new(None);
    let shown = files(&["a.rs"]);
    app.handle_key_event(key(KeyCode::Enter), &shown);
    app.handle_key_event(key(KeyCode::Char('n')), &shown);
    assert!(matches!(app.confirm, ConfirmState::Idle));
    app.handle_key_event(ctrl('a'), &shown);
    app.handle_key_event(key(KeyCode::Esc), &shown);
    assert!(matches!(app.confirm, ConfirmState::Idle));
    // Without a question y and n are characters.
    app.focus = Focus::From;
    assert!(matches!(app.handle_key_event(key(KeyCode::Char('y')), &shown), KeyAction::Nothing));
    app.handle_key_event(key(KeyCode::Char('n')), &shown);
    assert_eq!(app.from_input, "yn");
}

#[test]
fn other_keys_change_nothing() {
    let mut app = App::new(None);
    app.focus = Focus::From;
    assert!(matches!(app.handle_key_event(key(KeyCode::Other), &[]), KeyAction::Nothing));
    assert_eq!(app.from_input, "");
    assert_eq!(app.focus, Focus::From);
    // Control with a letter that names nothing types the letter.
    app.handle_key_event(ctrl('x'), &[]);
    assert_eq!(app.from_input, "x");
}

#[test]
fn the_app_filters_its_index_by_its_inputs() {
    let mut app = App::new(None);
    app.load_files(files(&["a.rs", "b.txt", "c.rs"]));
    assert!(!app.is_loading);
    assert_eq!(app.filter_files(), files(&["a.rs", "b.txt", "c.rs"]));
    app.focus = Focus::FilePathFilter;
    type_text(&mut app, "*.rs");
    assert_eq!(app.filter_files(), files(&["a.rs", "c.rs"]));
    app.focus = Focus::From;
    type_text(&mut app, "FIND");
    assert_eq!(app.unread_files(), files(&["a.rs", "c.rs"]));
    app.supply_content("a.rs", Ok("// FIND".to_string())).unwrap();
    assert_eq!(app.supply_content("c.rs", Err(ReadError::InvalidEncoding)), Err(ReadError::InvalidEncoding));
    assert_eq!(app.filter_files(), files(&["a.rs"]));
    // A new index drops the memo.
    app.load_files(files(&["c.rs"]));
    assert_eq!(app.filter_files(), Vec::<String>::new());
}

#[test]
fn a_change_event_invalidates_the_file() {
    let mut app = App::new(None);
    app.load_files(files(&["a.rs", "b.rs"]));
    app.focus = Focus::From;
    type_text(&mut app, "x");
    app.supply_content("a.rs", Ok("x".to_string())).unwrap();
    app.supply_content("b.rs", Ok("y".to_string())).unwrap();
    assert_eq!(app.filter_files(), files(&["a.rs"]));
    app.watch_event(ChangeKind::Remove, &[Some("b.rs".to_string())]);
    app.watch_event(ChangeKind::Modify, &[]);
    app.watch_event(ChangeKind::Modify, &[None, Some("b.rs".to_string())]);
    assert!(app.unread_files().is_empty());
    app.watch_event(ChangeKind::Modify, &[Some("b.rs".to_string()), Some("a.rs".to_string())]);
    assert_eq!(app.unread_files(), files(&["b.rs"]));
    app.supply_content("b.rs", Ok("now x".to_string())).unwrap();
    assert_eq!(app.filter_files(), files(&["a.rs", "b.rs"]));
    app.watch_event(ChangeKind::Create, &[Some("a.rs".to_string())]);
    assert_eq!(app.unread_files(), files(&["a.rs"]));
}

#[test]
fn which_events_report_a_file() {
    let paths = [Some("p".to_string()), Some("q".to_string())];
    assert_eq!(changed_path(ChangeKind::Create, &paths), Some("p".to_string()));
    assert_eq!(changed_path(ChangeKind::Modify, &paths), Some("p".to_string()));
    assert_eq!(changed_path(ChangeKind::Remove, &paths), None);
    assert_eq!(changed_path(ChangeKind::Access, &paths), None);
    assert_eq!(changed_path(ChangeKind::Other, &paths), None);
    assert_eq!(changed_path(ChangeKind::Modify, &[]), None);
    assert_eq!(changed_path(ChangeKind::Modify, &[None, Some("q".to_string())]), None);
}

#[test]
fn a_commit_writes_what_the_preview_shows() {
    let mut app = App::new(None);
    app.focus = Focus::From;
    type_text(&mut app, "(a)(b)");
    app.focus = Focus::To;
    type_text(&mut app, "$2$1");
    let content = "ab\nxx\nab";
    let (text, diff) = preview(content, &app.from_input, &app.to_input);
    assert_eq!(text, "ba\nxx\nba");
    let tags: Vec<DiffTag> = diff.iter().map(|l| l.tag).collect();
    assert_eq!(
        tags,
        vec![DiffTag::Removed, DiffTag::Added, DiffTag::Unchanged, DiffTag::Removed, DiffTag::Added]
    );
    assert_eq!(app.plan_commit(Ok(content.to_string())), Ok(text));
    assert_eq!(
        app.plan_commit(Err(ReadError::NotFound)),
        Err(CommitError::Read(ReadError::NotFound))
    );
    assert_eq!(plan_commit(Ok("x".to_string()), "(", "y"), Ok("x".to_string()));
}

#[test]
fn a_commit_to_one_file_leaves_the_others_cached() {
    let mut app = App::new(None);
    app.load_files(files(&["a", "b", "c"]));
    app.focus = Focus::From;
    type_text(&mut app, "x");
    for path in ["a", "b", "c"] {
        app.supply_content(path, Ok("x".to_string())).unwrap();
    }
    assert_eq!(app.finish_commit("a", Ok(())), Ok(()));
    assert_eq!(
        app.finish_commit("b", Err(WriteError::PermissionDenied)),
        Err(CommitError::Write(WriteError::PermissionDenied))
    );
    assert_eq!(app.finish_commit("c", Ok(())), Ok(()));
    // Only the files that were written are read again.
    assert_eq!(app.unread_files(), files(&["a", "c"]));
}

#[test]
fn a_batch_goes_on_after_a_failure() {
    let paths = files(&["one", "two", "three"]);
    let outcomes = [
        Ok(()),
        Err(CommitError::Write(WriteError::PermissionDenied)),
        Ok(()),
    ];
    let mut batch = CommitBatch::new(paths.clone());
    let mut offered = Vec::new();
    let mut step = 0;
    while let Some(path) = batch.next_path().cloned() {
        offered.push(path);
        batch = batch.record(outcomes[step]);
        step += 1;
    }
    assert_eq!(offered, paths);
    // With no file left a result is not taken in.
    batch = batch.record(Err(CommitError::Read(ReadError::NotFound)));
    assert_eq!(batch.into_results(), outcomes.to_vec());
    assert!(CommitBatch::new(Vec::new()).next_path().is_none());
}

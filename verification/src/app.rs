//! The state of the program and what a key does to it.

use crate::cache::ReadError;
use crate::config::{glob_query, Config};
use crate::field::{
    erase_char, erased, move_left, move_right, moved_left, moved_right, type_char, typed, Field,
};
use crate::filter::{clone_strings, FilterEngine};
use crate::text::string_views;
use vstd::prelude::*;

verus! {

/// The part of the screen that keys go to.
#[derive(PartialEq, Eq, Clone, Copy, Debug, Structural)]
pub enum Focus {
    FileList,
    FilePathFilter,
    DiffView,
    From,
    To,
}

/// Whether the user is being asked to confirm a commit, and of what.
#[derive(Clone, Debug)]
pub enum ConfirmState {
    Idle,
    Confirming(String),
    ConfirmingAll(Vec<String>),
}

/// A confirm state as the rules see it.
pub ghost enum ConfirmView {
    Idle,
    Confirming(Seq<char>),
    ConfirmingAll(Seq<Seq<char>>),
}

impl View for ConfirmState {
    type V = ConfirmView;

    open spec fn view(&self) -> ConfirmView {
        match self {
            ConfirmState::Idle => ConfirmView::Idle,
            ConfirmState::Confirming(path) => ConfirmView::Confirming(path@),
            ConfirmState::ConfirmingAll(paths) => ConfirmView::ConfirmingAll(string_views(paths@)),
        }
    }
}

/// The keys that the program tells apart.
#[derive(PartialEq, Eq, Clone, Copy, Debug, Structural)]
pub enum KeyCode {
    Backspace,
    Enter,
    Left,
    Right,
    Up,
    Down,
    Tab,
    Esc,
    Char(char),
    Other,
}

/// A key press. `control` says that Control, and no other modifier, was
/// held.
#[derive(PartialEq, Eq, Clone, Copy, Debug, Structural)]
pub struct KeyEvent {
    pub code: KeyCode,
    pub control: bool,
}

/// What the caller has to do after a key.
#[derive(Clone, Debug)]
pub enum KeyAction {
    /// Nothing.
    Nothing,
    /// Leave the program.
    Quit,
    /// Commit the substitution to this file.
    Commit(String),
    /// Commit the substitution to each of these files, going on after a
    /// file that fails.
    CommitAll(Vec<String>),
}

/// An action as the rules see it.
pub ghost enum ActionView {
    Nothing,
    Quit,
    Commit(Seq<char>),
    CommitAll(Seq<Seq<char>>),
}

impl View for KeyAction {
    type V = ActionView;

    open spec fn view(&self) -> ActionView {
        match self {
            KeyAction::Nothing => ActionView::Nothing,
            KeyAction::Quit => ActionView::Quit,
            KeyAction::Commit(path) => ActionView::Commit(path@),
            KeyAction::CommitAll(paths) => ActionView::CommitAll(string_views(paths@)),
        }
    }
}

/// What keys act on.
pub ghost struct Ui {
    pub selected: int,
    pub offset: int,
    pub filter: Field,
    pub from: Field,
    pub to: Field,
    pub focus: Focus,
    pub diff_scroll: int,
    pub confirm: ConfirmView,
}

/// The focus that Tab moves to.
pub open spec fn next_focus(focus: Focus) -> Focus {
    match focus {
        Focus::FileList => Focus::FilePathFilter,
        Focus::FilePathFilter => Focus::DiffView,
        Focus::DiffView => Focus::From,
        Focus::From => Focus::To,
        Focus::To => Focus::FileList,
    }
}

/// Whether `key` is the character `c` with Control.
pub open spec fn is_ctrl(key: KeyEvent, c: char) -> bool {
    key.control && key.code == KeyCode::Char(c)
}

/// The focus that `key` names, if it names one: Control with the letter of
/// a part of the screen.
pub open spec fn named_focus(key: KeyEvent) -> Option<Focus> {
    if is_ctrl(key, 'l') {
        Some(Focus::FileList)
    } else if is_ctrl(key, 'g') {
        Some(Focus::FilePathFilter)
    } else if is_ctrl(key, 'd') {
        Some(Focus::DiffView)
    } else if is_ctrl(key, 'f') {
        Some(Focus::From)
    } else if is_ctrl(key, 't') {
        Some(Focus::To)
    } else {
        None
    }
}

/// The state after `c` was typed: it goes into the input that has the
/// focus, if one has. Typing into the glob filter puts the selection back to
/// the first file.
pub open spec fn after_typing(ui: Ui, c: char) -> Ui {
    match ui.focus {
        Focus::FilePathFilter => Ui { filter: typed(ui.filter, c), selected: 0, offset: 0, ..ui },
        Focus::From => Ui { from: typed(ui.from, c), ..ui },
        Focus::To => Ui { to: typed(ui.to, c), ..ui },
        _ => ui,
    }
}

/// The state after a backspace in the input that has the focus, if one has.
/// In the glob filter it puts the selection back to the first file.
pub open spec fn after_backspace(ui: Ui) -> Ui {
    match ui.focus {
        Focus::FilePathFilter => Ui { filter: erased(ui.filter), selected: 0, offset: 0, ..ui },
        Focus::From => Ui { from: erased(ui.from), ..ui },
        Focus::To => Ui { to: erased(ui.to), ..ui },
        _ => ui,
    }
}

/// The state after a step up: the selection one file up in the file list,
/// the diff one line up in the diff view, neither further than the start.
pub open spec fn after_up(ui: Ui) -> Ui {
    match ui.focus {
        Focus::FileList => Ui {
            selected: if ui.selected > 0 {
                ui.selected - 1
            } else {
                ui.selected
            },
            ..ui
        },
        Focus::DiffView => Ui {
            diff_scroll: if ui.diff_scroll > 0 {
                ui.diff_scroll - 1
            } else {
                ui.diff_scroll
            },
            ..ui
        },
        _ => ui,
    }
}

/// The state after a step down: the selection one file down in the file
/// list, but not past the last of the `shown` files; the diff one line down
/// in the diff view.
pub open spec fn after_down(ui: Ui, shown: int) -> Ui {
    match ui.focus {
        Focus::FileList => Ui {
            selected: if ui.selected + 1 < shown {
                ui.selected + 1
            } else {
                ui.selected
            },
            ..ui
        },
        Focus::DiffView => Ui { diff_scroll: ui.diff_scroll + 1, ..ui },
        _ => ui,
    }
}

/// The state after the left arrow in the input that has the focus.
pub open spec fn after_left(ui: Ui) -> Ui {
    match ui.focus {
        Focus::FilePathFilter => Ui { filter: moved_left(ui.filter), ..ui },
        Focus::From => Ui { from: moved_left(ui.from), ..ui },
        Focus::To => Ui { to: moved_left(ui.to), ..ui },
        _ => ui,
    }
}

/// The state after the right arrow in the input that has the focus.
pub open spec fn after_right(ui: Ui) -> Ui {
    match ui.focus {
        Focus::FilePathFilter => Ui { filter: moved_right(ui.filter), ..ui },
        Focus::From => Ui { from: moved_right(ui.from), ..ui },
        Focus::To => Ui { to: moved_right(ui.to), ..ui },
        _ => ui,
    }
}

/// Whether the file list or the diff view has the focus: there `j` and `k`
/// move, elsewhere they are typed.
pub open spec fn moves_by_letter(focus: Focus) -> bool {
    focus == Focus::FileList || focus == Focus::DiffView
}

/// The state after a character key that is no command.
pub open spec fn after_char(ui: Ui, c: char, shown: int) -> Ui {
    if c == 'y' {
        match ui.confirm {
            ConfirmView::Confirming(_) => ui,
            ConfirmView::ConfirmingAll(_) => Ui { confirm: ConfirmView::Idle, ..ui },
            ConfirmView::Idle => after_typing(ui, 'y'),
        }
    } else if c == 'n' {
        if ui.confirm is Idle {
            after_typing(ui, 'n')
        } else {
            Ui { confirm: ConfirmView::Idle, ..ui }
        }
    } else if c == 'j' && moves_by_letter(ui.focus) {
        after_down(ui, shown)
    } else if c == 'k' && moves_by_letter(ui.focus) {
        after_up(ui)
    } else {
        after_typing(ui, c)
    }
}

/// The state after `key`, with the files `shown` in the file list.
///
/// Control with `c` changes nothing (it ends the program). Control with
/// `l`, `g`, `d`, `f` or `t` moves the focus to the part of that letter, Tab
/// to the next part. Control with `a` in the file list asks to confirm a
/// commit to all files shown, Enter there a commit to the selected file.
/// `y` confirms: a commit to all is handed out at once and the question is
/// gone; a commit to one file is handed out and the question stays until
/// the commit is known to have worked. `n` and Esc take the question back.
/// Without a question `y` and `n` are typed like any character.
pub open spec fn after_key(ui: Ui, key: KeyEvent, shown: Seq<Seq<char>>) -> Ui {
    if is_ctrl(key, 'c') {
        ui
    } else if named_focus(key) is Some {
        Ui { focus: named_focus(key)->0, ..ui }
    } else if key.code == KeyCode::Tab {
        Ui { focus: next_focus(ui.focus), ..ui }
    } else if is_ctrl(key, 'a') {
        if ui.focus == Focus::FileList {
            Ui { confirm: ConfirmView::ConfirmingAll(shown), ..ui }
        } else {
            ui
        }
    } else {
        match key.code {
            KeyCode::Enter => if ui.focus == Focus::FileList && 0 <= ui.selected < shown.len() {
                Ui { confirm: ConfirmView::Confirming(shown[ui.selected]), ..ui }
            } else {
                ui
            },
            KeyCode::Esc => Ui { confirm: ConfirmView::Idle, ..ui },
            KeyCode::Up => after_up(ui),
            KeyCode::Down => after_down(ui, shown.len() as int),
            KeyCode::Left => after_left(ui),
            KeyCode::Right => after_right(ui),
            KeyCode::Char(c) => after_char(ui, c, shown.len() as int),
            KeyCode::Backspace => after_backspace(ui),
            _ => ui,
        }
    }
}

/// What the caller has to do after `key`: leave on Control with `c`, and
/// commit on a `y` that answers a question.
pub open spec fn action_for(ui: Ui, key: KeyEvent) -> ActionView {
    if is_ctrl(key, 'c') {
        ActionView::Quit
    } else if named_focus(key) is Some || is_ctrl(key, 'a') {
        ActionView::Nothing
    } else if key.code == KeyCode::Char('y') {
        match ui.confirm {
            ConfirmView::Confirming(path) => ActionView::Commit(path),
            ConfirmView::ConfirmingAll(paths) => ActionView::CommitAll(paths),
            ConfirmView::Idle => ActionView::Nothing,
        }
    } else {
        ActionView::Nothing
    }
}

/// The state of the program: the index, the three inputs, the selection and
/// the engine that answers the queries.
pub struct App {
    pub files: Vec<String>,
    pub selected: usize,
    pub offset: usize,
    pub filter_input: String,
    pub filter_cursor: usize,
    pub filter_view_offset: usize,
    pub filter_field_width: usize,
    pub from_input: String,
    pub from_cursor: usize,
    pub from_view_offset: usize,
    pub from_field_width: usize,
    pub to_input: String,
    pub to_cursor: usize,
    pub to_view_offset: usize,
    pub to_field_width: usize,
    pub focus: Focus,
    pub diff_scroll: usize,
    pub confirm: ConfirmState,
    pub is_loading: bool,
    pub spinner: char,
    /// The caches and the memo that answer the queries.
    pub engine: FilterEngine,
}

/// The spinner's next shape.
pub open spec fn next_spinner(spinner: char) -> char {
    if spinner == '|' {
        '/'
    } else if spinner == '/' {
        '-'
    } else if spinner == '-' {
        '\\'
    } else {
        '|'
    }
}

impl App {
    /// The glob filter input.
    pub open spec fn filter_field(&self) -> Field {
        Field {
            text: self.filter_input@,
            cursor: self.filter_cursor as int,
            view_offset: self.filter_view_offset as int,
            width: self.filter_field_width as int,
        }
    }

    /// The input of the pattern to replace.
    pub open spec fn from_field(&self) -> Field {
        Field {
            text: self.from_input@,
            cursor: self.from_cursor as int,
            view_offset: self.from_view_offset as int,
            width: self.from_field_width as int,
        }
    }

    /// The input of the replacement template.
    pub open spec fn to_field(&self) -> Field {
        Field {
            text: self.to_input@,
            cursor: self.to_cursor as int,
            view_offset: self.to_view_offset as int,
            width: self.to_field_width as int,
        }
    }

    /// What keys act on.
    pub open spec fn ui(&self) -> Ui {
        Ui {
            selected: self.selected as int,
            offset: self.offset as int,
            filter: self.filter_field(),
            from: self.from_field(),
            to: self.to_field(),
            focus: self.focus,
            diff_scroll: self.diff_scroll as int,
            confirm: self.confirm@,
        }
    }

    /// What keys leave alone: the index, the loading state, the spinner and
    /// the engine.
    pub open spec fn same_background(&self, other: &App) -> bool {
        &&& self.files == other.files
        &&& self.is_loading == other.is_loading
        &&& self.spinner == other.spinner
        &&& self.engine == other.engine
    }

    /// No cursor lies behind the end of its text.
    pub open spec fn wf(&self) -> bool {
        &&& self.filter_cursor <= self.filter_input@.len()
        &&& self.from_cursor <= self.from_input@.len()
        &&& self.to_cursor <= self.to_input@.len()
        &&& self.engine.wf()
    }

    /// There is room for one more step: every input can take one more
    /// character and the diff can scroll one more line within the range of
    /// `usize`.
    pub open spec fn has_room(&self) -> bool {
        &&& self.filter_input@.len() + 2 < usize::MAX
        &&& self.from_input@.len() + 2 < usize::MAX
        &&& self.to_input@.len() + 2 < usize::MAX
        &&& self.diff_scroll < usize::MAX
    }

    /// Whether this is the state at the start with `query` as the glob
    /// filter: no index yet and the loading sign up, the other inputs
    /// empty, every cursor and view at the start, fields 40 columns wide,
    /// the focus on the file list, no question asked, and an engine that
    /// remembers nothing.
    pub open spec fn is_initial(&self, query: Seq<char>) -> bool {
        &&& self.files@.len() == 0
        &&& self.is_loading
        &&& self.spinner == '|'
        &&& self.filter_input@ == query
        &&& self.from_input@.len() == 0
        &&& self.to_input@.len() == 0
        &&& self.selected == 0 && self.offset == 0 && self.diff_scroll == 0
        &&& self.filter_cursor == 0 && self.from_cursor == 0 && self.to_cursor == 0
        &&& self.filter_view_offset == 0 && self.from_view_offset == 0 && self.to_view_offset
            == 0
        &&& self.filter_field_width == 40 && self.from_field_width == 40 && self.to_field_width
            == 40
        &&& self.focus == Focus::FileList
        &&& self.confirm@ is Idle
        &&& self.engine.contents() == Map::<Seq<char>, Seq<char>>::empty()
        &&& self.engine.memo() is None
        &&& self.engine.patterns() == Set::<Seq<char>>::empty()
    }

    /// The state at the start, with the glob filter that the configuration
    /// sets.
    pub fn new(config: Option<Config>) -> (app: App)
        ensures
            app.wf(),
            app.is_initial(crate::config::configured_query(config)),
    {
        App {
            files: Vec::new(),
            selected: 0,
            offset: 0,
            filter_input: glob_query(&config),
            filter_cursor: 0,
            filter_view_offset: 0,
            filter_field_width: 40,
            from_input: String::new(),
            from_cursor: 0,
            from_view_offset: 0,
            from_field_width: 40,
            to_input: String::new(),
            to_cursor: 0,
            to_view_offset: 0,
            to_field_width: 40,
            focus: Focus::FileList,
            diff_scroll: 0,
            confirm: ConfirmState::Idle,
            is_loading: true,
            spinner: '|',
            engine: FilterEngine::new(),
        }
    }

    /// Sets the widths of the three input fields.
    pub fn update_field_widths(&mut self, filter_width: usize, from_width: usize, to_width: usize)
        ensures
            *final(self) == (App {
                filter_field_width: filter_width,
                from_field_width: from_width,
                to_field_width: to_width,
                ..*old(self)
            }),
    {
        self.filter_field_width = filter_width;
        self.from_field_width = from_width;
        self.to_field_width = to_width;
    }

    /// Turns the spinner one step.
    pub fn spin(&mut self)
        ensures
            *final(self) == (App { spinner: next_spinner(old(self).spinner), ..*old(self) }),
    {
        self.spinner = if self.spinner == '|' {
            '/'
        } else if self.spinner == '/' {
            '-'
        } else if self.spinner == '-' {
            '\\'
        } else {
            '|'
        };
    }
}

impl App {
    /// Types `c` into the input that has the focus.
    pub fn push_input(&mut self, c: char)
        requires
            old(self).wf(),
            old(self).has_room(),
        ensures
            final(self).wf(),
            final(self).ui() == after_typing(old(self).ui(), c),
            final(self).same_background(old(self)),
    {
        match self.focus {
            Focus::FilePathFilter => {
                type_char(
                    &mut self.filter_input,
                    &mut self.filter_cursor,
                    &mut self.filter_view_offset,
                    self.filter_field_width,
                    c,
                );
                self.selected = 0;
                self.offset = 0;
            },
            Focus::From => {
                type_char(
                    &mut self.from_input,
                    &mut self.from_cursor,
                    &mut self.from_view_offset,
                    self.from_field_width,
                    c,
                );
            },
            Focus::To => {
                type_char(
                    &mut self.to_input,
                    &mut self.to_cursor,
                    &mut self.to_view_offset,
                    self.to_field_width,
                    c,
                );
            },
            _ => {},
        }
    }

    /// Takes a backspace.
    fn backspace(&mut self)
        requires
            old(self).wf(),
        ensures
            final(self).wf(),
            final(self).ui() == after_backspace(old(self).ui()),
            final(self).same_background(old(self)),
    {
        match self.focus {
            Focus::FilePathFilter => {
                erase_char(
                    &mut self.filter_input,
                    &mut self.filter_cursor,
                    &mut self.filter_view_offset,
                    self.filter_field_width,
                );
                self.selected = 0;
                self.offset = 0;
            },
            Focus::From => {
                erase_char(
                    &mut self.from_input,
                    &mut self.from_cursor,
                    &mut self.from_view_offset,
                    self.from_field_width,
                );
            },
            Focus::To => {
                erase_char(
                    &mut self.to_input,
                    &mut self.to_cursor,
                    &mut self.to_view_offset,
                    self.to_field_width,
                );
            },
            _ => {},
        }
    }

    /// Takes the left arrow.
    fn step_left(&mut self)
        requires
            old(self).wf(),
        ensures
            final(self).wf(),
            final(self).ui() == after_left(old(self).ui()),
            final(self).same_background(old(self)),
    {
        match self.focus {
            Focus::FilePathFilter => {
                move_left(
                    &self.filter_input,
                    &mut self.filter_cursor,
                    &mut self.filter_view_offset,
                    self.filter_field_width,
                );
            },
            Focus::From => {
                move_left(
                    &self.from_input,
                    &mut self.from_cursor,
                    &mut self.from_view_offset,
                    self.from_field_width,
                );
            },
            Focus::To => {
                move_left(
                    &self.to_input,
                    &mut self.to_cursor,
                    &mut self.to_view_offset,
                    self.to_field_width,
                );
            },
            _ => {},
        }
    }

    /// Takes the right arrow.
    fn step_right(&mut self)
        requires
            old(self).wf(),
            old(self).has_room(),
        ensures
            final(self).wf(),
            final(self).ui() == after_right(old(self).ui()),
            final(self).same_background(old(self)),
    {
        match self.focus {
            Focus::FilePathFilter => {
                move_right(
                    &self.filter_input,
                    &mut self.filter_cursor,
                    &mut self.filter_view_offset,
                    self.filter_field_width,
                );
            },
            Focus::From => {
                move_right(
                    &self.from_input,
                    &mut self.from_cursor,
                    &mut self.from_view_offset,
                    self.from_field_width,
                );
            },
            Focus::To => {
                move_right(
                    &self.to_input,
                    &mut self.to_cursor,
                    &mut self.to_view_offset,
                    self.to_field_width,
                );
            },
            _ => {},
        }
    }

    /// Takes a step up.
    fn step_up(&mut self)
        ensures
            final(self).ui() == after_up(old(self).ui()),
            final(self).same_background(old(self)),
            final(self).wf() == old(self).wf(),
    {
        match self.focus {
            Focus::FileList => {
                if self.selected > 0 {
                    self.selected -= 1;
                }
            },
            Focus::DiffView => {
                if self.diff_scroll > 0 {
                    self.diff_scroll -= 1;
                }
            },
            _ => {},
        }
    }

    /// Takes a step down in a list of `shown` files.
    fn step_down(&mut self, shown: usize)
        requires
            old(self).diff_scroll < usize::MAX,
        ensures
            final(self).ui() == after_down(old(self).ui(), shown as int),
            final(self).same_background(old(self)),
            final(self).wf() == old(self).wf(),
    {
        match self.focus {
            Focus::FileList => {
                if shown > 0 && self.selected < shown - 1 {
                    self.selected += 1;
                }
            },
            Focus::DiffView => {
                self.diff_scroll += 1;
            },
            _ => {},
        }
    }

    /// Takes a character key that is no command.
    fn character(&mut self, c: char, shown: usize) -> (action: KeyAction)
        requires
            old(self).wf(),
            old(self).has_room(),
        ensures
            final(self).wf(),
            final(self).ui() == after_char(old(self).ui(), c, shown as int),
            final(self).same_background(old(self)),
            action@ == if c == 'y' {
                match old(self).confirm@ {
                    ConfirmView::Confirming(path) => ActionView::Commit(path),
                    ConfirmView::ConfirmingAll(paths) => ActionView::CommitAll(paths),
                    ConfirmView::Idle => ActionView::Nothing,
                }
            } else {
                ActionView::Nothing
            },
    {
        if c == 'y' {
            match &self.confirm {
                ConfirmState::Confirming(path) => {
                    return KeyAction::Commit(path.clone());
                },
                ConfirmState::ConfirmingAll(paths) => {
                    let list = clone_strings(paths.as_slice());
                    self.confirm = ConfirmState::Idle;
                    return KeyAction::CommitAll(list);
                },
                ConfirmState::Idle => {
                    self.push_input('y');
                },
            }
        } else if c == 'n' {
            match &self.confirm {
                ConfirmState::Idle => {
                    self.push_input('n');
                },
                _ => {
                    self.confirm = ConfirmState::Idle;
                },
            }
        } else if c == 'j' && (self.focus == Focus::FileList || self.focus == Focus::DiffView) {
            self.step_down(shown);
        } else if c == 'k' && (self.focus == Focus::FileList || self.focus == Focus::DiffView) {
            self.step_up();
        } else {
            self.push_input(c);
        }
        KeyAction::Nothing
    }

    /// Takes one key. `filtered_files` are the files that the file list
    /// shows. The result says what the caller has to do.
    pub fn handle_key_event(&mut self, key: KeyEvent, filtered_files: &[String]) -> (action:
        KeyAction)
        requires
            old(self).wf(),
            old(self).has_room(),
        ensures
            final(self).wf(),
            final(self).ui() == after_key(old(self).ui(), key, string_views(filtered_files@)),
            action@ == action_for(old(self).ui(), key),
            final(self).same_background(old(self)),
    {
        if key.control {
            match key.code {
                KeyCode::Char(c) => {
                    if c == 'c' {
                        return KeyAction::Quit;
                    } else if c == 'l' {
                        self.focus = Focus::FileList;
                        return KeyAction::Nothing;
                    } else if c == 'g' {
                        self.focus = Focus::FilePathFilter;
                        return KeyAction::Nothing;
                    } else if c == 'd' {
                        self.focus = Focus::DiffView;
                        return KeyAction::Nothing;
                    } else if c == 'f' {
                        self.focus = Focus::From;
                        return KeyAction::Nothing;
                    } else if c == 't' {
                        self.focus = Focus::To;
                        return KeyAction::Nothing;
                    } else if c == 'a' {
                        if self.focus == Focus::FileList {
                            self.confirm = ConfirmState::ConfirmingAll(
                                clone_strings(filtered_files),
                            );
                        }
                        return KeyAction::Nothing;
                    }
                },
                _ => {},
            }
        }
        match key.code {
            KeyCode::Tab => {
                self.focus = match self.focus {
                    Focus::FileList => Focus::FilePathFilter,
                    Focus::FilePathFilter => Focus::DiffView,
                    Focus::DiffView => Focus::From,
                    Focus::From => Focus::To,
                    Focus::To => Focus::FileList,
                };
            },
            KeyCode::Enter => {
                if self.focus == Focus::FileList && self.selected < filtered_files.len() {
                    self.confirm = ConfirmState::Confirming(filtered_files[self.selected].clone());
                }
            },
            KeyCode::Esc => {
                self.confirm = ConfirmState::Idle;
            },
            KeyCode::Up => {
                self.step_up();
            },
            KeyCode::Down => {
                self.step_down(filtered_files.len());
            },
            KeyCode::Left => {
                self.step_left();
            },
            KeyCode::Right => {
                self.step_right();
            },
            KeyCode::Char(c) => {
                return self.character(c, filtered_files.len());
            },
            KeyCode::Backspace => {
                self.backspace();
            },
            KeyCode::Other => {},
        }
        KeyAction::Nothing
    }
}

impl App {
    /// Takes in the index that a walk of the tree gave. The memo is
    /// forgotten with the index it was computed from.
    pub fn load_files(&mut self, files: Vec<String>)
        requires
            old(self).wf(),
        ensures
            final(self).wf(),
            final(self).files == files,
            !final(self).is_loading,
            final(self).ui() == old(self).ui(),
            final(self).spinner == old(self).spinner,
            final(self).engine.memo() is None,
            final(self).engine.contents() == old(self).engine.contents(),
            final(self).engine.patterns() == old(self).engine.patterns(),
    {
        self.files = files;
        self.is_loading = false;
        self.engine.invalidate_all();
    }

    /// The files that the file list shows: those of the index that pass the
    /// glob filter and whose text matches the pattern to replace.
    pub fn filter_files(&mut self) -> (result: Vec<String>)
        requires
            old(self).wf(),
        ensures
            final(self).wf(),
            string_views(result@) == crate::filter::filtered(
                string_views(old(self).files@),
                old(self).filter_input@,
                old(self).from_input@,
                old(self).engine.memo(),
                old(self).engine.contents(),
            ),
            final(self).engine.memo() == crate::filter::memo_after(
                string_views(old(self).files@),
                old(self).filter_input@,
                old(self).from_input@,
                old(self).engine.memo(),
                old(self).engine.contents(),
            ),
            final(self).engine.contents() == old(self).engine.contents(),
            final(self).engine.patterns() == crate::filter::patterns_after(
                old(self).filter_input@,
                old(self).from_input@,
                old(self).engine.memo(),
                old(self).engine.patterns(),
            ),
            final(self).ui() == old(self).ui(),
            final(self).files == old(self).files,
            final(self).is_loading == old(self).is_loading,
            final(self).spinner == old(self).spinner,
    {
        self.engine.filter(&self.files, self.filter_input.as_str(), self.from_input.as_str())
    }

    /// The files that have to be read, and their texts supplied, before
    /// `filter_files` can answer for them.
    pub fn unread_files(&mut self) -> (result: Vec<String>)
        requires
            old(self).wf(),
        ensures
            final(self).wf(),
            string_views(result@) == crate::filter::unread(
                string_views(old(self).files@),
                old(self).filter_input@,
                old(self).from_input@,
                old(self).engine.memo(),
                old(self).engine.contents(),
            ),
            final(self).engine.memo() == old(self).engine.memo(),
            final(self).engine.contents() == old(self).engine.contents(),
            final(self).ui() == old(self).ui(),
            final(self).files == old(self).files,
            final(self).is_loading == old(self).is_loading,
            final(self).spinner == old(self).spinner,
    {
        self.engine.unread(&self.files, self.filter_input.as_str(), self.from_input.as_str())
    }

    /// Takes in what reading `path` gave.
    pub fn supply_content(&mut self, path: &str, read: Result<String, ReadError>) -> (result:
        Result<String, ReadError>)
        requires
            old(self).wf(),
        ensures
            final(self).wf(),
            result == read,
            final(self).engine.contents() == match read {
                Ok(text) => old(self).engine.contents().insert(path@, text@),
                Err(_) => old(self).engine.contents(),
            },
            final(self).engine.memo() == old(self).engine.memo(),
            final(self).ui() == old(self).ui(),
            final(self).files == old(self).files,
            final(self).is_loading == old(self).is_loading,
            final(self).spinner == old(self).spinner,
    {
        self.engine.supply(path, read)
    }

    /// Takes in one event of the file system: where it reports a file as
    /// changed, the cached text of that file and the memo are forgotten.
    /// Any other event changes nothing.
    pub fn watch_event(&mut self, kind: crate::watch::ChangeKind, paths: &[Option<String>])
        requires
            old(self).wf(),
        ensures
            final(self).wf(),
            match crate::watch::reported(kind, paths@) {
                Some(path) => final(self).engine.contents() == old(self).engine.contents().remove(
                    path,
                ) && final(self).engine.memo() is None,
                None => final(self).engine == old(self).engine,
            },
            final(self).engine.patterns() == old(self).engine.patterns(),
            final(self).ui() == old(self).ui(),
            final(self).files == old(self).files,
            final(self).is_loading == old(self).is_loading,
            final(self).spinner == old(self).spinner,
    {
        match crate::watch::changed_path(kind, paths) {
            Some(path) => {
                self.engine.invalidate(path.as_str());
            },
            None => {},
        }
    }

    /// The text that a commit writes to a file, given what reading the file
    /// gave.
    pub fn plan_commit(&self, read: Result<String, ReadError>) -> (plan: Result<
        String,
        crate::substitution::CommitError,
    >)
        ensures
            match read {
                Ok(content) => plan matches Ok(text) && text@ == crate::substitution::substituted(
                    content@,
                    self.from_input@,
                    self.to_input@,
                ),
                Err(e) => plan == Err::<String, crate::substitution::CommitError>(
                    crate::substitution::CommitError::Read(e),
                ),
            },
    {
        crate::substitution::plan_commit(read, self.from_input.as_str(), self.to_input.as_str())
    }

    /// Takes in what writing the new text of `path` gave. After a write
    /// that worked, the cached text of `path` and the memo are forgotten, and
    /// the question for this one file is answered. A write that failed
    /// changes nothing and is reported.
    pub fn finish_commit(
        &mut self,
        path: &str,
        written: Result<(), crate::substitution::WriteError>,
    ) -> (result: Result<(), crate::substitution::CommitError>)
        requires
            old(self).wf(),
        ensures
            final(self).wf(),
            match written {
                Ok(_) => {
                    &&& result is Ok
                    &&& final(self).engine.contents() == old(self).engine.contents().remove(path@)
                    &&& final(self).engine.memo() is None
                    &&& final(self).engine.patterns() == old(self).engine.patterns()
                    &&& final(self).ui() == (Ui {
                        confirm: if old(self).confirm@ is Confirming {
                            ConfirmView::Idle
                        } else {
                            old(self).confirm@
                        },
                        ..old(self).ui()
                    })
                },
                Err(e) => {
                    &&& result == Err::<(), crate::substitution::CommitError>(
                        crate::substitution::CommitError::Write(e),
                    )
                    &&& final(self).engine == old(self).engine
                    &&& final(self).ui() == old(self).ui()
                },
            },
            final(self).files == old(self).files,
            final(self).is_loading == old(self).is_loading,
            final(self).spinner == old(self).spinner,
    {
        match written {
            Ok(_) => {
                self.engine.invalidate(path);
                let answered = match &self.confirm {
                    ConfirmState::Confirming(_) => true,
                    _ => false,
                };
                if answered {
                    self.confirm = ConfirmState::Idle;
                }
                Ok(())
            },
            Err(e) => Err(crate::substitution::CommitError::Write(e)),
        }
    }
}

impl Default for App {
    /// The state at the start without a configuration.
    fn default() -> (app: App)
        ensures
            app.wf(),
            app.is_initial(Seq::empty()),
    {
        App::new(None)
    }
}

} // verus!

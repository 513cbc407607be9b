//! What the screen shows of the state: the part of an input that fits its
//! field, and the column of the cursor.

use crate::app::{App, ConfirmState, ConfirmView, Focus, Ui};
use crate::substitution::substituted;
use crate::text::{lines_of, string_views};
use crate::utils::{
    apply_substitution_partial, diff_of, highlight_diff_lines, highlight_match, highlighted,
    line_views, rendered, DiffEntry, Line, Span, SpanView, Style,
};
use vstd::prelude::*;
use vstd::string::StringExecFns;

verus! {

/// The characters of `text` from position `start_char` up to, not including,
/// position `end_char`, cut off at the end of `text`; nothing where
/// `start_char` lies behind the text.
pub open spec fn char_slice(text: Seq<char>, start_char: int, end_char: int) -> Seq<char> {
    if start_char >= text.len() {
        Seq::empty()
    } else if end_char >= text.len() {
        text.subrange(start_char, text.len() as int)
    } else {
        text.subrange(start_char, end_char)
    }
}

/// The characters of `text` from position `start_char` up to position
/// `end_char`, by character positions. The end may lie behind the text; the
/// start may lie behind the end only where it lies behind the text as well.
pub fn safe_slice_chars(text: &str, start_char: usize, end_char: usize) -> (slice: &str)
    requires
        start_char <= end_char || start_char >= text@.len(),
    ensures
        slice@ == char_slice(text@, start_char as int, end_char as int),
{
    let n = text.unicode_len();
    if start_char >= n {
        proof {
            reveal_strlit("");
        }
        let empty = "";
        assert(empty@ =~= Seq::<char>::empty());
        return empty;
    }
    let end = if end_char >= n {
        n
    } else {
        end_char
    };
    text.substring_char(start_char, end)
}

/// The number of characters of `text`.
pub fn char_count(text: &str) -> (n: usize)
    ensures
        n == text@.len(),
{
    text.unicode_len()
}

/// Whether `c` is drawn two columns wide.
pub open spec fn is_wide(c: char) -> bool {
    let n = c as u32;
    ||| 0x1100 <= n <= 0x11FF
    ||| 0x3040 <= n <= 0x312F
    ||| 0x3200 <= n <= 0x32FF
    ||| 0x3400 <= n <= 0x4DBF
    ||| 0x4E00 <= n <= 0x9FFF
    ||| 0xA960 <= n <= 0xA97F
    ||| 0xAC00 <= n <= 0xD7FF
    ||| 0xF900 <= n <= 0xFAFF
    ||| 0xFE10 <= n <= 0xFE1F
    ||| 0xFE30 <= n <= 0xFE4F
    ||| 0xFF00 <= n <= 0xFFEF
}

/// The number of columns that `c` takes on the screen.
pub open spec fn char_width(c: char) -> nat {
    if is_wide(c) {
        2
    } else {
        1
    }
}

/// The number of columns that `s` takes on the screen.
pub open spec fn visual_width(s: Seq<char>) -> nat
    decreases s.len(),
{
    if s.len() == 0 {
        0
    } else {
        visual_width(s.drop_last()) + char_width(s.last())
    }
}

/// The number of columns that `c` takes on the screen.
pub fn width_of(c: char) -> (w: usize)
    ensures
        w == char_width(c),
{
    let n: u32 = c as u32;
    if (0x1100 <= n && n <= 0x11FF) || (0x3040 <= n && n <= 0x312F) || (0x3200 <= n && n <= 0x32FF)
        || (0x3400 <= n && n <= 0x4DBF) || (0x4E00 <= n && n <= 0x9FFF) || (0xA960 <= n && n
        <= 0xA97F) || (0xAC00 <= n && n <= 0xD7FF) || (0xF900 <= n && n <= 0xFAFF) || (0xFE10 <= n
        && n <= 0xFE1F) || (0xFE30 <= n && n <= 0xFE4F) || (0xFF00 <= n && n <= 0xFFEF) {
        2
    } else {
        1
    }
}

/// The first `n` characters of `s`, or all of `s` where it has fewer.
pub open spec fn prefix(s: Seq<char>, n: int) -> Seq<char> {
    if n >= s.len() {
        s
    } else {
        s.take(n)
    }
}

/// The column of the cursor in `text` when it stands before the character
/// at position `cursor_char_pos`: the width of what precedes it.
pub fn cursor_visual_position(text: &str, cursor_char_pos: usize) -> (column: usize)
    requires
        visual_width(prefix(text@, cursor_char_pos as int)) <= usize::MAX,
    ensures
        column == visual_width(prefix(text@, cursor_char_pos as int)),
{
    let chars = crate::text::chars_of(text);
    let n = if cursor_char_pos >= chars.len() {
        chars.len()
    } else {
        cursor_char_pos
    };
    let ghost shown = prefix(text@, cursor_char_pos as int);
    assert(shown =~= chars@.take(n as int));
    let mut column: usize = 0;
    let mut i: usize = 0;
    assert(chars@.take(0) =~= Seq::<char>::empty());
    while i < n
        invariant
            i <= n <= chars.len(),
            column == visual_width(chars@.take(i as int)),
            visual_width(chars@.take(n as int)) <= usize::MAX,
        decreases n - i,
    {
        proof {
            assert(chars@.take(i + 1).drop_last() =~= chars@.take(i as int));
            lemma_width_monotonic(chars@.take(n as int), i + 1);
            assert(chars@.take(n as int).take(i + 1) =~= chars@.take(i + 1));
        }
        column = column + width_of(chars[i]);
        i += 1;
    }
    column
}

/// A text is at least as wide as each of its beginnings.
pub proof fn lemma_width_monotonic(s: Seq<char>, k: int)
    requires
        0 <= k <= s.len(),
    ensures
        visual_width(s.take(k)) <= visual_width(s),
    decreases s.len(),
{
    if k == s.len() {
        assert(s.take(k) =~= s);
    } else {
        lemma_width_monotonic(s.drop_last(), k);
        assert(s.drop_last().take(k) =~= s.take(k));
    }
}

/// The position behind the last character that fits: starting at `from`,
/// characters are taken as long as the next one still fits into the
/// `budget` of columns that is left.
pub open spec fn fit_end(text: Seq<char>, from: int, budget: int) -> int
    decreases text.len() - from,
{
    if 0 <= from < text.len() && char_width(text[from]) <= budget {
        fit_end(text, from + 1, budget - char_width(text[from]))
    } else {
        from
    }
}

/// The part of `text` that a field of `width` columns shows when its view
/// begins at position `view_offset`.
pub open spec fn visible_part(text: Seq<char>, view_offset: int, width: int) -> Seq<char> {
    if 0 <= view_offset < text.len() {
        text.subrange(view_offset, fit_end(text, view_offset, width))
    } else {
        Seq::empty()
    }
}

/// The part of the input `text` that its field shows.
pub fn visible_input(text: &str, view_offset: usize, width: usize) -> (shown: &str)
    ensures
        shown@ == visible_part(text@, view_offset as int, width as int),
        visual_width(shown@) <= width,
{
    let chars = crate::text::chars_of(text);
    let n = chars.len();
    if view_offset >= n {
        return safe_slice_chars(text, view_offset, view_offset);
    }
    let mut used: usize = 0;
    let mut end: usize = view_offset;
    assert(chars@.subrange(view_offset as int, end as int) =~= Seq::<char>::empty());
    while end < n
        invariant
            view_offset <= end <= n == chars.len(),
            chars@ == text@,
            used <= width,
            used == visual_width(chars@.subrange(view_offset as int, end as int)),
            fit_end(text@, view_offset as int, width as int) == fit_end(
                text@,
                end as int,
                width - used,
            ),
        ensures
            view_offset <= end <= n,
            used <= width,
            used == visual_width(chars@.subrange(view_offset as int, end as int)),
            fit_end(text@, view_offset as int, width as int) == end,
        decreases n - end,
    {
        let w = width_of(chars[end]);
        if w > width - used {
            break ;
        }
        proof {
            assert(chars@.subrange(view_offset as int, end + 1).drop_last() =~= chars@.subrange(
                view_offset as int,
                end as int,
            ));
        }
        used = used + w;
        end = end + 1;
    }
    safe_slice_chars(text, view_offset, end)
}

/// The column of the cursor within its field: the width of what the field
/// shows before the cursor, and 0 where the cursor lies before the view.
pub open spec fn cursor_column(text: Seq<char>, cursor: int, view_offset: int, width: int) -> int {
    if cursor >= view_offset {
        visual_width(prefix(visible_part(text, view_offset, width), cursor - view_offset)) as int
    } else {
        0
    }
}

/// The column of the cursor within the field of the input `text`.
pub fn cursor_in_field(text: &str, cursor: usize, view_offset: usize, width: usize) -> (column:
    usize)
    ensures
        column == cursor_column(text@, cursor as int, view_offset as int, width as int),
        column <= width,
{
    if cursor >= view_offset {
        let shown = visible_input(text, view_offset, width);
        proof {
            let part = prefix(shown@, cursor - view_offset);
            if cursor - view_offset < shown@.len() {
                lemma_width_monotonic(shown@, cursor - view_offset);
            }
        }
        cursor_visual_position(shown, cursor - view_offset)
    } else {
        0
    }
}

/// The first row of the file list that is drawn, so that the selected row
/// is among the `height` rows drawn: the list scrolls down to a selection
/// below the window and up to one above it.
pub open spec fn list_offset(selected: int, offset: int, height: int) -> int {
    if selected >= offset + height {
        selected + 1 - height
    } else if selected < offset {
        selected
    } else {
        offset
    }
}

/// The first row of the file list that is drawn.
pub fn first_row(selected: usize, offset: usize, height: usize) -> (first: usize)
    requires
        selected < usize::MAX,
    ensures
        first == list_offset(selected as int, offset as int, height as int),
{
    if selected >= height && selected - height >= offset {
        selected - height + 1
    } else if selected < offset {
        selected
    } else {
        offset
    }
}

/// The `count` elements of `s` from position `from` on, or as many as
/// there are.
pub open spec fn window<A>(s: Seq<A>, from: int, count: int) -> Seq<A> {
    if from >= s.len() || count <= 0 {
        Seq::empty()
    } else if from + count >= s.len() {
        s.subrange(from, s.len() as int)
    } else {
        s.subrange(from, from + count)
    }
}

/// One row of the file list.
pub struct ListRow {
    pub text: Vec<Line>,
    pub selected: bool,
}

/// A row as the rules see it.
pub ghost struct RowView {
    pub text: Seq<Seq<SpanView>>,
    pub selected: bool,
}

impl View for ListRow {
    type V = RowView;

    open spec fn view(&self) -> RowView {
        RowView { text: line_views(self.text@), selected: self.selected }
    }
}

/// The views of the rows of `rows`, one for one.
pub open spec fn row_views(rows: Seq<ListRow>) -> Seq<RowView> {
    rows.map_values(|r: ListRow| r@)
}

/// The row that shows the file at position `at` of the list: its path with
/// the text of the glob filter marked where it occurs.
pub open spec fn row_of(files: Seq<Seq<char>>, filter: Seq<char>, selected: int, at: int) -> RowView {
    RowView { text: seq![highlighted(files[at], filter)], selected: at == selected }
}

/// The rows of the file list that are drawn: `height` rows from `first`
/// on, or as many as there are.
pub open spec fn rows_shown(
    files: Seq<Seq<char>>,
    filter: Seq<char>,
    selected: int,
    first: int,
    height: int,
) -> Seq<RowView> {
    Seq::new(
        window(files, first, height).len(),
        |i: int| row_of(files, filter, selected, first + i),
    )
}

/// The rows of the file list that are drawn.
pub fn list_rows(
    files: &[String],
    filter: &str,
    selected: usize,
    first: usize,
    height: usize,
) -> (rows: Vec<ListRow>)
    ensures
        row_views(rows@) == rows_shown(
            string_views(files@),
            filter@,
            selected as int,
            first as int,
            height as int,
        ),
{
    let ghost all = string_views(files@);
    let ghost goal = rows_shown(all, filter@, selected as int, first as int, height as int);
    let mut rows: Vec<ListRow> = Vec::new();
    if first >= files.len() || height == 0 {
        assert(row_views(rows@) =~= goal);
        return rows;
    }
    let end = if height >= files.len() - first {
        files.len()
    } else {
        first + height
    };
    assert(window(all, first as int, height as int).len() == end - first);
    let mut i: usize = first;
    while i < end
        invariant
            first <= i <= end <= files.len(),
            all == string_views(files@),
            goal == rows_shown(all, filter@, selected as int, first as int, height as int),
            goal.len() == end - first,
            row_views(rows@) == goal.take(i - first),
        decreases end - i,
    {
        let text = highlight_match(files[i].as_str(), filter);
        let row = ListRow { text, selected: i == selected };
        assert(files[i as int]@ == all[i as int]);
        assert(row@ == goal[i - first]);
        let ghost before = rows@;
        rows.push(row);
        assert(row_views(rows@) =~= row_views(before).push(goal[i - first]));
        assert(goal.take(i + 1 - first) =~= goal.take(i - first).push(goal[i - first]));
        i += 1;
    }
    assert(goal.take(i - first) =~= goal);
    rows
}

/// The question that the confirm state asks.
pub open spec fn prompt_for(confirm: ConfirmView) -> Seq<char> {
    match confirm {
        ConfirmView::Confirming(path) => "Apply changes to "@ + path + "? (y/n)"@,
        ConfirmView::ConfirmingAll(_) => "Apply changes to ALL files? (y/n)"@,
        ConfirmView::Idle => Seq::empty(),
    }
}

/// The question that `confirm` asks.
pub fn prompt(confirm: &ConfirmState) -> (text: String)
    ensures
        text@ == prompt_for(confirm@),
{
    match confirm {
        ConfirmState::Confirming(path) => {
            let mut text = "Apply changes to ".to_owned();
            text.append(path.as_str());
            text.append("? (y/n)");
            text
        },
        ConfirmState::ConfirmingAll(_) => "Apply changes to ALL files? (y/n)".to_owned(),
        ConfirmState::Idle => String::new(),
    }
}

/// What stands in place of the file list while the index is being built.
pub open spec fn loading_text(spinner: char) -> Seq<char> {
    seq![spinner] + " Loading files..."@
}

/// All lines of the diff view: the diff of the selected file's text against
/// what the substitution makes of it, or a note where no file is selected.
pub open spec fn diff_text(
    content: Option<Seq<char>>,
    from_pattern: Seq<char>,
    to_template: Seq<char>,
) -> Seq<Seq<SpanView>> {
    match content {
        Some(text) => diff_of(
            lines_of(text),
            lines_of(substituted(text, from_pattern, to_template)),
        ).map_values(|e: DiffEntry| rendered(e)),
        None => seq![seq![SpanView { content: "No file selected."@, style: Style::plain() }]],
    }
}

/// The sizes that the layout of the screen gives the parts: the heights of
/// the file list and of the diff view and the widths of the three inputs,
/// each with its border.
#[derive(Clone, Copy, Debug)]
pub struct Dimensions {
    pub list_height: u16,
    pub filter_width: u16,
    pub from_width: u16,
    pub to_width: u16,
    pub diff_height: u16,
}

/// What is drawn.
pub struct Screen {
    /// The text in place of the file list while the index is being built.
    pub loading: Option<String>,
    /// The rows of the file list.
    pub rows: Vec<ListRow>,
    /// What the three inputs show.
    pub filter_text: String,
    pub from_text: String,
    pub to_text: String,
    /// The column of the cursor within the input that has the focus.
    pub cursor: Option<usize>,
    /// The question asked below the glob filter.
    pub prompt: String,
    /// The lines of the diff view.
    pub diff: Vec<Line>,
    /// The part whose border is marked.
    pub focus: Focus,
}

/// The width or height that a border of one cell on each side leaves.
pub open spec fn inner(size: u16) -> int {
    if size >= 2 {
        size - 2
    } else {
        0
    }
}

/// The column of the cursor in the input that has the focus, if an input
/// has it.
pub open spec fn cursor_shown(ui: Ui) -> Option<int> {
    match ui.focus {
        Focus::FilePathFilter => Some(
            cursor_column(ui.filter.text, ui.filter.cursor, ui.filter.view_offset, ui.filter.width),
        ),
        Focus::From => Some(
            cursor_column(ui.from.text, ui.from.cursor, ui.from.view_offset, ui.from.width),
        ),
        Focus::To => Some(cursor_column(ui.to.text, ui.to.cursor, ui.to.view_offset, ui.to.width)),
        _ => None,
    }
}

/// A copy of `line`.
fn clone_line(line: &Line) -> (copy: Line)
    ensures
        copy@ == line@,
{
    let mut spans: Vec<Span> = Vec::new();
    let mut i: usize = 0;
    while i < line.spans.len()
        invariant
            i <= line.spans.len(),
            spans@.map_values(|s: Span| s@) == line@.take(i as int),
        decreases line.spans.len() - i,
    {
        let ghost before = spans@;
        let s = &line.spans[i];
        spans.push(Span { content: s.content.clone(), style: s.style });
        assert(spans@.map_values(|s: Span| s@) =~= before.map_values(|s: Span| s@).push(
            line@[i as int],
        ));
        assert(line@.take(i + 1) =~= line@.take(i as int).push(line@[i as int]));
        i += 1;
    }
    assert(line@.take(i as int) =~= line@);
    Line { spans }
}

/// The lines of `lines` that a view of `height` rows shows when it is
/// scrolled down by `scroll` lines.
pub fn visible_lines(lines: &Vec<Line>, scroll: usize, height: usize) -> (shown: Vec<Line>)
    ensures
        line_views(shown@) == window(line_views(lines@), scroll as int, height as int),
{
    let ghost all = line_views(lines@);
    let ghost goal = window(all, scroll as int, height as int);
    let mut shown: Vec<Line> = Vec::new();
    if scroll >= lines.len() || height == 0 {
        assert(line_views(shown@) =~= goal);
        return shown;
    }
    let end = if height >= lines.len() - scroll {
        lines.len()
    } else {
        scroll + height
    };
    let mut i: usize = scroll;
    while i < end
        invariant
            scroll <= i <= end <= lines.len(),
            all == line_views(lines@),
            goal == all.subrange(scroll as int, end as int),
            line_views(shown@) == all.subrange(scroll as int, i as int),
        decreases end - i,
    {
        let ghost before = shown@;
        shown.push(clone_line(&lines[i]));
        assert(line_views(shown@) =~= line_views(before).push(all[i as int]));
        assert(all.subrange(scroll as int, i + 1) =~= all.subrange(scroll as int, i as int).push(
            all[i as int],
        ));
        i += 1;
    }
    shown
}

/// A line of unmarked text.
fn note(text: &str) -> (line: Line)
    ensures
        line@ == seq![SpanView { content: text@, style: Style::plain() }],
{
    let mut spans: Vec<Span> = Vec::new();
    spans.push(Span { content: text.to_owned(), style: Style { fg: None, bold: false } });
    let line = Line { spans };
    assert(line@ =~= seq![SpanView { content: text@, style: Style::plain() }]);
    line
}

/// Lays the state out for a screen whose parts have the sizes `sizes`.
/// `filtered_files` are the files of the file list and `file_content` is
/// the text of the selected one, if one is selected and could be read. The
/// inputs are given the widths that their fields have inside the border.
pub fn draw(
    app: &mut App,
    filtered_files: &[String],
    file_content: Option<String>,
    sizes: &Dimensions,
) -> (screen: Screen)
    requires
        old(app).selected < usize::MAX,
    ensures
        *final(app) == (App {
            filter_field_width: inner(sizes.filter_width) as usize,
            from_field_width: inner(sizes.from_width) as usize,
            to_field_width: inner(sizes.to_width) as usize,
            ..*old(app)
        }),
        match screen.loading {
            Some(text) => old(app).is_loading && text@ == loading_text(old(app).spinner)
                && screen.rows@.len() == 0,
            None => !old(app).is_loading && row_views(screen.rows@) == rows_shown(
                string_views(filtered_files@),
                old(app).filter_input@,
                old(app).selected as int,
                list_offset(
                    old(app).selected as int,
                    old(app).offset as int,
                    inner(sizes.list_height),
                ),
                inner(sizes.list_height),
            ),
        },
        screen.filter_text@ == visible_part(
            final(app).filter_input@,
            final(app).filter_view_offset as int,
            final(app).filter_field_width as int,
        ),
        screen.from_text@ == visible_part(
            final(app).from_input@,
            final(app).from_view_offset as int,
            final(app).from_field_width as int,
        ),
        screen.to_text@ == visible_part(
            final(app).to_input@,
            final(app).to_view_offset as int,
            final(app).to_field_width as int,
        ),
        match screen.cursor {
            Some(column) => cursor_shown(final(app).ui()) == Some(column as int),
            None => cursor_shown(final(app).ui()) is None,
        },
        screen.prompt@ == prompt_for(old(app).confirm@),
        line_views(screen.diff@) == window(
            diff_text(
                match file_content {
                    Some(text) => Some(text@),
                    None => None,
                },
                old(app).from_input@,
                old(app).to_input@,
            ),
            old(app).diff_scroll as int,
            inner(sizes.diff_height),
        ),
        screen.focus == old(app).focus,
{
    let list_height = clipped(sizes.list_height);
    let (loading, rows) = if app.is_loading {
        let mut text = String::new();
        text.push(app.spinner);
        text.append(" Loading files...");
        (Some(text), Vec::new())
    } else {
        let first = first_row(app.selected, app.offset, list_height);
        (
            None,
            list_rows(filtered_files, app.filter_input.as_str(), app.selected, first, list_height),
        )
    };
    app.update_field_widths(
        clipped(sizes.filter_width),
        clipped(sizes.from_width),
        clipped(sizes.to_width),
    );
    let filter_text = visible_input(
        app.filter_input.as_str(),
        app.filter_view_offset,
        app.filter_field_width,
    ).to_owned();
    let from_text = visible_input(
        app.from_input.as_str(),
        app.from_view_offset,
        app.from_field_width,
    ).to_owned();
    let to_text = visible_input(
        app.to_input.as_str(),
        app.to_view_offset,
        app.to_field_width,
    ).to_owned();
    let cursor = match app.focus {
        Focus::FilePathFilter => Some(
            cursor_in_field(
                app.filter_input.as_str(),
                app.filter_cursor,
                app.filter_view_offset,
                app.filter_field_width,
            ),
        ),
        Focus::From => Some(
            cursor_in_field(
                app.from_input.as_str(),
                app.from_cursor,
                app.from_view_offset,
                app.from_field_width,
            ),
        ),
        Focus::To => Some(
            cursor_in_field(
                app.to_input.as_str(),
                app.to_cursor,
                app.to_view_offset,
                app.to_field_width,
            ),
        ),
        _ => None,
    };
    let all_lines = match file_content {
        Some(content) => {
            let replaced = apply_substitution_partial(
                content.as_str(),
                app.from_input.as_str(),
                app.to_input.as_str(),
            );
            highlight_diff_lines(content, replaced)
        },
        None => {
            let mut lines: Vec<Line> = Vec::new();
            lines.push(note("No file selected."));
            assert(line_views(lines@) =~= seq![
                seq![SpanView { content: "No file selected."@, style: Style::plain() }],
            ]);
            lines
        },
    };
    let diff = visible_lines(&all_lines, app.diff_scroll, clipped(sizes.diff_height));
    Screen {
        loading,
        rows,
        filter_text,
        from_text,
        to_text,
        cursor,
        prompt: prompt(&app.confirm),
        diff,
        focus: app.focus,
    }
}

/// What a border of one cell on each side leaves of `size`.
fn clipped(size: u16) -> (n: usize)
    ensures
        n == inner(size),
{
    if size >= 2 {
        (size - 2) as usize
    } else {
        0
    }
}

} // verus!

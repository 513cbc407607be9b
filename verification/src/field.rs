//! A one-line text input: its text, the cursor in it, and the part of it
//! that its field on the screen shows.

use crate::text::{chars_of, extend, slice_of, string_of};
use vstd::prelude::*;
use vstd::string::StringSliceAdditionalSpecFns;

verus! {

/// A text input as the rules see it. `cursor` counts characters: it stands
/// before the character at that position. `view_offset` is the position of
/// the first character that is shown, `width` the number of columns.
pub ghost struct Field {
    pub text: Seq<char>,
    pub cursor: int,
    pub view_offset: int,
    pub width: int,
}

/// The view offset that keeps the cursor in sight. A text that fits the
/// field is shown from its start. Else the view follows a cursor that left
/// it: to the cursor where the cursor stands before the view, and so far
/// that the cursor is the last position shown where it stands behind.
pub open spec fn view_offset_for(cursor: int, view_offset: int, text_len: int, width: int) -> int {
    if text_len <= width {
        0
    } else if cursor < view_offset {
        cursor
    } else if cursor >= view_offset + width {
        cursor + 1 - width
    } else {
        view_offset
    }
}

/// The view offset one step to the left, unless the text fits the field or
/// the view is at its start.
pub open spec fn scrolled_left(view_offset: int, text_len: int, width: int) -> int {
    if text_len > width && view_offset > 0 {
        view_offset - 1
    } else {
        view_offset
    }
}

/// The view offset one step to the right, unless the text fits the field or
/// the view shows its end.
pub open spec fn scrolled_right(view_offset: int, text_len: int, width: int) -> int {
    if text_len > width && view_offset + width < text_len {
        view_offset + 1
    } else {
        view_offset
    }
}

/// Moves the view so that it keeps the cursor in sight.
pub fn update_view_offset_for_cursor(
    cursor: usize,
    view_offset: &mut usize,
    text_len: usize,
    field_width: usize,
)
    requires
        cursor < usize::MAX || field_width > 0,
    ensures
        *final(view_offset) == view_offset_for(
            cursor as int,
            *old(view_offset) as int,
            text_len as int,
            field_width as int,
        ),
{
    if text_len <= field_width {
        *view_offset = 0;
        return ;
    }
    if cursor < *view_offset {
        *view_offset = cursor;
    } else if cursor >= field_width && cursor - field_width >= *view_offset {
        *view_offset = cursor - field_width + 1;
    }
}

/// Scrolls the view one step to the left, if there is anything to scroll.
pub fn scroll_view_left(view_offset: &mut usize, text_len: usize, field_width: usize)
    ensures
        *final(view_offset) == scrolled_left(
            *old(view_offset) as int,
            text_len as int,
            field_width as int,
        ),
{
    if text_len <= field_width {
        return ;
    }
    if *view_offset > 0 {
        *view_offset -= 1;
    }
}

/// Scrolls the view one step to the right, if there is anything to scroll.
pub fn scroll_view_right(view_offset: &mut usize, text_len: usize, field_width: usize)
    ensures
        *final(view_offset) == scrolled_right(
            *old(view_offset) as int,
            text_len as int,
            field_width as int,
        ),
{
    if text_len <= field_width {
        return ;
    }
    if *view_offset < text_len - field_width {
        *view_offset += 1;
    }
}

/// The number of bytes that `text` takes in UTF-8.
pub open spec fn byte_len(text: Seq<char>) -> int {
    vstd::utf8::encode_utf8(text).len() as int
}

/// The field after `c` was typed: `c` stands at the cursor, or at the end of
/// the text where the cursor lies behind it; the cursor has moved one to the
/// right, and the view has followed it.
pub open spec fn typed(f: Field, c: char) -> Field {
    let at = if f.cursor >= f.text.len() {
        f.text.len() as int
    } else {
        f.cursor
    };
    let text = f.text.insert(at, c);
    Field {
        text,
        cursor: f.cursor + 1,
        view_offset: view_offset_for(f.cursor + 1, f.view_offset, text.len() as int, f.width),
        width: f.width,
    }
}

/// The field after a backspace: the character before the cursor is gone,
/// the cursor has moved one to the left, and the view has followed it. With
/// the cursor at the start nothing changes.
pub open spec fn erased(f: Field) -> Field {
    if f.cursor > 0 {
        let text = if f.cursor - 1 < f.text.len() {
            f.text.remove(f.cursor - 1)
        } else {
            f.text
        };
        Field {
            text,
            cursor: f.cursor - 1,
            view_offset: view_offset_for(f.cursor - 1, f.view_offset, text.len() as int, f.width),
            width: f.width,
        }
    } else {
        f
    }
}

/// The field after the left arrow: the cursor one to the left and the view
/// behind it, or, with the cursor at the start, the view one to the left.
pub open spec fn moved_left(f: Field) -> Field {
    if f.cursor > 0 {
        Field {
            cursor: f.cursor - 1,
            view_offset: view_offset_for(
                f.cursor - 1,
                f.view_offset,
                f.text.len() as int,
                f.width,
            ),
            ..f
        }
    } else {
        Field { view_offset: scrolled_left(f.view_offset, f.text.len() as int, f.width), ..f }
    }
}

/// The field after the right arrow: the cursor one to the right and the view
/// behind it, or, with the cursor at the end, the view one to the right. The
/// view scrolls on as long as the field's end lies before the text's length
/// in bytes.
pub open spec fn moved_right(f: Field) -> Field {
    if f.cursor < f.text.len() {
        Field {
            cursor: f.cursor + 1,
            view_offset: view_offset_for(
                f.cursor + 1,
                f.view_offset,
                f.text.len() as int,
                f.width,
            ),
            ..f
        }
    } else {
        Field { view_offset: scrolled_right(f.view_offset, byte_len(f.text), f.width), ..f }
    }
}

/// `text` with `c` put in before the character at position `at`.
pub fn insert_char(text: &String, at: usize, c: char) -> (out: String)
    requires
        at <= text@.len(),
    ensures
        out@ == text@.insert(at as int, c),
{
    let chars = chars_of(text.as_str());
    let mut out = slice_of(&chars, 0, at);
    out.push(c);
    let tail = slice_of(&chars, at, chars.len());
    extend(&mut out, &tail);
    assert(out@ =~= text@.insert(at as int, c));
    string_of(&out)
}

/// `text` without the character at position `at`.
pub fn remove_char(text: &String, at: usize) -> (out: String)
    requires
        at < text@.len(),
    ensures
        out@ == text@.remove(at as int),
{
    let chars = chars_of(text.as_str());
    assert(at < chars.len());
    let mut out = slice_of(&chars, 0, at);
    let tail = slice_of(&chars, at + 1, chars.len());
    extend(&mut out, &tail);
    assert(out@ =~= text@.remove(at as int));
    string_of(&out)
}

/// Types `c` into an input.
pub fn type_char(
    text: &mut String,
    cursor: &mut usize,
    view_offset: &mut usize,
    width: usize,
    c: char,
)
    requires
        old(text)@.len() + 1 < usize::MAX,
        *old(cursor) < usize::MAX - 1,
    ensures
        (Field {
            text: final(text)@,
            cursor: *final(cursor) as int,
            view_offset: *final(view_offset) as int,
            width: width as int,
        }) == typed(
            Field {
                text: old(text)@,
                cursor: *old(cursor) as int,
                view_offset: *old(view_offset) as int,
                width: width as int,
            },
            c,
        ),
{
    let count = text.as_str().unicode_len();
    let at = if *cursor >= count {
        count
    } else {
        *cursor
    };
    *text = insert_char(text, at, c);
    *cursor += 1;
    update_view_offset_for_cursor(*cursor, view_offset, count + 1, width);
}

/// Takes the character before the cursor out of an input.
pub fn erase_char(text: &mut String, cursor: &mut usize, view_offset: &mut usize, width: usize)
    ensures
        (Field {
            text: final(text)@,
            cursor: *final(cursor) as int,
            view_offset: *final(view_offset) as int,
            width: width as int,
        }) == erased(
            Field {
                text: old(text)@,
                cursor: *old(cursor) as int,
                view_offset: *old(view_offset) as int,
                width: width as int,
            },
        ),
{
    if *cursor > 0 {
        let count = text.as_str().unicode_len();
        if *cursor - 1 < count {
            *text = remove_char(text, *cursor - 1);
        }
        *cursor -= 1;
        let count = text.as_str().unicode_len();
        update_view_offset_for_cursor(*cursor, view_offset, count, width);
    }
}

/// Moves the cursor of an input one to the left.
pub fn move_left(text: &String, cursor: &mut usize, view_offset: &mut usize, width: usize)
    ensures
        (Field {
            text: text@,
            cursor: *final(cursor) as int,
            view_offset: *final(view_offset) as int,
            width: width as int,
        }) == moved_left(
            Field {
                text: text@,
                cursor: *old(cursor) as int,
                view_offset: *old(view_offset) as int,
                width: width as int,
            },
        ),
{
    let count = text.as_str().unicode_len();
    if *cursor > 0 {
        *cursor -= 1;
        update_view_offset_for_cursor(*cursor, view_offset, count, width);
    } else {
        scroll_view_left(view_offset, count, width);
    }
}

/// Moves the cursor of an input one to the right.
pub fn move_right(text: &String, cursor: &mut usize, view_offset: &mut usize, width: usize)
    requires
        text@.len() < usize::MAX,
    ensures
        (Field {
            text: text@,
            cursor: *final(cursor) as int,
            view_offset: *final(view_offset) as int,
            width: width as int,
        }) == moved_right(
            Field {
                text: text@,
                cursor: *old(cursor) as int,
                view_offset: *old(view_offset) as int,
                width: width as int,
            },
        ),
{
    let count = text.as_str().unicode_len();
    if *cursor < count {
        *cursor += 1;
        update_view_offset_for_cursor(*cursor, view_offset, count, width);
    } else {
        scroll_view_right(view_offset, text.as_str().as_bytes().len(), width);
    }
}

} // verus!

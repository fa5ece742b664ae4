//! Where the note editor's fields are scrolled to, so the cursor stays in
//! view: the one-line title scrolls sideways, the pre-wrapped body by rows.
use crate::spai_notes::text_cursor::{char_len, insert_cursor_marker, spec_insert_cursor_marker};
use crate::spai_notes::text_layout::{spec_wrap_rows, wrap_rows};
use crate::text::{chars_of, concat_chars, slice_chars, string_of};
use vstd::prelude::*;

verus! {

/// The columns the title is scrolled by: when the focused title's cursor
/// (at most the title's length) reaches the field's inner width, enough to
/// keep it in the last column (one cell per char).
pub open spec fn spec_title_offset(title: Seq<char>, cursor: int, inner_w: int, focused: bool) -> int {
    let c = if cursor < title.len() {
        cursor
    } else {
        title.len() as int
    };
    let w = if inner_w < 1 {
        1
    } else {
        inner_w
    };
    if focused && c >= w {
        c - (w - 1)
    } else {
        0
    }
}

/// The columns the title field is scrolled by (see [`spec_title_offset`]).
pub fn title_offset(title: &str, cursor: usize, inner_w: usize, focused: bool) -> (r: usize)
    ensures
        r == spec_title_offset(title@, cursor as int, inner_w as int, focused),
{
    let n = char_len(title);
    let c = if cursor < n {
        cursor
    } else {
        n
    };
    let w = if inner_w < 1 {
        1
    } else {
        inner_w
    };
    if focused && c >= w {
        c - (w - 1)
    } else {
        0
    }
}

/// The rows the body is scrolled by. Unfocused, none. Following the
/// cursor: the row of the cursor (the wrapped rows of the text before it
/// with the cursor glyph, less one) is kept as the last visible row. Else
/// the stored scroll. Never past the last screenful of the body as shown
/// (with the cursor glyph when focused).
pub open spec fn spec_body_scroll(
    body: Seq<char>,
    cursor: int,
    inner_w: int,
    view_h: int,
    focused: bool,
    follow: bool,
    stored: int,
) -> int {
    let c = if cursor < body.len() {
        cursor
    } else {
        body.len() as int
    };
    let shown = if focused {
        spec_insert_cursor_marker(body, c)
    } else {
        body
    };
    let rows = spec_wrap_rows(shown, inner_w).len() as int;
    let max_scroll = if rows > view_h {
        rows - view_h
    } else {
        0
    };
    if !focused {
        0
    } else if follow {
        let cursor_rows = spec_wrap_rows(body.take(c) + seq!['█'], inner_w).len() as int;
        let cursor_row = if cursor_rows > 0 {
            cursor_rows - 1
        } else {
            0
        };
        if cursor_row >= view_h {
            let s = cursor_row + 1 - view_h;
            if s < max_scroll {
                s
            } else {
                max_scroll
            }
        } else {
            0
        }
    } else if stored < max_scroll {
        stored
    } else {
        max_scroll
    }
}

/// The rows the body field is scrolled by (see [`spec_body_scroll`]).
pub fn body_scroll(
    body: &str,
    cursor: usize,
    inner_w: usize,
    view_h: usize,
    focused: bool,
    follow: bool,
    stored: u16,
) -> (r: usize)
    ensures
        r == spec_body_scroll(body@, cursor as int, inner_w as int, view_h as int, focused, follow, stored as int),
{
    let n = char_len(body);
    let c = if cursor < n {
        cursor
    } else {
        n
    };
    let shown = if focused {
        insert_cursor_marker(body, c)
    } else {
        string_of(chars_of(body).as_slice())
    };
    let rows = wrap_rows(shown.as_str(), inner_w).len();
    let max_scroll = if rows > view_h {
        rows - view_h
    } else {
        0
    };
    if !focused {
        0
    } else if follow {
        let v = chars_of(body);
        let head = slice_chars(v.as_slice(), 0, c);
        let mut mark: Vec<char> = Vec::new();
        mark.push('█');
        let prefix = concat_chars(head.as_slice(), mark.as_slice());
        assert(head@ == body@.take(c as int));
        let cursor_rows = wrap_rows(string_of(prefix.as_slice()).as_str(), inner_w).len();
        let cursor_row = if cursor_rows > 0 {
            cursor_rows - 1
        } else {
            0
        };
        if cursor_row >= view_h {
            let s = cursor_row + 1 - view_h;
            if s < max_scroll {
                s
            } else {
                max_scroll
            }
        } else {
            0
        }
    } else if (stored as usize) < max_scroll {
        stored as usize
    } else {
        max_scroll
    }
}

/// The height of the project picker under the creation dialog's input:
/// a row per suggestion and its border, eight rows at most.
pub fn autocomplete_height(suggestions: usize) -> (r: u16)
    ensures
        r == (if suggestions + 2 < 8 {
            suggestions + 2
        } else {
            8
        }),
{
    if suggestions < 6 {
        (suggestions + 2) as u16
    } else {
        8
    }
}

} // verus!

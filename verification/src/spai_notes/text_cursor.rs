//! Pure char-index cursor arithmetic for the SPAI note editor.
//!
//! The editor keeps its cursor as a *char* index (not a byte offset) so that
//! Czech diacritics and emoji edit correctly.
use crate::text::{chars_of, concat_chars, slice_chars, string_of};
use vstd::prelude::*;
use vstd::utf8::{encode_scalar, encode_utf8};

verus! {

/// Number of UTF-8 bytes of `c`.
pub open spec fn utf8_width(c: char) -> int {
    let u = c as u32;
    if u <= 0x7F {
        1
    } else if u <= 0x7FF {
        2
    } else if u <= 0xFFFF {
        3
    } else {
        4
    }
}

/// Byte offset of char index `i` in `s`, clamped to the end of the text.
pub open spec fn byte_offset(s: Seq<char>, i: int) -> int {
    if i < s.len() {
        encode_utf8(s.take(i)).len() as int
    } else {
        encode_utf8(s).len() as int
    }
}

/// Start of the line that holds char index `c` (the index after the last
/// `\n` before `c`, or 0).
pub open spec fn line_start_of(s: Seq<char>, c: int) -> int
    decreases c,
{
    if c <= 0 {
        0
    } else if s[c - 1] == '\n' {
        c
    } else {
        line_start_of(s, c - 1)
    }
}

/// End of the line that holds char index `c` (the first `\n` at or after
/// `c`, or the length of the text).
pub open spec fn line_end_of(s: Seq<char>, c: int) -> int
    decreases s.len() - c,
{
    if c >= s.len() {
        s.len() as int
    } else if s[c] == '\n' {
        c
    } else {
        line_end_of(s, c + 1)
    }
}

/// A cursor index clamped into the text.
pub open spec fn clamp_cursor(s: Seq<char>, c: int) -> int {
    if c < s.len() {
        c
    } else {
        s.len() as int
    }
}

/// Where `move_line` puts the cursor.
pub open spec fn spec_move_line(s: Seq<char>, cursor: int, down: bool) -> int {
    let cur = clamp_cursor(s, cursor);
    let start = line_start_of(s, cur);
    let end = line_end_of(s, cur);
    let col = cur - start;
    if down {
        if end >= s.len() {
            cur
        } else {
            let next_start = end + 1;
            let next_end = line_end_of(s, next_start);
            next_start + if col < next_end - next_start {
                col
            } else {
                next_end - next_start
            }
        }
    } else {
        if start == 0 {
            cur
        } else {
            let prev_end = start - 1;
            let prev_start = line_start_of(s, prev_end);
            prev_start + if col < prev_end - prev_start {
                col
            } else {
                prev_end - prev_start
            }
        }
    }
}

pub proof fn lemma_line_start(s: Seq<char>, c: int)
    requires
        0 <= c <= s.len(),
    ensures
        0 <= line_start_of(s, c) <= c,
        line_start_of(s, c) == 0 || s[line_start_of(s, c) - 1] == '\n',
        forall|j: int| line_start_of(s, c) <= j < c ==> s[j] != '\n',
    decreases c,
{
    if c > 0 && s[c - 1] != '\n' {
        lemma_line_start(s, c - 1);
    }
}

pub proof fn lemma_line_end(s: Seq<char>, c: int)
    requires
        0 <= c <= s.len(),
    ensures
        c <= line_end_of(s, c) <= s.len(),
        line_end_of(s, c) == s.len() || s[line_end_of(s, c)] == '\n',
        forall|j: int| c <= j < line_end_of(s, c) ==> s[j] != '\n',
    decreases s.len() - c,
{
    if c < s.len() && s[c] != '\n' {
        lemma_line_end(s, c + 1);
    }
}

/// Moving up or down keeps the cursor inside the text.
pub proof fn lemma_move_line_in_text(s: Seq<char>, cursor: int, down: bool)
    requires
        0 <= cursor,
    ensures
        0 <= spec_move_line(s, cursor, down) <= s.len(),
{
    {
        let cur = clamp_cursor(s, cursor);
        lemma_line_start(s, cur);
        lemma_line_end(s, cur);
        let end = line_end_of(s, cur);
        let start = line_start_of(s, cur);
        if end < s.len() {
            lemma_line_end(s, end + 1);
        }
        if start > 0 {
            lemma_line_start(s, start - 1);
        }
    }
}

proof fn lemma_encode_scalar_len(c: char)
    ensures
        encode_scalar(c as u32).len() == utf8_width(c),
{
    vstd::utf8::char_is_scalar(c);
}

/// UTF-8 encoding distributes over concatenation.
pub proof fn lemma_encode_concat(a: Seq<char>, b: Seq<char>)
    ensures
        encode_utf8(a + b) == encode_utf8(a) + encode_utf8(b),
    decreases a.len(),
{
    if a.len() == 0 {
        assert(a + b == b);
    } else {
        lemma_encode_concat(a.drop_first(), b);
        assert((a + b).drop_first() == a.drop_first() + b);
        assert((a + b)[0] == a[0]);
    }
}

/// Encoding one more char adds its width.
pub proof fn lemma_encode_push(s: Seq<char>, i: int)
    requires
        0 <= i < s.len(),
    ensures
        encode_utf8(s.take(i + 1)).len() == encode_utf8(s.take(i)).len() + utf8_width(s[i]),
{
    assert(s.take(i + 1) == s.take(i) + seq![s[i]]);
    lemma_encode_concat(s.take(i), seq![s[i]]);
    lemma_encode_scalar_len(s[i]);
    assert(seq![s[i]].drop_first() == Seq::<char>::empty());
    assert(encode_utf8(Seq::<char>::empty()) == Seq::<u8>::empty());
}

/// A prefix never encodes to more bytes than the whole text.
pub proof fn lemma_encode_prefix_le(s: Seq<char>, i: int)
    requires
        0 <= i <= s.len(),
    ensures
        encode_utf8(s.take(i)).len() <= encode_utf8(s).len(),
{
    assert(s == s.take(i) + s.skip(i));
    lemma_encode_concat(s.take(i), s.skip(i));
}

/// Number of chars in `s`.
pub fn char_len(s: &str) -> (n: usize)
    ensures
        n == s@.len(),
{
    chars_of(s).len()
}

/// Width in bytes of one char in UTF-8.
pub fn char_utf8_width(c: char) -> (w: usize)
    ensures
        w == utf8_width(c),
{
    let u = c as u32;
    if u <= 0x7F {
        1
    } else if u <= 0x7FF {
        2
    } else if u <= 0xFFFF {
        3
    } else {
        4
    }
}

/// Char index → byte offset, clamped to the end of the string.
pub fn byte_of(s: &str, char_idx: usize) -> (b: usize)
    ensures
        b == byte_offset(s@, char_idx as int),
{
    let v = chars_of(s);
    let total = s.as_bytes().len();
    let stop = if char_idx < v.len() {
        char_idx
    } else {
        v.len()
    };
    let mut off: usize = 0;
    let mut i: usize = 0;
    while i < stop
        invariant
            stop <= v@.len(),
            v@ == s@,
            total == encode_utf8(s@).len(),
            0 <= i <= stop,
            off == encode_utf8(s@.take(i as int)).len(),
        decreases stop - i,
    {
        proof {
            lemma_encode_push(s@, i as int);
            lemma_encode_prefix_le(s@, i + 1);
        }
        off = off + char_utf8_width(v[i]);
        i = i + 1;
    }
    if char_idx < v.len() {
        off
    } else {
        assert(s@.take(s@.len() as int) == s@);
        total
    }
}

/// Start (inclusive) and end (exclusive) char indices of the line holding `cursor`.
pub fn line_bounds(s: &str, cursor: usize) -> (r: (usize, usize))
    ensures
        r.0 == line_start_of(s@, clamp_cursor(s@, cursor as int)),
        r.1 == line_end_of(s@, clamp_cursor(s@, cursor as int)),
{
    let chars = chars_of(s);
    line_bounds_chars(chars.as_slice(), cursor)
}

fn line_bounds_chars(chars: &[char], cursor: usize) -> (r: (usize, usize))
    ensures
        r.0 == line_start_of(chars@, clamp_cursor(chars@, cursor as int)),
        r.1 == line_end_of(chars@, clamp_cursor(chars@, cursor as int)),
{
    let cursor = if cursor < chars.len() {
        cursor
    } else {
        chars.len()
    };
    let mut start: usize = cursor;
    while start > 0 && chars[start - 1] != '\n'
        invariant
            0 <= start <= cursor <= chars@.len(),
            line_start_of(chars@, start as int) == line_start_of(chars@, cursor as int),
        decreases start,
    {
        start = start - 1;
    }
    let mut end: usize = cursor;
    while end < chars.len() && chars[end] != '\n'
        invariant
            cursor <= end <= chars@.len(),
            line_end_of(chars@, end as int) == line_end_of(chars@, cursor as int),
        decreases chars.len() - end,
    {
        end = end + 1;
    }
    (start, end)
}

/// Moves one line up/down while keeping the column, clamped to the line length.
pub fn move_line(s: &str, cursor: usize, down: bool) -> (r: usize)
    ensures
        r == spec_move_line(s@, cursor as int, down),
        r <= s@.len(),
{
    let chars = chars_of(s);
    let chars = chars.as_slice();
    let cursor = if cursor < chars.len() {
        cursor
    } else {
        chars.len()
    };
    let (start, end) = line_bounds_chars(chars, cursor);
    proof {
        lemma_line_start(chars@, cursor as int);
        lemma_line_end(chars@, cursor as int);
    }
    let col = cursor - start;
    if down {
        if end >= chars.len() {
            return cursor;
        }
        let next_start = end + 1;
        let (_, next_end) = line_bounds_chars(chars, next_start);
        proof {
            lemma_line_end(chars@, next_start as int);
        }
        next_start + if col < next_end - next_start {
            col
        } else {
            next_end - next_start
        }
    } else {
        if start == 0 {
            return cursor;
        }
        let prev_end = start - 1;
        let (prev_start, _) = line_bounds_chars(chars, prev_end);
        proof {
            lemma_line_start(chars@, prev_end as int);
        }
        prev_start + if col < prev_end - prev_start {
            col
        } else {
            prev_end - prev_start
        }
    }
}

/// The text with the block cursor glyph `█` put in before char `char_idx`
/// (at the end when the index is past it).
pub open spec fn spec_insert_cursor_marker(text: Seq<char>, char_idx: int) -> Seq<char> {
    let at = if char_idx < text.len() {
        char_idx
    } else {
        text.len() as int
    };
    text.take(at) + seq!['█'] + text.skip(at)
}

/// Inserts the block cursor glyph at a char index.
pub fn insert_cursor_marker(text: &str, char_idx: usize) -> (r: String)
    ensures
        r@ == spec_insert_cursor_marker(text@, char_idx as int),
{
    let v = chars_of(text);
    let at: usize = if char_idx < v.len() {
        char_idx
    } else {
        v.len()
    };
    let head = slice_chars(v.as_slice(), 0, at);
    let tail = slice_chars(v.as_slice(), at, v.len());
    let mut mark: Vec<char> = Vec::new();
    mark.push('█');
    let a = concat_chars(head.as_slice(), mark.as_slice());
    let r = concat_chars(a.as_slice(), tail.as_slice());
    assert(r@ =~= spec_insert_cursor_marker(text@, char_idx as int));
    string_of(r.as_slice())
}

} // verus!

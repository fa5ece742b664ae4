//! Deterministic word-wrapping for the SPAI note editor body.
//!
//! The editor has to know *which display row the cursor sits on* so it can keep
//! the cursor inside the visible viewport, so the body is pre-wrapped here.
use crate::spai_notes::text_cursor::{lemma_encode_concat, utf8_width};
use crate::text::{
    chars_of, is_white_space, is_ws, push_chars, split_newlines, split_newlines_exec, split_nl,
    string_of, views,
};
use vstd::prelude::*;
use vstd::utf8::{encode_scalar, encode_utf8};

verus! {

/// Display width of a char in terminal cells: wide CJK/emoji ranges count
/// as two cells, everything else as one.
pub open spec fn cell_width(c: char) -> int {
    let u = c as u32;
    if (0x1100 <= u && u <= 0x115F) || (0x2E80 <= u && u <= 0xA4CF) || (0xAC00 <= u && u
        <= 0xD7A3) || (0xF900 <= u && u <= 0xFAFF) || (0xFE30 <= u && u <= 0xFE6F) || (0xFF00
        <= u && u <= 0xFF60) || (0xFFE0 <= u && u <= 0xFFE6) || (0x1F300 <= u && u <= 0x1F64F)
        || (0x1F900 <= u && u <= 0x1F9FF) || (0x1FA70 <= u && u <= 0x1FAFF) || (0x2600 <= u
        && u <= 0x27BF) {
        2
    } else {
        1
    }
}

/// Display width of a text: the sum of its cell widths.
pub open spec fn width_of(s: Seq<char>) -> int
    decreases s.len(),
{
    if s.len() == 0 {
        0
    } else {
        width_of(s.drop_last()) + cell_width(s.last())
    }
}

/// All rows, one after another.
pub open spec fn concat_all(rows: Seq<Seq<char>>) -> Seq<char>
    decreases rows.len(),
{
    if rows.len() == 0 {
        Seq::empty()
    } else {
        concat_all(rows.drop_last()) + rows.last()
    }
}

/// The text without its `\n` chars.
pub open spec fn remove_newlines(s: Seq<char>) -> Seq<char>
    decreases s.len(),
{
    if s.len() == 0 {
        Seq::empty()
    } else if s.last() == '\n' {
        remove_newlines(s.drop_last())
    } else {
        remove_newlines(s.drop_last()).push(s.last())
    }
}

/// Tokenizer state: finished `(word, following white space)` tokens, the word
/// in progress and the white space in progress.
pub type TokState = (Seq<(Seq<char>, Seq<char>)>, Seq<char>, Seq<char>);

pub open spec fn tok_step(st: TokState, c: char) -> TokState {
    let (tokens, word, spaces) = st;
    if is_ws(c) {
        if word.len() > 0 {
            (tokens.push((word, Seq::empty())), Seq::empty(), spaces.push(c))
        } else {
            (tokens, word, spaces.push(c))
        }
    } else {
        if spaces.len() > 0 {
            if tokens.len() > 0 {
                (tokens.update(tokens.len() - 1, (tokens.last().0, spaces)), word.push(c), Seq::empty())
            } else {
                (tokens.push((Seq::empty(), spaces)), word.push(c), Seq::empty())
            }
        } else {
            (tokens, word.push(c), spaces)
        }
    }
}

pub open spec fn tok_fold(line: Seq<char>) -> TokState
    decreases line.len(),
{
    if line.len() == 0 {
        (Seq::empty(), Seq::empty(), Seq::empty())
    } else {
        tok_step(tok_fold(line.drop_last()), line.last())
    }
}

/// Splits a line into `(word, following_whitespace)` tokens.
pub open spec fn spec_tokenize(line: Seq<char>) -> Seq<(Seq<char>, Seq<char>)> {
    let (tokens, word, spaces) = tok_fold(line);
    let tokens = if word.len() > 0 {
        tokens.push((word, Seq::empty()))
    } else {
        tokens
    };
    if spaces.len() > 0 {
        if tokens.len() > 0 {
            tokens.update(tokens.len() - 1, (tokens.last().0, tokens.last().1 + spaces))
        } else {
            tokens.push((Seq::empty(), spaces))
        }
    } else {
        tokens
    }
}

/// All tokens, one after another.
pub open spec fn concat_tokens(tokens: Seq<(Seq<char>, Seq<char>)>) -> Seq<char>
    decreases tokens.len(),
{
    if tokens.len() == 0 {
        Seq::empty()
    } else {
        concat_tokens(tokens.drop_last()) + tokens.last().0 + tokens.last().1
    }
}

/// Chunking state: finished chunks and the chunk in progress.
pub open spec fn chunk_fold(word: Seq<char>, width: int) -> (Seq<Seq<char>>, Seq<char>)
    decreases word.len(),
{
    if word.len() == 0 {
        (Seq::empty(), Seq::empty())
    } else {
        let (chunks, cur) = chunk_fold(word.drop_last(), width);
        let c = word.last();
        if width_of(cur) + cell_width(c) > width && cur.len() > 0 {
            (chunks.push(cur), seq![c])
        } else {
            (chunks, cur.push(c))
        }
    }
}

/// Splits `word` into chunks that each fit within `width` cells.
pub open spec fn spec_hard_chunks(word: Seq<char>, width: int) -> Seq<Seq<char>> {
    let (chunks, cur) = chunk_fold(word, width);
    if cur.len() > 0 {
        chunks.push(cur)
    } else {
        chunks
    }
}

/// Wrapping state: finished rows and the row in progress.
pub type WrapState = (Seq<Seq<char>>, Seq<char>);

/// Closes the current row when `piece` would overflow it.
pub open spec fn make_room(st: WrapState, piece: Seq<char>, width: int) -> WrapState {
    let (rows, cur) = st;
    if width_of(cur) > 0 && width_of(cur) + width_of(piece) > width {
        (rows.push(cur), Seq::empty())
    } else {
        (rows, cur)
    }
}

/// Places one piece (a word, or the white space after it): the current row
/// is closed when the piece would overflow it, and a piece wider than a whole
/// row is cut into chunks, all but the last of which become rows of their own.
pub open spec fn place_piece(st: WrapState, piece: Seq<char>, width: int) -> WrapState {
    if piece.len() > 0 {
        let (rows, cur) = make_room(st, piece, width);
        if width_of(piece) > width {
            let chunks = spec_hard_chunks(piece, width);
            if chunks.len() > 0 {
                (rows + chunks.drop_last(), cur + chunks.last())
            } else {
                (rows, cur)
            }
        } else {
            (rows, cur + piece)
        }
    } else {
        st
    }
}

/// Places one `(word, spaces)` token: the word, then the white space after it.
pub open spec fn wrap_token(st: WrapState, word: Seq<char>, spaces: Seq<char>, width: int) -> WrapState {
    place_piece(place_piece(st, word, width), spaces, width)
}

pub open spec fn wrap_tokens(
    st: WrapState,
    tokens: Seq<(Seq<char>, Seq<char>)>,
    width: int,
) -> WrapState
    decreases tokens.len(),
{
    if tokens.len() == 0 {
        st
    } else {
        let st = wrap_tokens(st, tokens.drop_last(), width);
        wrap_token(st, tokens.last().0, tokens.last().1, width)
    }
}

/// Rows after wrapping one more hard line.
pub open spec fn wrap_line(rows: Seq<Seq<char>>, line: Seq<char>, width: int) -> Seq<Seq<char>> {
    let (rows, cur) = wrap_tokens((rows, Seq::empty()), spec_tokenize(line), width);
    rows.push(cur)
}

pub open spec fn wrap_lines(lines: Seq<Seq<char>>, width: int) -> Seq<Seq<char>>
    decreases lines.len(),
{
    if lines.len() == 0 {
        Seq::empty()
    } else {
        wrap_line(wrap_lines(lines.drop_last(), width), lines.last(), width)
    }
}

/// The rows `wrap_rows` produces: every hard line is tokenized into words and
/// the white space after them; a word or a run of white space goes to the
/// next row when it would overflow the current one, one wider than a whole row
/// is cut into chunks, and each hard line ends its last row.
pub open spec fn spec_wrap_rows(text: Seq<char>, width: int) -> Seq<Seq<char>> {
    let width = if width < 1 {
        1
    } else {
        width
    };
    let rows = wrap_lines(split_newlines(text), width);
    if rows.len() == 0 {
        seq![Seq::empty()]
    } else {
        rows
    }
}

/// The width `wrap_rows` works with: `width`, but at least one cell.
pub open spec fn effective_width(width: int) -> int {
    if width < 1 {
        1
    } else {
        width
    }
}

/// Every char of `s` takes at most `w` cells.
pub open spec fn chars_fit(s: Seq<char>, w: int) -> bool {
    forall|i: int| 0 <= i < s.len() ==> #[trigger] cell_width(s[i]) <= w
}

/// Every row is at most `w` cells wide.
pub open spec fn rows_fit(rows: Seq<Seq<char>>, w: int) -> bool {
    forall|i: int| 0 <= i < rows.len() ==> #[trigger] width_of(rows[i]) <= w
}

// ---------------------------------------------------------------------------
// Lemmas
// ---------------------------------------------------------------------------

pub proof fn lemma_width_push(s: Seq<char>, c: char)
    ensures
        width_of(s.push(c)) == width_of(s) + cell_width(c),
{
    assert(s.push(c).drop_last() == s);
}

pub proof fn lemma_width_nonneg(s: Seq<char>)
    ensures
        width_of(s) >= s.len(),
        width_of(s) == 0 <==> s.len() == 0,
    decreases s.len(),
{
    if s.len() > 0 {
        lemma_width_nonneg(s.drop_last());
    }
}

pub proof fn lemma_width_concat(a: Seq<char>, b: Seq<char>)
    ensures
        width_of(a + b) == width_of(a) + width_of(b),
    decreases b.len(),
{
    if b.len() == 0 {
        assert(a + b == a);
    } else {
        lemma_width_concat(a, b.drop_last());
        assert((a + b).drop_last() == a + b.drop_last());
        assert((a + b).last() == b.last());
    }
}

/// Display width adds up over concatenation, and every char takes one or two
/// cells: a text is at least as wide as it has chars and at most twice that.
pub proof fn lemma_width_laws(a: Seq<char>, b: Seq<char>)
    ensures
        width_of(a + b) == width_of(a) + width_of(b),
        a.len() <= width_of(a) <= 2 * a.len(),
    decreases a.len(),
{
    lemma_width_concat(a, b);
    lemma_width_nonneg(a);
    if a.len() > 0 {
        lemma_width_laws(a.drop_last(), b);
    }
}

/// A text is never wider than its UTF-8 encoding is long.
proof fn lemma_width_le_bytes(s: Seq<char>)
    ensures
        width_of(s) <= encode_utf8(s).len(),
    decreases s.len(),
{
    if s.len() > 0 {
        lemma_width_le_bytes(s.drop_last());
        assert(s == s.drop_last() + seq![s.last()]);
        lemma_encode_concat(s.drop_last(), seq![s.last()]);
        vstd::utf8::char_is_scalar(s.last());
        assert(seq![s.last()].drop_first() == Seq::<char>::empty());
        assert(encode_utf8(Seq::<char>::empty()) == Seq::<u8>::empty());
        assert(encode_scalar(s.last() as u32).len() == utf8_width(s.last()));
    }
}

proof fn lemma_concat_all_push(rows: Seq<Seq<char>>, x: Seq<char>)
    ensures
        concat_all(rows.push(x)) == concat_all(rows) + x,
{
    assert(rows.push(x).drop_last() == rows);
}

proof fn lemma_concat_all_append(a: Seq<Seq<char>>, b: Seq<Seq<char>>)
    ensures
        concat_all(a + b) == concat_all(a) + concat_all(b),
    decreases b.len(),
{
    if b.len() == 0 {
        assert(a + b == a);
        assert(concat_all(a) + Seq::<char>::empty() == concat_all(a));
    } else {
        lemma_concat_all_append(a, b.drop_last());
        assert((a + b).drop_last() == a + b.drop_last());
        assert((a + b).last() == b.last());
    }
}

proof fn lemma_tok_fold(line: Seq<char>)
    ensures
        ({
            let (tokens, word, spaces) = tok_fold(line);
            &&& concat_tokens(tokens) + word + spaces == line
            &&& word.len() == 0 || spaces.len() == 0
            &&& (spaces.len() > 0 && tokens.len() > 0) ==> tokens.last().1.len() == 0
        }),
    decreases line.len(),
{
    if line.len() > 0 {
        lemma_tok_fold(line.drop_last());
        let (tokens, word, spaces) = tok_fold(line.drop_last());
        let c = line.last();
        assert(line == line.drop_last().push(c));
        if is_ws(c) {
            if word.len() > 0 {
                let t2 = tokens.push((word, Seq::<char>::empty()));
                assert(t2.drop_last() == tokens);
                assert(concat_tokens(t2) == concat_tokens(tokens) + word + Seq::<char>::empty());
            }
        } else {
            if spaces.len() > 0 {
                if tokens.len() > 0 {
                    let t2 = tokens.update(tokens.len() - 1, (tokens.last().0, spaces));
                    assert(t2.drop_last() == tokens.drop_last());
                    assert(concat_tokens(tokens) == concat_tokens(tokens.drop_last())
                        + tokens.last().0 + tokens.last().1);
                    assert(tokens.last().1 == Seq::<char>::empty());
                } else {
                    let t2 = tokens.push((Seq::<char>::empty(), spaces));
                    assert(t2.drop_last() == tokens);
                }
            }
        }
    }
}

/// Tokenizing loses nothing: the tokens put back together give the line.
pub proof fn lemma_tokenize_concat(line: Seq<char>)
    ensures
        concat_tokens(spec_tokenize(line)) == line,
{
    lemma_tok_fold(line);
    let (tokens, word, spaces) = tok_fold(line);
    let t1 = if word.len() > 0 {
        tokens.push((word, Seq::<char>::empty()))
    } else {
        tokens
    };
    if word.len() > 0 {
        assert(t1.drop_last() == tokens);
    }
    assert(concat_tokens(t1) + spaces == line);
    if spaces.len() > 0 {
        if t1.len() > 0 {
            let t2 = t1.update(t1.len() - 1, (t1.last().0, t1.last().1 + spaces));
            assert(t2.drop_last() == t1.drop_last());
        } else {
            let t2 = t1.push((Seq::<char>::empty(), spaces));
            assert(t2.drop_last() == t1);
        }
    }
}

proof fn lemma_chunk_fold(word: Seq<char>, width: int)
    ensures
        ({
            let (chunks, cur) = chunk_fold(word, width);
            concat_all(chunks) + cur == word
        }),
    decreases word.len(),
{
    if word.len() > 0 {
        lemma_chunk_fold(word.drop_last(), width);
        let (chunks, cur) = chunk_fold(word.drop_last(), width);
        let c = word.last();
        assert(word == word.drop_last().push(c));
        if width_of(cur) + cell_width(c) > width && cur.len() > 0 {
            lemma_concat_all_push(chunks, cur);
        }
    }
}

/// Chunking loses nothing either.
pub proof fn lemma_hard_chunks_concat(word: Seq<char>, width: int)
    ensures
        concat_all(spec_hard_chunks(word, width)) == word,
        word.len() > 0 ==> spec_hard_chunks(word, width).len() > 0,
{
    lemma_chunk_fold(word, width);
    let (chunks, cur) = chunk_fold(word, width);
    if cur.len() > 0 {
        lemma_concat_all_push(chunks, cur);
    } else {
        assert(concat_all(chunks) + cur == concat_all(chunks));
        if word.len() > 0 {
            assert(chunks.len() > 0);
        }
    }
}

proof fn lemma_make_room(st: WrapState, piece: Seq<char>, width: int)
    ensures
        concat_all(make_room(st, piece, width).0) + make_room(st, piece, width).1 == concat_all(
            st.0,
        ) + st.1,
{
    let (rows, cur) = st;
    if width_of(cur) > 0 && width_of(cur) + width_of(piece) > width {
        lemma_concat_all_push(rows, cur);
        assert(concat_all(rows.push(cur)) + Seq::<char>::empty() == concat_all(rows.push(cur)));
    }
}

proof fn lemma_place_piece(st: WrapState, piece: Seq<char>, width: int)
    ensures
        concat_all(place_piece(st, piece, width).0) + place_piece(st, piece, width).1
            == concat_all(st.0) + st.1 + piece,
{
    let st1 = place_piece(st, piece, width);
    if piece.len() > 0 {
        lemma_make_room(st, piece, width);
        let (rows, cur) = make_room(st, piece, width);
        if width_of(piece) > width {
            let chunks = spec_hard_chunks(piece, width);
            lemma_hard_chunks_concat(piece, width);
            assert(chunks == chunks.drop_last().push(chunks.last()));
            lemma_concat_all_push(chunks.drop_last(), chunks.last());
            lemma_concat_all_append(rows, chunks.drop_last());
            lemma_width_nonneg(st.1);
            lemma_width_nonneg(piece);
            lemma_width_nonneg(cur);
            assert(cur.len() == 0);
            assert(cur + chunks.last() == chunks.last());
            assert(concat_all(st1.0) + st1.1 == concat_all(rows) + concat_all(chunks.drop_last())
                + chunks.last());
            assert(concat_all(st1.0) + st1.1 == concat_all(rows) + piece);
            assert(concat_all(rows) + cur == concat_all(st.0) + st.1);
        } else {
            assert(concat_all(st1.0) + st1.1 == concat_all(rows) + (cur + piece));
        }
    } else {
        assert(piece == Seq::<char>::empty());
    }
}

proof fn lemma_wrap_token(st: WrapState, word: Seq<char>, spaces: Seq<char>, width: int)
    ensures
        concat_all(wrap_token(st, word, spaces, width).0) + wrap_token(st, word, spaces, width).1
            == concat_all(st.0) + st.1 + word + spaces,
{
    lemma_place_piece(st, word, width);
    lemma_place_piece(place_piece(st, word, width), spaces, width);
}

proof fn lemma_wrap_tokens(st: WrapState, tokens: Seq<(Seq<char>, Seq<char>)>, width: int)
    ensures
        concat_all(wrap_tokens(st, tokens, width).0) + wrap_tokens(st, tokens, width).1
            == concat_all(st.0) + st.1 + concat_tokens(tokens),
    decreases tokens.len(),
{
    if tokens.len() == 0 {
        assert(concat_all(st.0) + st.1 + Seq::<char>::empty() == concat_all(st.0) + st.1);
    } else {
        lemma_wrap_tokens(st, tokens.drop_last(), width);
        let st1 = wrap_tokens(st, tokens.drop_last(), width);
        lemma_wrap_token(st1, tokens.last().0, tokens.last().1, width);
    }
}

proof fn lemma_wrap_line(rows: Seq<Seq<char>>, line: Seq<char>, width: int)
    ensures
        concat_all(wrap_line(rows, line, width)) == concat_all(rows) + line,
{
    lemma_wrap_tokens((rows, Seq::empty()), spec_tokenize(line), width);
    lemma_tokenize_concat(line);
    let (r, cur) = wrap_tokens((rows, Seq::empty()), spec_tokenize(line), width);
    lemma_concat_all_push(r, cur);
    assert(concat_all(rows) + Seq::<char>::empty() == concat_all(rows));
}

proof fn lemma_wrap_lines(lines: Seq<Seq<char>>, width: int)
    ensures
        concat_all(wrap_lines(lines, width)) == concat_all(lines),
    decreases lines.len(),
{
    if lines.len() > 0 {
        lemma_wrap_lines(lines.drop_last(), width);
        lemma_wrap_line(wrap_lines(lines.drop_last(), width), lines.last(), width);
    }
}

proof fn lemma_split_nl_concat(s: Seq<char>)
    ensures
        concat_all(split_nl(s).0) + split_nl(s).1 == remove_newlines(s),
    decreases s.len(),
{
    if s.len() > 0 {
        lemma_split_nl_concat(s.drop_last());
        let (done, cur) = split_nl(s.drop_last());
        if s.last() == '\n' {
            lemma_concat_all_push(done, cur);
            assert(concat_all(done.push(cur)) + Seq::<char>::empty() == concat_all(done.push(cur)));
        }
    }
}

proof fn lemma_chars_fit_split(a: Seq<char>, b: Seq<char>, w: int)
    requires
        chars_fit(a + b, w),
    ensures
        chars_fit(a, w),
        chars_fit(b, w),
{
    assert forall|i: int| 0 <= i < a.len() implies cell_width(a[i]) <= w by {
        assert((a + b)[i] == a[i]);
    }
    assert forall|i: int| 0 <= i < b.len() implies cell_width(b[i]) <= w by {
        assert((a + b)[a.len() + i] == b[i]);
    }
}

proof fn lemma_chars_fit_drop_last(s: Seq<char>, w: int)
    requires
        s.len() > 0,
        chars_fit(s, w),
    ensures
        chars_fit(s.drop_last(), w),
        cell_width(s.last()) <= w,
{
    assert(s == s.drop_last().push(s.last()));
    assert(s.drop_last().push(s.last()) == s.drop_last() + seq![s.last()]);
    lemma_chars_fit_split(s.drop_last(), seq![s.last()], w);
    assert(seq![s.last()][0] == s.last());
}

proof fn lemma_rows_fit_push(rows: Seq<Seq<char>>, x: Seq<char>, w: int)
    requires
        rows_fit(rows, w),
        width_of(x) <= w,
    ensures
        rows_fit(rows.push(x), w),
{
    assert forall|i: int| 0 <= i < rows.push(x).len() implies width_of(rows.push(x)[i]) <= w by {
        if i < rows.len() {
            assert(rows.push(x)[i] == rows[i]);
        }
    }
}

proof fn lemma_rows_fit_append(a: Seq<Seq<char>>, b: Seq<Seq<char>>, w: int)
    requires
        rows_fit(a, w),
        rows_fit(b, w),
    ensures
        rows_fit(a + b, w),
{
    assert forall|i: int| 0 <= i < (a + b).len() implies width_of((a + b)[i]) <= w by {
        if i < a.len() {
            assert((a + b)[i] == a[i]);
        } else {
            assert((a + b)[i] == b[i - a.len()]);
        }
    }
}

proof fn lemma_chunk_fold_fits(word: Seq<char>, width: int)
    requires
        width >= 1,
        chars_fit(word, width),
    ensures
        rows_fit(chunk_fold(word, width).0, width),
        width_of(chunk_fold(word, width).1) <= width,
    decreases word.len(),
{
    if word.len() == 0 {
        lemma_width_nonneg(Seq::<char>::empty());
    } else {
        lemma_chars_fit_drop_last(word, width);
        lemma_chunk_fold_fits(word.drop_last(), width);
        let (chunks, cur) = chunk_fold(word.drop_last(), width);
        let c = word.last();
        lemma_width_push(cur, c);
        lemma_width_nonneg(cur);
        if width_of(cur) + cell_width(c) > width && cur.len() > 0 {
            lemma_rows_fit_push(chunks, cur, width);
            lemma_width_push(Seq::<char>::empty(), c);
            lemma_width_nonneg(Seq::<char>::empty());
            assert(Seq::<char>::empty().push(c) == seq![c]);
        }
    }
}

/// Chunks of a word whose chars each fit in `width` cells fit in `width`.
proof fn lemma_hard_chunks_fit(word: Seq<char>, width: int)
    requires
        width >= 1,
        chars_fit(word, width),
    ensures
        rows_fit(spec_hard_chunks(word, width), width),
{
    lemma_chunk_fold_fits(word, width);
    let (chunks, cur) = chunk_fold(word, width);
    if cur.len() > 0 {
        lemma_rows_fit_push(chunks, cur, width);
    }
}

proof fn lemma_place_piece_fits(st: WrapState, piece: Seq<char>, width: int)
    requires
        width >= 1,
        chars_fit(piece, width),
        rows_fit(st.0, width),
        width_of(st.1) <= width,
    ensures
        rows_fit(place_piece(st, piece, width).0, width),
        width_of(place_piece(st, piece, width).1) <= width,
{
    if piece.len() > 0 {
        let (rows, cur) = make_room(st, piece, width);
        lemma_width_nonneg(st.1);
        lemma_width_nonneg(cur);
        lemma_width_nonneg(piece);
        if width_of(st.1) > 0 && width_of(st.1) + width_of(piece) > width {
            lemma_rows_fit_push(st.0, st.1, width);
        }
        assert(rows_fit(rows, width));
        if width_of(piece) > width {
            let chunks = spec_hard_chunks(piece, width);
            lemma_hard_chunks_fit(piece, width);
            lemma_hard_chunks_concat(piece, width);
            assert(cur.len() == 0);
            assert(cur + chunks.last() == chunks.last());
            assert(rows_fit(chunks.drop_last(), width)) by {
                assert forall|i: int| 0 <= i < chunks.drop_last().len() implies width_of(
                    chunks.drop_last()[i],
                ) <= width by {
                    assert(chunks.drop_last()[i] == chunks[i]);
                }
            }
            assert(width_of(chunks[chunks.len() - 1]) <= width);
            lemma_rows_fit_append(rows, chunks.drop_last(), width);
        } else {
            lemma_width_concat(cur, piece);
        }
    }
}

proof fn lemma_wrap_tokens_fit(st: WrapState, tokens: Seq<(Seq<char>, Seq<char>)>, width: int)
    requires
        width >= 1,
        chars_fit(concat_tokens(tokens), width),
        rows_fit(st.0, width),
        width_of(st.1) <= width,
    ensures
        rows_fit(wrap_tokens(st, tokens, width).0, width),
        width_of(wrap_tokens(st, tokens, width).1) <= width,
    decreases tokens.len(),
{
    if tokens.len() > 0 {
        let (word, spaces) = tokens.last();
        lemma_chars_fit_split(concat_tokens(tokens.drop_last()) + word, spaces, width);
        lemma_chars_fit_split(concat_tokens(tokens.drop_last()), word, width);
        lemma_wrap_tokens_fit(st, tokens.drop_last(), width);
        let st1 = wrap_tokens(st, tokens.drop_last(), width);
        lemma_place_piece_fits(st1, word, width);
        lemma_place_piece_fits(place_piece(st1, word, width), spaces, width);
    }
}

proof fn lemma_wrap_lines_fit(lines: Seq<Seq<char>>, width: int)
    requires
        width >= 1,
        chars_fit(concat_all(lines), width),
    ensures
        rows_fit(wrap_lines(lines, width), width),
    decreases lines.len(),
{
    if lines.len() > 0 {
        let line = lines.last();
        lemma_chars_fit_split(concat_all(lines.drop_last()), line, width);
        lemma_wrap_lines_fit(lines.drop_last(), width);
        let rows = wrap_lines(lines.drop_last(), width);
        lemma_tokenize_concat(line);
        lemma_width_nonneg(Seq::<char>::empty());
        lemma_wrap_tokens_fit((rows, Seq::empty()), spec_tokenize(line), width);
        let (r, cur) = wrap_tokens((rows, Seq::empty()), spec_tokenize(line), width);
        lemma_rows_fit_push(r, cur, width);
    }
}

proof fn lemma_remove_newlines_fit(s: Seq<char>, w: int)
    requires
        chars_fit(s, w),
    ensures
        chars_fit(remove_newlines(s), w),
    decreases s.len(),
{
    if s.len() > 0 {
        lemma_chars_fit_drop_last(s, w);
        lemma_remove_newlines_fit(s.drop_last(), w);
        let r = remove_newlines(s.drop_last());
        if s.last() != '\n' {
            assert forall|i: int| 0 <= i < r.push(s.last()).len() implies cell_width(
                r.push(s.last())[i],
            ) <= w by {
                if i < r.len() {
                    assert(r.push(s.last())[i] == r[i]);
                }
            }
        }
    }
}

/// Rows are never wider than the width (at least one cell), whenever each
/// char of the text fits in that width on its own: a word or a run of white
/// space too wide for a row is cut into chunks that each fit.
pub proof fn lemma_wrap_rows_fit(text: Seq<char>, width: int)
    requires
        chars_fit(text, effective_width(width)),
    ensures
        rows_fit(spec_wrap_rows(text, width), effective_width(width)),
{
    let w = effective_width(width);
    lemma_split_nl_concat(text);
    lemma_concat_all_push(split_nl(text).0, split_nl(text).1);
    lemma_remove_newlines_fit(text, w);
    lemma_wrap_lines_fit(split_newlines(text), w);
    let rows = wrap_lines(split_newlines(text), w);
    if rows.len() == 0 {
        lemma_width_nonneg(Seq::<char>::empty());
        lemma_rows_fit_push(Seq::<Seq<char>>::empty(), Seq::<char>::empty(), w);
        assert(seq![Seq::<char>::empty()] == Seq::<Seq<char>>::empty().push(Seq::<char>::empty()));
    }
}

proof fn lemma_place_piece_grows(st: WrapState, piece: Seq<char>, width: int)
    ensures
        place_piece(st, piece, width).0.len() >= st.0.len(),
{
}

proof fn lemma_wrap_tokens_grows(st: WrapState, tokens: Seq<(Seq<char>, Seq<char>)>, width: int)
    ensures
        wrap_tokens(st, tokens, width).0.len() >= st.0.len(),
    decreases tokens.len(),
{
    if tokens.len() > 0 {
        lemma_wrap_tokens_grows(st, tokens.drop_last(), width);
        let st1 = wrap_tokens(st, tokens.drop_last(), width);
        lemma_place_piece_grows(st1, tokens.last().0, width);
        lemma_place_piece_grows(place_piece(st1, tokens.last().0, width), tokens.last().1, width);
    }
}

proof fn lemma_wrap_lines_count(lines: Seq<Seq<char>>, width: int)
    ensures
        wrap_lines(lines, width).len() >= lines.len(),
    decreases lines.len(),
{
    if lines.len() > 0 {
        lemma_wrap_lines_count(lines.drop_last(), width);
        let rows = wrap_lines(lines.drop_last(), width);
        lemma_wrap_tokens_grows((rows, Seq::empty()), spec_tokenize(lines.last()), width);
    }
}

/// Every hard line of the text gives at least one row, so there is always
/// a row.
pub proof fn lemma_wrap_rows_count(text: Seq<char>, width: int)
    ensures
        spec_wrap_rows(text, width).len() >= split_newlines(text).len(),
        spec_wrap_rows(text, width).len() >= 1,
{
    lemma_wrap_lines_count(split_newlines(text), effective_width(width));
}

/// No characters are lost: the wrapped rows put back together give the text
/// without its line breaks.
pub proof fn lemma_wrap_rows_keeps_text(text: Seq<char>, width: int)
    ensures
        concat_all(spec_wrap_rows(text, width)) == remove_newlines(text),
{
    let w = if width < 1 {
        1
    } else {
        width
    };
    lemma_wrap_lines(split_newlines(text), w);
    lemma_split_nl_concat(text);
    lemma_concat_all_push(split_nl(text).0, split_nl(text).1);
    let rows = wrap_lines(split_newlines(text), w);
    if rows.len() == 0 {
        assert(concat_all(seq![Seq::<char>::empty()]) == Seq::<char>::empty()) by {
            assert(seq![Seq::<char>::empty()].drop_last() == Seq::<Seq<char>>::empty());
        }
        assert(concat_all(rows) == Seq::<char>::empty());
    }
}

// ---------------------------------------------------------------------------
// Executable code
// ---------------------------------------------------------------------------

/// Approximate display width of a char in terminal cells.
fn char_width(c: char) -> (w: usize)
    ensures
        w == cell_width(c),
{
    let u = c as u32;
    if (0x1100 <= u && u <= 0x115F) || (0x2E80 <= u && u <= 0xA4CF) || (0xAC00 <= u && u
        <= 0xD7A3) || (0xF900 <= u && u <= 0xFAFF) || (0xFE30 <= u && u <= 0xFE6F) || (0xFF00
        <= u && u <= 0xFF60) || (0xFFE0 <= u && u <= 0xFFE6) || (0x1F300 <= u && u <= 0x1F64F)
        || (0x1F900 <= u && u <= 0x1F9FF) || (0x1FA70 <= u && u <= 0x1FAFF) || (0x2600 <= u
        && u <= 0x27BF) {
        2
    } else {
        1
    }
}

/// Width of a char slice that is known to fit.
fn width_chars(v: &[char]) -> (w: usize)
    requires
        width_of(v@) <= usize::MAX,
    ensures
        w == width_of(v@),
{
    let mut w: usize = 0;
    let mut i: usize = 0;
    while i < v.len()
        invariant
            0 <= i <= v.len(),
            w == width_of(v@.take(i as int)),
            width_of(v@) <= usize::MAX,
        decreases v.len() - i,
    {
        proof {
            lemma_width_push(v@.take(i as int), v@[i as int]);
            assert(v@.take(i + 1) == v@.take(i as int).push(v@[i as int]));
            assert(v@ == v@.take(i + 1) + v@.skip(i + 1));
            lemma_width_concat(v@.take(i + 1), v@.skip(i + 1));
            lemma_width_nonneg(v@.skip(i + 1));
        }
        w = w + char_width(v[i]);
        i = i + 1;
    }
    assert(v@.take(v.len() as int) == v@);
    w
}

/// Display width of `s` in terminal cells.
pub fn text_width(s: &str) -> (w: usize)
    ensures
        w == width_of(s@),
{
    let v = chars_of(s);
    let bytes = s.as_bytes().len();
    proof {
        lemma_width_le_bytes(s@);
    }
    width_chars(v.as_slice())
}

/// Splits a line into `(word, following_whitespace)` tokens.
fn tokenize(line: &[char]) -> (r: Vec<(Vec<char>, Vec<char>)>)
    ensures
        r@.map_values(|t: (Vec<char>, Vec<char>)| (t.0@, t.1@)) == spec_tokenize(line@),
{
    let mut tokens: Vec<(Vec<char>, Vec<char>)> = Vec::new();
    let mut word: Vec<char> = Vec::new();
    let mut spaces: Vec<char> = Vec::new();
    let mut i: usize = 0;
    while i < line.len()
        invariant
            0 <= i <= line.len(),
            (tokens@.map_values(|t: (Vec<char>, Vec<char>)| (t.0@, t.1@)), word@, spaces@)
                == tok_fold(line@.take(i as int)),
        decreases line.len() - i,
    {
        let c = line[i];
        let ghost before = tokens@;
        assert(line@.take(i + 1).drop_last() == line@.take(i as int));
        if is_white_space(c) {
            if word.len() > 0 {
                let w = word;
                word = Vec::new();
                tokens.push((w, Vec::new()));
                assert(tokens@.map_values(|t: (Vec<char>, Vec<char>)| (t.0@, t.1@)) == before.map_values(
                    |t: (Vec<char>, Vec<char>)| (t.0@, t.1@),
                ).push((w@, Seq::<char>::empty())));
            }
            spaces.push(c);
        } else {
            if spaces.len() > 0 {
                let sp = spaces;
                spaces = Vec::new();
                if tokens.len() > 0 {
                    let last = tokens.pop().unwrap();
                    tokens.push((last.0, sp));
                    assert(tokens@.map_values(|t: (Vec<char>, Vec<char>)| (t.0@, t.1@)) == before.map_values(
                        |t: (Vec<char>, Vec<char>)| (t.0@, t.1@),
                    ).update(before.len() - 1, (before.last().0@, sp@)));
                } else {
                    tokens.push((Vec::new(), sp));
                    assert(tokens@.map_values(|t: (Vec<char>, Vec<char>)| (t.0@, t.1@)) == before.map_values(
                        |t: (Vec<char>, Vec<char>)| (t.0@, t.1@),
                    ).push((Seq::<char>::empty(), sp@)));
                }
            }
            word.push(c);
        }
        i = i + 1;
    }
    assert(line@.take(line.len() as int) == line@);
    let ghost before = tokens@;
    if word.len() > 0 {
        tokens.push((word, Vec::new()));
        assert(tokens@.map_values(|t: (Vec<char>, Vec<char>)| (t.0@, t.1@)) == before.map_values(
            |t: (Vec<char>, Vec<char>)| (t.0@, t.1@),
        ).push((word@, Seq::<char>::empty())));
    }
    let ghost mid = tokens@;
    if spaces.len() > 0 {
        if tokens.len() > 0 {
            let last = tokens.pop().unwrap();
            let mut tail = last.1;
            let ghost t0 = tail@;
            push_vec(&mut tail, spaces.as_slice());
            tokens.push((last.0, tail));
            assert(tokens@.map_values(|t: (Vec<char>, Vec<char>)| (t.0@, t.1@)) == mid.map_values(
                |t: (Vec<char>, Vec<char>)| (t.0@, t.1@),
            ).update(mid.len() - 1, (mid.last().0@, mid.last().1@ + spaces@)));
        } else {
            tokens.push((Vec::new(), spaces));
            assert(tokens@.map_values(|t: (Vec<char>, Vec<char>)| (t.0@, t.1@)) == mid.map_values(
                |t: (Vec<char>, Vec<char>)| (t.0@, t.1@),
            ).push((Seq::<char>::empty(), spaces@)));
        }
    }
    tokens
}

/// Appends `b` to the vector `a`.
fn push_vec(a: &mut Vec<char>, b: &[char])
    ensures
        final(a)@ == old(a)@ + b@,
{
    let ghost start = a@;
    let mut i: usize = 0;
    while i < b.len()
        invariant
            0 <= i <= b.len(),
            a@ == start + b@.take(i as int),
        decreases b.len() - i,
    {
        a.push(b[i]);
        assert(b@.take(i + 1) == b@.take(i as int).push(b@[i as int]));
        i = i + 1;
    }
    assert(b@.take(b.len() as int) == b@);
}

/// Splits `word` into chunks that each fit within `width` cells.
fn hard_chunks(word: &[char], width: usize) -> (r: Vec<Vec<char>>)
    requires
        width_of(word@) <= usize::MAX,
    ensures
        views(r@) == spec_hard_chunks(word@, width as int),
{
    let mut chunks: Vec<Vec<char>> = Vec::new();
    let mut cur: Vec<char> = Vec::new();
    let mut cur_w: usize = 0;
    let mut i: usize = 0;
    while i < word.len()
        invariant
            0 <= i <= word.len(),
            width_of(word@) <= usize::MAX,
            (views(chunks@), cur@) == chunk_fold(word@.take(i as int), width as int),
            cur_w == width_of(cur@),
            width_of(cur@) <= width_of(word@.take(i as int)),
        decreases word.len() - i,
    {
        let c = word[i];
        let w = char_width(c);
        proof {
            assert(word@.take(i + 1).drop_last() == word@.take(i as int));
            assert(word@.take(i + 1) == word@.take(i as int).push(c));
            lemma_width_push(word@.take(i as int), c);
            assert(word@ == word@.take(i + 1) + word@.skip(i + 1));
            lemma_width_concat(word@.take(i + 1), word@.skip(i + 1));
            lemma_width_nonneg(word@.skip(i + 1));
            lemma_width_push(cur@, c);
            lemma_width_nonneg(cur@);
        }
        if cur_w + w > width && cur.len() > 0 {
            let done = cur;
            cur = Vec::new();
            chunks.push(done);
            assert(views(chunks@) == views(chunks@.drop_last()).push(done@));
            cur_w = 0;
            proof {
                lemma_width_push(Seq::<char>::empty(), c);
                assert(Seq::<char>::empty().push(c) == seq![c]);
            }
        }
        cur.push(c);
        cur_w = cur_w + w;
        i = i + 1;
    }
    assert(word@.take(word.len() as int) == word@);
    if cur.len() > 0 {
        chunks.push(cur);
        assert(views(chunks@) == views(chunks@.drop_last()).push(cur@));
    }
    chunks
}

/// Rows plus the row in progress, with its width.
struct Wrapper {
    rows: Vec<Vec<char>>,
    cur: Vec<char>,
    cur_w: usize,
}

impl Wrapper {
    spec fn state(&self) -> WrapState {
        (views(self.rows@), self.cur@)
    }

    spec fn inv(&self) -> bool {
        self.cur_w == width_of(self.cur@)
    }

    fn make_room(&mut self, piece_w: usize, width: usize, Ghost(piece): Ghost<Seq<char>>)
        requires
            old(self).inv(),
            piece_w == width_of(piece),
            width_of(old(self).cur@) + piece_w <= usize::MAX,
        ensures
            final(self).inv(),
            final(self).state() == make_room(old(self).state(), piece, width as int),
    {
        if self.cur_w > 0 && self.cur_w + piece_w > width {
            let mut done: Vec<char> = Vec::new();
            std::mem::swap(&mut done, &mut self.cur);
            let ghost before = self.rows@;
            self.rows.push(done);
            assert(views(self.rows@) == views(before).push(done@));
            self.cur_w = 0;
        }
    }

    fn place_piece(&mut self, piece: &[char], width: usize, Ghost(bound): Ghost<int>)
        requires
            old(self).inv(),
            width >= 1,
            width_of(old(self).cur@) + width_of(piece@) <= bound,
            bound <= usize::MAX,
        ensures
            final(self).inv(),
            final(self).state() == place_piece(old(self).state(), piece@, width as int),
            width_of(final(self).cur@) <= width_of(old(self).cur@) + width_of(piece@),
    {
        proof {
            lemma_width_nonneg(piece@);
            lemma_width_nonneg(self.cur@);
        }
        if piece.len() > 0 {
            let piece_w = width_chars(piece);
            self.make_room(piece_w, width, Ghost(piece@));
            if piece_w > width {
                proof {
                    lemma_width_nonneg(self.cur@);
                }
                let mut chunks = hard_chunks(piece, width);
                proof {
                    lemma_hard_chunks_concat(piece@, width as int);
                }
                let ghost all = views(chunks@);
                let tail = match chunks.pop() {
                    Some(t) => t,
                    None => Vec::new(),
                };
                assert(views(chunks@) == all.drop_last());
                let mut k: usize = 0;
                let ghost rows0 = views(self.rows@);
                while k < chunks.len()
                    invariant
                        0 <= k <= chunks.len(),
                        self.cur@.len() == 0,
                        self.cur_w == 0,
                        views(self.rows@) == rows0 + views(chunks@).take(k as int),
                    decreases chunks.len() - k,
                {
                    let chunk = crate::text::copy_chars(chunks[k].as_slice());
                    let ghost r = self.rows@;
                    self.rows.push(chunk);
                    assert(views(self.rows@) == views(r).push(chunk@));
                    assert(views(chunks@).take(k + 1) == views(chunks@).take(k as int).push(
                        chunks@[k as int]@,
                    ));
                    k = k + 1;
                }
                assert(views(chunks@).take(chunks.len() as int) == views(chunks@));
                proof {
                    assert(all == views(chunks@).push(tail@));
                    lemma_concat_all_push(views(chunks@), tail@);
                    lemma_width_concat(concat_all(views(chunks@)), tail@);
                    lemma_width_nonneg(concat_all(views(chunks@)));
                    assert(self.cur@ + tail@ == tail@);
                }
                let tail_w = width_chars(tail.as_slice());
                push_vec(&mut self.cur, tail.as_slice());
                self.cur_w = tail_w;
            } else {
                proof {
                    lemma_width_concat(self.cur@, piece@);
                }
                push_vec(&mut self.cur, piece);
                self.cur_w = self.cur_w + piece_w;
            }
        }
    }

    fn place(&mut self, word: &[char], spaces: &[char], width: usize, Ghost(bound): Ghost<int>)
        requires
            old(self).inv(),
            width >= 1,
            width_of(old(self).cur@) + width_of(word@) + width_of(spaces@) <= bound,
            bound <= usize::MAX,
        ensures
            final(self).inv(),
            final(self).state() == wrap_token(old(self).state(), word@, spaces@, width as int),
            width_of(final(self).cur@) <= width_of(old(self).cur@) + width_of(word@) + width_of(
                spaces@,
            ),
    {
        proof {
            lemma_width_nonneg(spaces@);
        }
        self.place_piece(word, width, Ghost(bound));
        self.place_piece(spaces, width, Ghost(bound));
    }
}

/// Wraps one hard line: its tokens are placed, then the last row is closed.
fn wrap_one_line(w: &mut Wrapper, line: &[char], width: usize)
    requires
        old(w).inv(),
        old(w).cur@.len() == 0,
        width >= 1,
        width_of(line@) <= usize::MAX,
    ensures
        final(w).inv(),
        final(w).cur@.len() == 0,
        views(final(w).rows@) == wrap_line(views(old(w).rows@), line@, width as int),
{
    let tokens = tokenize(line);
    let ghost toks = spec_tokenize(line@);
    proof {
        lemma_tokenize_concat(line@);
    }
    let ghost rows0 = views(w.rows@);
    let mut k: usize = 0;
    while k < tokens.len()
        invariant
            0 <= k <= tokens.len(),
            width >= 1,
            tokens@.map_values(|t: (Vec<char>, Vec<char>)| (t.0@, t.1@)) == toks,
            concat_tokens(toks) == line@,
            width_of(line@) <= usize::MAX,
            w.inv(),
            w.state() == wrap_tokens((rows0, Seq::empty()), toks.take(k as int), width as int),
            width_of(w.cur@) <= width_of(concat_tokens(toks.take(k as int))),
        decreases tokens.len() - k,
    {
        let ghost t = toks[k as int];
        proof {
            assert(toks.take(k + 1).drop_last() == toks.take(k as int));
            assert(toks.take(k + 1).last() == t);
            lemma_width_concat(concat_tokens(toks.take(k as int)) + t.0, t.1);
            lemma_width_concat(concat_tokens(toks.take(k as int)), t.0);
            lemma_concat_tokens_prefix_width(toks, k + 1);
        }
        w.place(tokens[k].0.as_slice(), tokens[k].1.as_slice(), width, Ghost(usize::MAX as int));
        k = k + 1;
    }
    assert(toks.take(tokens.len() as int) == toks);
    let mut done: Vec<char> = Vec::new();
    std::mem::swap(&mut done, &mut w.cur);
    let ghost before = w.rows@;
    w.rows.push(done);
    assert(views(w.rows@) == views(before).push(done@));
    w.cur_w = 0;
}

proof fn lemma_concat_tokens_prefix_width(toks: Seq<(Seq<char>, Seq<char>)>, k: int)
    requires
        0 <= k <= toks.len(),
    ensures
        width_of(concat_tokens(toks.take(k))) <= width_of(concat_tokens(toks)),
    decreases toks.len() - k,
{
    if k < toks.len() {
        lemma_concat_tokens_prefix_width(toks, k + 1);
        assert(toks.take(k + 1).drop_last() == toks.take(k));
        lemma_width_concat(concat_tokens(toks.take(k)) + toks[k].0, toks[k].1);
        lemma_width_concat(concat_tokens(toks.take(k)), toks[k].0);
        lemma_width_nonneg(toks[k].0);
        lemma_width_nonneg(toks[k].1);
    } else {
        assert(toks.take(k) == toks);
    }
}

proof fn lemma_width_remove_newlines(s: Seq<char>)
    ensures
        width_of(remove_newlines(s)) <= width_of(s),
    decreases s.len(),
{
    if s.len() > 0 {
        lemma_width_remove_newlines(s.drop_last());
        if s.last() != '\n' {
            lemma_width_push(remove_newlines(s.drop_last()), s.last());
        }
    }
}

proof fn lemma_concat_all_ge(rows: Seq<Seq<char>>, i: int)
    requires
        0 <= i < rows.len(),
    ensures
        width_of(rows[i]) <= width_of(concat_all(rows)),
    decreases rows.len(),
{
    lemma_width_concat(concat_all(rows.drop_last()), rows.last());
    lemma_width_nonneg(concat_all(rows.drop_last()));
    lemma_width_nonneg(rows.last());
    if i < rows.len() - 1 {
        lemma_concat_all_ge(rows.drop_last(), i);
    }
}

/// Wraps `text` (which may contain `\n`) into display rows no wider than
/// `width` (at least one cell), as long as each char fits in that width.
///
/// Newlines reset the row; soft wraps do not drop characters, so the rows put
/// back together equal `text` with `\n` removed.
pub fn wrap_rows(text: &str, width: usize) -> (rows: Vec<String>)
    ensures
        rows@.map_values(|r: String| r@) == spec_wrap_rows(text@, width as int),
        concat_all(rows@.map_values(|r: String| r@)) == remove_newlines(text@),
        chars_fit(text@, effective_width(width as int)) ==> rows_fit(
            rows@.map_values(|r: String| r@),
            effective_width(width as int),
        ),
        rows@.len() >= split_newlines(text@).len(),
        rows@.len() >= 1,
{
    proof {
        lemma_wrap_rows_count(text@, width as int);
        lemma_wrap_rows_keeps_text(text@, width as int);
        if chars_fit(text@, effective_width(width as int)) {
            lemma_wrap_rows_fit(text@, width as int);
        }
    }
    let width = if width < 1 {
        1
    } else {
        width
    };
    let chars = chars_of(text);
    proof {
        lemma_width_le_bytes(text@);
    }
    let bytes = text.as_bytes().len();
    let lines = split_newlines_exec(chars.as_slice());
    let mut w = Wrapper { rows: Vec::new(), cur: Vec::new(), cur_w: 0 };
    let mut li: usize = 0;
    proof {
        lemma_split_nl_concat(text@);
        lemma_concat_all_push(split_nl(text@).0, split_nl(text@).1);
        lemma_width_remove_newlines(text@);
    }
    while li < lines.len()
        invariant
            0 <= li <= lines.len(),
            width >= 1,
            views(lines@) == split_newlines(text@),
            concat_all(views(lines@)) == remove_newlines(text@),
            views(w.rows@) == wrap_lines(views(lines@).take(li as int), width as int),
            w.cur@.len() == 0,
            w.cur_w == 0,
            bytes >= width_of(text@),
            width_of(remove_newlines(text@)) <= width_of(text@),
        decreases lines.len() - li,
    {
        proof {
            lemma_concat_all_ge(views(lines@), li as int);
        }
        wrap_one_line(&mut w, lines[li].as_slice(), width);
        assert(views(lines@).take(li + 1).drop_last() == views(lines@).take(li as int));
        li = li + 1;
    }
    assert(views(lines@).take(lines.len() as int) == views(lines@));
    let mut out: Vec<String> = Vec::new();
    let mut k: usize = 0;
    while k < w.rows.len()
        invariant
            0 <= k <= w.rows.len(),
            out@.map_values(|r: String| r@) == views(w.rows@).take(k as int),
        decreases w.rows.len() - k,
    {
        let s = string_of(w.rows[k].as_slice());
        let ghost o = out@;
        out.push(s);
        assert(out@.map_values(|r: String| r@) == o.map_values(|r: String| r@).push(s@));
        assert(views(w.rows@).take(k + 1) == views(w.rows@).take(k as int).push(w.rows@[k as int]@));
        k = k + 1;
    }
    assert(views(w.rows@).take(w.rows.len() as int) == views(w.rows@));
    if out.len() == 0 {
        out.push(String::new());
        assert(out@.map_values(|r: String| r@) == seq![Seq::<char>::empty()]);
    }
    out
}

} // verus!

//! Parsing and formatting for SPAI notes markdown and YAML frontmatter.
use crate::spai_notes::note::{SpaiFacets, SpaiNoteItem, SpaiStatus, SpaiType};
use crate::spai_notes::text_cursor::{char_utf8_width, lemma_encode_push, utf8_width};
use crate::text::{
    chars_of, concat_chars, ends_in_cr, find, find_char, find_char_exec, find_chars, free_of,
    is_white_space, is_ws, lemma_leading_ws, lemma_lines_free, lemma_lines_join,
    lemma_trim_start_after_ws, leading_ws,
    is_upper, lemma_starts_with_chars, join, join_exec, join_strings, lines, lines_exec, lower_char, push_chars, slice_chars,
    starts_with, starts_with_chars, string_of, string_views, to_ascii_lower, trim, trim_char,
    trim_char_exec, trim_chars, trim_end_char, trim_end_char_exec, trim_start,
    trim_start_char, trim_start_char_exec, trim_start_chars, char_alphanumeric, upper_chars,
    upper_seq, views,
};
use vstd::prelude::*;
use vstd::utf8::encode_utf8;

verus! {

// ---------------------------------------------------------------------------
// slugify
// ---------------------------------------------------------------------------

/// One char of the slug fold: alphanumerics are kept (ASCII-lowercased),
/// a space, `_` or `-` becomes a single dash between words.
pub open spec fn slug_step(st: (Seq<char>, bool), c: char) -> (Seq<char>, bool) {
    let (slug, prev_dash) = st;
    if char_alphanumeric(c) {
        (slug.push(lower_char(c)), false)
    } else if (c == ' ' || c == '_' || c == '-') && !prev_dash && slug.len() > 0 {
        (slug.push('-'), true)
    } else {
        st
    }
}

pub open spec fn slug_fold(text: Seq<char>) -> (Seq<char>, bool)
    decreases text.len(),
{
    if text.len() == 0 {
        (Seq::empty(), false)
    } else {
        slug_step(slug_fold(text.drop_last()), text.last())
    }
}

/// The slug before it is cut to length.
pub open spec fn slug_uncut(text: Seq<char>) -> Seq<char> {
    trim_end_char(slug_fold(text).0, '-')
}

/// Bytes of the UTF-8 encoding of the first `k` chars.
pub open spec fn prefix_bytes(s: Seq<char>, k: int) -> int {
    encode_utf8(s.take(k)).len() as int
}

/// `k` chars of the slug `t` take at most 50 bytes and one more char would
/// not: the slug is cut after its `k`-th char.
pub open spec fn slug_cut_at(t: Seq<char>, k: int) -> bool {
    0 <= k < t.len() && prefix_bytes(t, k) <= 50 < prefix_bytes(t, k + 1)
}

/// Safe file slug of a title: the slug cut to its longest prefix of at most
/// 50 bytes, with no dash at the end.
pub open spec fn spec_slugify(text: Seq<char>) -> Seq<char> {
    let t = slug_uncut(text);
    if encode_utf8(t).len() > 50 {
        let k = choose|k: int| slug_cut_at(t, k);
        trim_end_char(t.take(k), '-')
    } else {
        t
    }
}

proof fn lemma_prefix_bytes_strict(s: Seq<char>, i: int, j: int)
    requires
        0 <= i < j <= s.len(),
    ensures
        prefix_bytes(s, i) < prefix_bytes(s, j),
    decreases j - i,
{
    lemma_encode_push(s, j - 1);
    if i < j - 1 {
        lemma_prefix_bytes_strict(s, i, j - 1);
    }
}

/// The slug of `text` before it is cut to length.
fn slug_uncut_chars(text: &str) -> (t: Vec<char>)
    ensures
        t@ == slug_uncut(text@),
{
    let v = chars_of(text);
    let mut slug: Vec<char> = Vec::new();
    let mut prev_dash = false;
    let mut i: usize = 0;
    while i < v.len()
        invariant
            0 <= i <= v.len(),
            v@ == text@,
            (slug@, prev_dash) == slug_fold(v@.take(i as int)),
        decreases v.len() - i,
    {
        let c = v[i];
        assert(v@.take(i + 1).drop_last() == v@.take(i as int));
        if c.is_alphanumeric() {
            slug.push(to_ascii_lower(c));
            prev_dash = false;
        } else if (c == ' ' || c == '_' || c == '-') && !prev_dash && slug.len() > 0 {
            slug.push('-');
            prev_dash = true;
        }
        i = i + 1;
    }
    assert(v@.take(v.len() as int) == v@);
    trim_end_char_exec(slug.as_slice(), '-')
}

/// A slug's shape: every char a dash or an alphanumeric char that is not an
/// ASCII capital, no dash first or last, and never two dashes in a row.
pub open spec fn slug_shaped(r: Seq<char>) -> bool {
    &&& forall|i: int| 0 <= i < r.len() ==> (#[trigger] r[i]) == '-' || (char_alphanumeric(r[i]) && !is_upper(r[i]))
    &&& (r.len() > 0 ==> r[0] != '-' && r[r.len() - 1] != '-')
    &&& forall|i: int| 0 <= i < r.len() - 1 ==> !((#[trigger] r[i]) == '-' && r[i + 1] == '-')
}

/// What the slug fold keeps while it runs: the shape of a slug except that
/// it may end in a dash, which is what the flag records.
spec fn slug_fold_shaped(sl: Seq<char>, dash: bool) -> bool {
    &&& forall|i: int| 0 <= i < sl.len() ==> (#[trigger] sl[i]) == '-' || (char_alphanumeric(sl[i]) && !is_upper(sl[i]))
    &&& (sl.len() > 0 ==> sl[0] != '-')
    &&& forall|i: int| 0 <= i < sl.len() - 1 ==> !((#[trigger] sl[i]) == '-' && sl[i + 1] == '-')
    &&& dash == (sl.len() > 0 && sl[sl.len() - 1] == '-')
}

proof fn lemma_lower_keeps_alnum(c: char)
    requires
        char_alphanumeric(c),
    ensures
        char_alphanumeric(lower_char(c)),
        !is_upper(lower_char(c)),
        lower_char(c) != '-',
{
    if is_upper(c) {
        let l = lower_char(c);
        assert(l == ((c as u32) + 32) as char);
        assert('a' <= l && l <= 'z');
    }
}

proof fn lemma_slug_fold_shaped(text: Seq<char>)
    ensures
        slug_fold_shaped(slug_fold(text).0, slug_fold(text).1),
    decreases text.len(),
{
    if text.len() > 0 {
        lemma_slug_fold_shaped(text.drop_last());
        let (sl, dash) = slug_fold(text.drop_last());
        let c = text.last();
        if char_alphanumeric(c) {
            lemma_lower_keeps_alnum(c);
            let n = sl.push(lower_char(c));
            assert forall|i: int| 0 <= i < n.len() - 1 implies !((#[trigger] n[i]) == '-' && n[i + 1] == '-') by {
                if i < sl.len() - 1 {
                    assert(n[i] == sl[i] && n[i + 1] == sl[i + 1]);
                }
            }
            assert forall|i: int| 0 <= i < n.len() implies (#[trigger] n[i]) == '-' || (char_alphanumeric(n[i]) && !is_upper(n[i])) by {
                if i < sl.len() {
                    assert(n[i] == sl[i]);
                }
            }
        } else if (c == ' ' || c == '_' || c == '-') && !dash && sl.len() > 0 {
            let n = sl.push('-');
            assert(!char_alphanumeric('-'));
            assert forall|i: int| 0 <= i < n.len() - 1 implies !((#[trigger] n[i]) == '-' && n[i + 1] == '-') by {
                if i < sl.len() - 1 {
                    assert(n[i] == sl[i] && n[i + 1] == sl[i + 1]);
                } else {
                    assert(n[i] == sl[sl.len() - 1]);
                }
            }
            assert forall|i: int| 0 <= i < n.len() implies (#[trigger] n[i]) == '-' || (char_alphanumeric(n[i]) && !is_upper(n[i])) by {
                if i < sl.len() {
                    assert(n[i] == sl[i]);
                }
            }
        }
    }
}

/// Trailing dashes removed: a prefix that does not end in a dash.
proof fn lemma_trim_end_dash(s: Seq<char>)
    ensures
        exists|m: int|
            0 <= m <= s.len() && trim_end_char(s, '-') == s.take(m) && (m == 0 || s[m - 1] != '-'),
    decreases s.len(),
{
    if s.len() > 0 && s.last() == '-' {
        lemma_trim_end_dash(s.drop_last());
        let m = choose|m: int|
            0 <= m <= s.drop_last().len() && trim_end_char(s.drop_last(), '-') == s.drop_last().take(m)
                && (m == 0 || s.drop_last()[m - 1] != '-');
        assert(s.drop_last().take(m) == s.take(m));
        if m > 0 {
            assert(s.drop_last()[m - 1] == s[m - 1]);
        }
    } else {
        assert(s.take(s.len() as int) == s);
        if s.len() > 0 {
            assert(s[s.len() - 1] == s.last());
        }
    }
}

/// A prefix of a running slug, cut after a char that is no dash, is a slug.
proof fn lemma_shaped_prefix(sl: Seq<char>, dash: bool, m: int)
    requires
        slug_fold_shaped(sl, dash),
        0 <= m <= sl.len(),
        m == 0 || sl[m - 1] != '-',
    ensures
        slug_shaped(sl.take(m)),
{
    let p = sl.take(m);
    assert forall|i: int| 0 <= i < p.len() implies (#[trigger] p[i]) == '-' || (char_alphanumeric(p[i]) && !is_upper(p[i])) by {
        assert(p[i] == sl[i]);
    }
    assert forall|i: int| 0 <= i < p.len() - 1 implies !((#[trigger] p[i]) == '-' && p[i + 1] == '-') by {
        assert(p[i] == sl[i] && p[i + 1] == sl[i + 1]);
    }
    if m > 0 {
        assert(p[0] == sl[0]);
        assert(p[m - 1] == sl[m - 1]);
    }
}

proof fn lemma_cut_exists(t: Seq<char>, j: int)
    requires
        0 <= j <= t.len(),
        prefix_bytes(t, j) <= 50,
        encode_utf8(t).len() > 50,
    ensures
        exists|k: int| slug_cut_at(t, k),
    decreases t.len() - j,
{
    if j == t.len() {
        assert(t.take(j) == t);
    } else if prefix_bytes(t, j + 1) > 50 {
        assert(slug_cut_at(t, j));
    } else {
        lemma_cut_exists(t, j + 1);
    }
}

/// A slug keeps to its shape, takes at most 50 bytes, and is its own slug.
pub proof fn lemma_slug_laws(text: Seq<char>)
    ensures
        slug_shaped(spec_slugify(text)),
        encode_utf8(spec_slugify(text)).len() <= 50,
        spec_slugify(spec_slugify(text)) == spec_slugify(text),
{
    let (sl, dash) = slug_fold(text);
    lemma_slug_fold_shaped(text);
    lemma_trim_end_dash(sl);
    let m = choose|m: int|
        0 <= m <= sl.len() && trim_end_char(sl, '-') == sl.take(m) && (m == 0 || sl[m - 1] != '-');
    let t = slug_uncut(text);
    assert(t == sl.take(m));
    lemma_shaped_prefix(sl, dash, m);
    let r = spec_slugify(text);
    if encode_utf8(t).len() > 50 {
        assert(t.take(0) == Seq::<char>::empty());
        lemma_cut_exists(t, 0);
        let k = choose|k: int| slug_cut_at(t, k);
        let c = t.take(k);
        lemma_trim_end_dash(c);
        let m2 = choose|m2: int|
            0 <= m2 <= c.len() && trim_end_char(c, '-') == c.take(m2) && (m2 == 0 || c[m2 - 1] != '-');
        assert(r == c.take(m2));
        assert(c.take(m2) == sl.take(m2));
        if m2 > 0 {
            assert(c[m2 - 1] == sl[m2 - 1]);
        }
        lemma_shaped_prefix(sl, dash, m2);
        crate::spai_notes::text_cursor::lemma_encode_prefix_le(c, m2);
    }
    lemma_slug_idempotent(r);
}

/// A text already shaped like a slug, of at most 50 bytes, is its own slug.
proof fn lemma_slug_idempotent(r: Seq<char>)
    requires
        slug_shaped(r),
        encode_utf8(r).len() <= 50,
    ensures
        spec_slugify(r) == r,
{
    lemma_slug_fold_prefixes(r, r.len() as int);
    assert(r.take(r.len() as int) == r);
    if r.len() > 0 {
        assert(r.last() == r[r.len() - 1]);
    }
}

proof fn lemma_slug_fold_prefixes(r: Seq<char>, i: int)
    requires
        slug_shaped(r),
        0 <= i <= r.len(),
    ensures
        slug_fold(r.take(i)) == (r.take(i), i > 0 && r[i - 1] == '-'),
    decreases i,
{
    if i > 0 {
        lemma_slug_fold_prefixes(r, i - 1);
        assert(r.take(i).drop_last() == r.take(i - 1));
        assert(r.take(i).last() == r[i - 1]);
        let c = r[i - 1];
        if c == '-' {
            assert(!char_alphanumeric('-'));
            assert(i - 1 > 0);
            assert(!(r[i - 2] == '-' && r[i - 1] == '-'));
        } else {
            assert(char_alphanumeric(c) && !is_upper(c));
        }
        assert(r.take(i - 1).push(c) == r.take(i));
    } else {
        assert(r.take(0) == Seq::<char>::empty());
    }
}

/// Creates a safe URL/file slug from title: at most 50 bytes, cut between
/// two chars.
pub fn slugify(text: &str) -> (r: String)
    ensures
        r@ == spec_slugify(text@),
        slug_shaped(r@),
        encode_utf8(r@).len() <= 50,
{
    proof {
        lemma_slug_laws(text@);
    }
    let t = slug_uncut_chars(text);
    let mut off: usize = 0;
    let mut j: usize = 0;
    while j < t.len() && off + char_utf8_width(t[j]) <= 50
        invariant
            0 <= j <= t.len(),
            off == prefix_bytes(t@, j as int),
            off <= 50,
        decreases t.len() - j,
    {
        proof {
            lemma_encode_push(t@, j as int);
        }
        off = off + char_utf8_width(t[j]);
        j = j + 1;
    }
    if j < t.len() {
        proof {
            let ts = t@;
            let jj = j as int;
            lemma_encode_push(ts, jj);
            crate::spai_notes::text_cursor::lemma_encode_prefix_le(ts, jj + 1);
            assert(ts.take(ts.len() as int) == ts);
            assert(slug_cut_at(ts, jj));
            assert forall|k: int| slug_cut_at(ts, k) implies k == jj by {
                if k < jj {
                    if k + 1 < jj {
                        lemma_prefix_bytes_strict(ts, k + 1, jj);
                    }
                } else if k > jj {
                    if jj + 1 < k {
                        lemma_prefix_bytes_strict(ts, jj + 1, k);
                    }
                }
            }
        }
        let cut = slice_chars(t.as_slice(), 0, j);
        assert(cut@ == t@.take(j as int));
        let r = trim_end_char_exec(cut.as_slice(), '-');
        string_of(r.as_slice())
    } else {
        assert(t@.take(t.len() as int) == t@);
        string_of(t.as_slice())
    }
}

// ---------------------------------------------------------------------------
// update_body_status_prefix
// ---------------------------------------------------------------------------

/// Prefix (with its trailing space) that marks a status in a note body.
pub open spec fn status_prefix(status: SpaiStatus) -> Seq<char> {
    match status {
        SpaiStatus::Working => "/ "@,
        SpaiStatus::Waiting => "/. "@,
        SpaiStatus::Done => "x "@,
        SpaiStatus::Cancelled => "z "@,
        SpaiStatus::Idea => "? "@,
        SpaiStatus::Note => "- "@,
        SpaiStatus::Inbox => "- "@,
        SpaiStatus::Todo => ". "@,
    }
}

/// Prefixes recognised on a body line, in the order they are tried.
pub open spec fn known_prefixes() -> Seq<Seq<char>> {
    seq!["/. "@, "/· "@, "!- "@, ". "@, "/ "@, "x "@, "X "@, "z "@, "Z "@, "? "@, "- "@]
}

/// Length of the first known prefix that `t` starts with, 0 for none.
pub open spec fn first_prefix_len(t: Seq<char>, ps: Seq<Seq<char>>) -> int
    decreases ps.len(),
{
    if ps.len() == 0 {
        0
    } else if starts_with(t, ps[0]) {
        ps[0].len() as int
    } else {
        first_prefix_len(t, ps.drop_first())
    }
}

/// `t` without the first known SPAI prefix it starts with.
pub open spec fn strip_known_prefix(t: Seq<char>) -> Seq<char> {
    t.skip(first_prefix_len(t, known_prefixes()))
}

/// A body line with its status prefix replaced (or added) after the indent.
pub open spec fn retag_line(line: Seq<char>, prefix: Seq<char>) -> Seq<char> {
    let t = trim_start(line);
    line.take(line.len() - t.len()) + prefix + strip_known_prefix(t)
}

/// Index of the first line that is not blank.
pub open spec fn first_nonblank(ls: Seq<Seq<char>>) -> Option<int> {
    if exists|i: int| 0 <= i < ls.len() && trim_start(ls[i]).len() > 0 {
        Some(
            choose|i: int|
                0 <= i < ls.len() && trim_start(ls[i]).len() > 0 && forall|j: int|
                    0 <= j < i ==> trim_start(ls[j]).len() == 0,
        )
    } else {
        None
    }
}

/// The body with the SPAI prefix of its first non-blank line set to the one
/// of `status`; a body with no such line becomes that prefix and the trimmed
/// body on one line.
pub open spec fn spec_update_body(body: Seq<char>, status: SpaiStatus) -> Seq<char> {
    let ls = lines(body);
    let p = status_prefix(status);
    match first_nonblank(ls) {
        Some(i) => join(ls.update(i, retag_line(ls[i], p)), "\n"@),
        None => p + trim(body) + "\n"@,
    }
}

fn status_prefix_exec(status: SpaiStatus) -> (r: Vec<char>)
    ensures
        r@ == status_prefix(status),
{
    match status {
        SpaiStatus::Working => chars_of("/ "),
        SpaiStatus::Waiting => chars_of("/. "),
        SpaiStatus::Done => chars_of("x "),
        SpaiStatus::Cancelled => chars_of("z "),
        SpaiStatus::Idea => chars_of("? "),
        SpaiStatus::Note | SpaiStatus::Inbox => chars_of("- "),
        SpaiStatus::Todo => chars_of(". "),
    }
}

fn known_prefixes_exec() -> (r: Vec<Vec<char>>)
    ensures
        views(r@) == known_prefixes(),
{
    let r = vec![
        chars_of("/. "),
        chars_of("/· "),
        chars_of("!- "),
        chars_of(". "),
        chars_of("/ "),
        chars_of("x "),
        chars_of("X "),
        chars_of("z "),
        chars_of("Z "),
        chars_of("? "),
        chars_of("- "),
    ];
    assert(views(r@) =~= known_prefixes());
    r
}

/// Char length of the first known prefix of `t` (0 for none).
pub fn known_prefix_len(t: &[char]) -> (n: usize)
    ensures
        n == first_prefix_len(t@, known_prefixes()),
        n <= t@.len(),
{
    let ps = known_prefixes_exec();
    let mut k: usize = 0;
    assert(known_prefixes().skip(0) == known_prefixes());
    while k < ps.len()
        invariant
            0 <= k <= ps.len(),
            views(ps@) == known_prefixes(),
            first_prefix_len(t@, known_prefixes()) == first_prefix_len(t@, known_prefixes().skip(
                k as int,
            )),
        decreases ps.len() - k,
    {
        assert(known_prefixes().skip(k as int)[0] == ps@[k as int]@);
        assert(known_prefixes().skip(k as int).drop_first() == known_prefixes().skip(k + 1));
        if starts_with_chars(t, ps[k].as_slice()) {
            return ps[k].len();
        }
        k = k + 1;
    }
    0
}

/// Updates the leading SPAI prefix on the first non-empty line of the markdown body (compatible with pi-spai).
pub fn update_body_status_prefix(body: &str, status: SpaiStatus) -> (r: String)
    ensures
        r@ == spec_update_body(body@, status),
{
    let new_prefix = status_prefix_exec(status);
    let chars = chars_of(body);
    let mut ls = lines_exec(chars.as_slice());
    let ghost orig = views(ls@);
    let mut i: usize = 0;
    while i < ls.len()
        invariant
            0 <= i <= ls.len(),
            views(ls@) == orig,
            orig == lines(body@),
            new_prefix@ == status_prefix(status),
            chars@ == body@,
            forall|j: int| 0 <= j < i ==> trim_start(orig[j]).len() == 0,
        decreases ls.len() - i,
    {
        let trimmed = trim_start_chars(ls[i].as_slice());
        if trimmed.len() > 0 {
            proof {
                crate::text::lemma_leading_ws(orig[i as int]);
            }
            let line_len = ls[i].len();
            let indent = slice_chars(ls[i].as_slice(), 0, line_len - trimmed.len());
            let plen = known_prefix_len(trimmed.as_slice());
            proof {
                lemma_first_prefix_len_bound(trimmed@, known_prefixes());
            }
            let rest = slice_chars(trimmed.as_slice(), plen, trimmed.len());
            let a = concat_chars(indent.as_slice(), new_prefix.as_slice());
            let new_line = concat_chars(a.as_slice(), rest.as_slice());
            assert(ls@[i as int]@ == orig[i as int]);
            assert(trimmed@ == trim_start(orig[i as int]));
            assert(indent@ == orig[i as int].take(orig[i as int].len() - trimmed@.len()));
            assert(rest@ == strip_known_prefix(trimmed@));
            assert(a@ == indent@ + status_prefix(status));
            assert(new_line@ == indent@ + status_prefix(status) + rest@);
            assert(retag_line(orig[i as int], status_prefix(status)) == orig[i as int].take(
                orig[i as int].len() - trim_start(orig[i as int]).len(),
            ) + status_prefix(status) + strip_known_prefix(trim_start(orig[i as int])));
            assert(new_line@ =~= retag_line(orig[i as int], status_prefix(status)));
            ls.set(i, new_line);
            assert(views(ls@) =~= orig.update(i as int, retag_line(orig[i as int], status_prefix(status))));
            proof {
                assert(first_nonblank(orig) == Some(i as int)) by {
                    let k = choose|k: int|
                        0 <= k < orig.len() && trim_start(orig[k]).len() > 0 && forall|j: int|
                            0 <= j < k ==> trim_start(orig[j]).len() == 0;
                    assert(k == i);
                }
            }
            let joined = join_exec(&ls, chars_of("\n").as_slice());
            return string_of(joined.as_slice());
        }
        i = i + 1;
    }
    assert(first_nonblank(orig) is None);
    let t = trim_chars(chars.as_slice());
    let a = concat_chars(new_prefix.as_slice(), t.as_slice());
    let b = concat_chars(a.as_slice(), chars_of("\n").as_slice());
    string_of(b.as_slice())
}

proof fn lemma_prefix_step(t: Seq<char>, ps: Seq<Seq<char>>, i: int)
    requires
        0 <= i < ps.len(),
    ensures
        first_prefix_len(t, ps.skip(i)) == if starts_with(t, ps[i]) {
            ps[i].len() as int
        } else {
            first_prefix_len(t, ps.skip(i + 1))
        },
{
    assert(ps.skip(i)[0] == ps[i]);
    assert(ps.skip(i).drop_first() == ps.skip(i + 1));
}

/// A line that starts with the prefix of a status is recognised as carrying
/// exactly that prefix.
proof fn lemma_status_prefix_known(status: SpaiStatus, x: Seq<char>)
    ensures
        strip_known_prefix(status_prefix(status) + x) == x,
{
    reveal_strlit("/. ");
    reveal_strlit("/· ");
    reveal_strlit("!- ");
    reveal_strlit(". ");
    reveal_strlit("/ ");
    reveal_strlit("x ");
    reveal_strlit("X ");
    reveal_strlit("z ");
    reveal_strlit("Z ");
    reveal_strlit("? ");
    reveal_strlit("- ");
    let p = status_prefix(status);
    let t = p + x;
    let ps = known_prefixes();
    assert(ps.skip(0) == ps);
    assert(t[0] == p[0]);
    assert(t[1] == p[1]);
    assert(p.len() == 3 ==> t[2] == p[2]);
    match status {
        SpaiStatus::Working => {
            lemma_prefix_step(t, ps, 0);
            lemma_starts_with_chars(t, ps[0]);
            lemma_prefix_step(t, ps, 1);
            lemma_starts_with_chars(t, ps[1]);
            lemma_prefix_step(t, ps, 2);
            lemma_starts_with_chars(t, ps[2]);
            lemma_prefix_step(t, ps, 3);
            lemma_starts_with_chars(t, ps[3]);
            lemma_prefix_step(t, ps, 4);
            assert(t.take(2) =~= p);
        },
        SpaiStatus::Waiting => {
            lemma_prefix_step(t, ps, 0);
            assert(t.take(3) =~= p);
        },
        SpaiStatus::Done => {
            lemma_prefix_step(t, ps, 0);
            lemma_starts_with_chars(t, ps[0]);
            lemma_prefix_step(t, ps, 1);
            lemma_starts_with_chars(t, ps[1]);
            lemma_prefix_step(t, ps, 2);
            lemma_starts_with_chars(t, ps[2]);
            lemma_prefix_step(t, ps, 3);
            lemma_starts_with_chars(t, ps[3]);
            lemma_prefix_step(t, ps, 4);
            lemma_starts_with_chars(t, ps[4]);
            lemma_prefix_step(t, ps, 5);
            assert(t.take(2) =~= p);
        },
        SpaiStatus::Cancelled => {
            lemma_prefix_step(t, ps, 0);
            lemma_starts_with_chars(t, ps[0]);
            lemma_prefix_step(t, ps, 1);
            lemma_starts_with_chars(t, ps[1]);
            lemma_prefix_step(t, ps, 2);
            lemma_starts_with_chars(t, ps[2]);
            lemma_prefix_step(t, ps, 3);
            lemma_starts_with_chars(t, ps[3]);
            lemma_prefix_step(t, ps, 4);
            lemma_starts_with_chars(t, ps[4]);
            lemma_prefix_step(t, ps, 5);
            lemma_starts_with_chars(t, ps[5]);
            lemma_prefix_step(t, ps, 6);
            lemma_starts_with_chars(t, ps[6]);
            lemma_prefix_step(t, ps, 7);
            assert(t.take(2) =~= p);
        },
        SpaiStatus::Idea => {
            lemma_prefix_step(t, ps, 0);
            lemma_starts_with_chars(t, ps[0]);
            lemma_prefix_step(t, ps, 1);
            lemma_starts_with_chars(t, ps[1]);
            lemma_prefix_step(t, ps, 2);
            lemma_starts_with_chars(t, ps[2]);
            lemma_prefix_step(t, ps, 3);
            lemma_starts_with_chars(t, ps[3]);
            lemma_prefix_step(t, ps, 4);
            lemma_starts_with_chars(t, ps[4]);
            lemma_prefix_step(t, ps, 5);
            lemma_starts_with_chars(t, ps[5]);
            lemma_prefix_step(t, ps, 6);
            lemma_starts_with_chars(t, ps[6]);
            lemma_prefix_step(t, ps, 7);
            lemma_starts_with_chars(t, ps[7]);
            lemma_prefix_step(t, ps, 8);
            lemma_starts_with_chars(t, ps[8]);
            lemma_prefix_step(t, ps, 9);
            assert(t.take(2) =~= p);
        },
        SpaiStatus::Note => {
            lemma_prefix_step(t, ps, 0);
            lemma_starts_with_chars(t, ps[0]);
            lemma_prefix_step(t, ps, 1);
            lemma_starts_with_chars(t, ps[1]);
            lemma_prefix_step(t, ps, 2);
            lemma_starts_with_chars(t, ps[2]);
            lemma_prefix_step(t, ps, 3);
            lemma_starts_with_chars(t, ps[3]);
            lemma_prefix_step(t, ps, 4);
            lemma_starts_with_chars(t, ps[4]);
            lemma_prefix_step(t, ps, 5);
            lemma_starts_with_chars(t, ps[5]);
            lemma_prefix_step(t, ps, 6);
            lemma_starts_with_chars(t, ps[6]);
            lemma_prefix_step(t, ps, 7);
            lemma_starts_with_chars(t, ps[7]);
            lemma_prefix_step(t, ps, 8);
            lemma_starts_with_chars(t, ps[8]);
            lemma_prefix_step(t, ps, 9);
            lemma_starts_with_chars(t, ps[9]);
            lemma_prefix_step(t, ps, 10);
            assert(t.take(2) =~= p);
        },
        SpaiStatus::Inbox => {
            lemma_prefix_step(t, ps, 0);
            lemma_starts_with_chars(t, ps[0]);
            lemma_prefix_step(t, ps, 1);
            lemma_starts_with_chars(t, ps[1]);
            lemma_prefix_step(t, ps, 2);
            lemma_starts_with_chars(t, ps[2]);
            lemma_prefix_step(t, ps, 3);
            lemma_starts_with_chars(t, ps[3]);
            lemma_prefix_step(t, ps, 4);
            lemma_starts_with_chars(t, ps[4]);
            lemma_prefix_step(t, ps, 5);
            lemma_starts_with_chars(t, ps[5]);
            lemma_prefix_step(t, ps, 6);
            lemma_starts_with_chars(t, ps[6]);
            lemma_prefix_step(t, ps, 7);
            lemma_starts_with_chars(t, ps[7]);
            lemma_prefix_step(t, ps, 8);
            lemma_starts_with_chars(t, ps[8]);
            lemma_prefix_step(t, ps, 9);
            lemma_starts_with_chars(t, ps[9]);
            lemma_prefix_step(t, ps, 10);
            assert(t.take(2) =~= p);
        },
        SpaiStatus::Todo => {
            lemma_prefix_step(t, ps, 0);
            lemma_starts_with_chars(t, ps[0]);
            lemma_prefix_step(t, ps, 1);
            lemma_starts_with_chars(t, ps[1]);
            lemma_prefix_step(t, ps, 2);
            lemma_starts_with_chars(t, ps[2]);
            lemma_prefix_step(t, ps, 3);
            assert(t.take(2) =~= p);
        },
    }
    assert(t.skip(p.len() as int) =~= x);
}

proof fn lemma_first_prefix_len_bound(t: Seq<char>, ps: Seq<Seq<char>>)
    ensures
        0 <= first_prefix_len(t, ps) <= t.len(),
    decreases ps.len(),
{
    if ps.len() > 0 && !starts_with(t, ps[0]) {
        lemma_first_prefix_len_bound(t, ps.drop_first());
    }
}

proof fn lemma_status_prefix_shape(status: SpaiStatus)
    ensures
        2 <= status_prefix(status).len() <= 3,
        !is_ws(status_prefix(status)[0]),
        free_of(status_prefix(status), '\n'),
        status_prefix(status).last() == ' ',
{
    reveal_strlit("/ ");
    reveal_strlit("/. ");
    reveal_strlit("x ");
    reveal_strlit("z ");
    reveal_strlit("? ");
    reveal_strlit("- ");
    reveal_strlit(". ");
}

/// Retagging a non-blank line twice is retagging it once with the second
/// prefix; the retagged line stays non-blank and gains no `\n`, and it ends
/// in `\r` only when the line did.
proof fn lemma_retag_twice(l: Seq<char>, s1: SpaiStatus, s2: SpaiStatus)
    requires
        trim_start(l).len() > 0,
        free_of(l, '\n'),
    ensures
        retag_line(retag_line(l, status_prefix(s1)), status_prefix(s2)) == retag_line(
            l,
            status_prefix(s2),
        ),
        trim_start(retag_line(l, status_prefix(s1))).len() > 0,
        free_of(retag_line(l, status_prefix(s1)), '\n'),
        ends_in_cr(retag_line(l, status_prefix(s1))) ==> ends_in_cr(l),
{
    let p1 = status_prefix(s1);
    let t = trim_start(l);
    lemma_leading_ws(l);
    let n = leading_ws(l);
    let ind = l.take(l.len() - t.len());
    assert(ind == l.take(n));
    lemma_first_prefix_len_bound(t, known_prefixes());
    let f = first_prefix_len(t, known_prefixes());
    let rest = strip_known_prefix(t);
    assert(rest == l.skip(n + f));
    lemma_status_prefix_shape(s1);
    let b = p1 + rest;
    let r1 = retag_line(l, p1);
    assert(r1 == ind + b);
    assert forall|i: int| 0 <= i < ind.len() implies is_ws(#[trigger] ind[i]) by {
        assert(ind[i] == l[i]);
    }
    assert(b[0] == p1[0]);
    lemma_trim_start_after_ws(ind, b);
    assert(trim_start(r1) == b);
    assert(r1.take(r1.len() - b.len()) =~= ind);
    lemma_status_prefix_known(s1, rest);
    assert(free_of(r1, '\n')) by {
        assert forall|i: int| 0 <= i < r1.len() implies r1[i] != '\n' by {
            if i < ind.len() {
                assert(r1[i] == l[i]);
            } else if i < ind.len() + p1.len() {
                assert(r1[i] == p1[i - ind.len()]);
            } else {
                assert(r1[i] == l[n + f + (i - ind.len() - p1.len())]);
            }
        }
    }
    if rest.len() > 0 {
        assert(r1.last() == l.last());
    } else {
        assert(r1.last() == p1.last());
    }
}

proof fn lemma_min_nonblank_from(ls: Seq<Seq<char>>, k: int)
    requires
        0 <= k < ls.len(),
        trim_start(ls[k]).len() > 0,
    ensures
        exists|i: int|
            0 <= i < ls.len() && trim_start(ls[i]).len() > 0 && forall|j: int|
                0 <= j < i ==> trim_start(ls[j]).len() == 0,
    decreases k,
{
    if exists|j: int| 0 <= j < k && trim_start(ls[j]).len() > 0 {
        let j = choose|j: int| 0 <= j < k && trim_start(ls[j]).len() > 0;
        lemma_min_nonblank_from(ls, j);
    } else {
        assert(0 <= k < ls.len() && trim_start(ls[k]).len() > 0 && forall|j: int|
            0 <= j < k ==> trim_start(ls[j]).len() == 0);
    }
}

/// The first non-blank line, when there is one, is non-blank and every line
/// before it is blank.
proof fn lemma_first_nonblank(ls: Seq<Seq<char>>)
    requires
        first_nonblank(ls) is Some,
    ensures
        ({
            let i = first_nonblank(ls).unwrap();
            0 <= i < ls.len() && trim_start(ls[i]).len() > 0 && forall|j: int|
                0 <= j < i ==> trim_start(ls[j]).len() == 0
        }),
{
    let k = choose|k: int| 0 <= k < ls.len() && trim_start(ls[k]).len() > 0;
    lemma_min_nonblank_from(ls, k);
}

/// Setting the status prefix of a body twice is setting it once with the
/// second status, so setting the same status again changes nothing; this
/// holds for bodies with a non-blank line, whose last line is not empty and
/// none of whose lines ends in `\r` before its `\n`.
pub proof fn lemma_update_body_twice(body: Seq<char>, s1: SpaiStatus, s2: SpaiStatus)
    requires
        first_nonblank(lines(body)) is Some,
        lines(body).last().len() > 0,
        forall|i: int| 0 <= i < lines(body).len() - 1 ==> !ends_in_cr(#[trigger] lines(body)[i]),
    ensures
        spec_update_body(spec_update_body(body, s1), s2) == spec_update_body(body, s2),
{
    let ls = lines(body);
    lemma_first_nonblank(ls);
    let i = first_nonblank(ls).unwrap();
    lemma_lines_free(body);
    let l = ls[i];
    lemma_retag_twice(l, s1, s2);
    let r1 = retag_line(l, status_prefix(s1));
    let ls1 = ls.update(i, r1);
    assert forall|k: int| 0 <= k < ls1.len() implies free_of(#[trigger] ls1[k], '\n') && (k
        < ls1.len() - 1 ==> !ends_in_cr(ls1[k])) by {
        if k != i {
            assert(ls1[k] == ls[k]);
        }
    }
    assert(ls1.last().len() > 0) by {
        if i != ls.len() - 1 {
            assert(ls1.last() == ls.last());
        }
    }
    lemma_lines_join(ls1);
    let b1 = join(ls1, "\n"@);
    assert(spec_update_body(body, s1) == b1);
    assert(lines(b1) == ls1);
    assert(trim_start(ls1[i]).len() > 0);
    assert(first_nonblank(ls1) == Some(i)) by {
        assert forall|j: int| 0 <= j < i implies trim_start(ls1[j]).len() == 0 by {
            assert(ls1[j] == ls[j]);
            assert(trim_start(ls[j]).len() == 0);
        }
        let c = choose|c: int|
            0 <= c < ls1.len() && trim_start(ls1[c]).len() > 0 && forall|j: int|
                0 <= j < c ==> trim_start(ls1[j]).len() == 0;
        if c < i {
            assert(ls1[c] == ls[c]);
            assert(trim_start(ls[c]).len() == 0);
        } else if c > i {
            assert(trim_start(ls1[i]).len() == 0);
        }
    }
    assert(ls1.update(i, retag_line(ls1[i], status_prefix(s2))) =~= ls.update(
        i,
        retag_line(l, status_prefix(s2)),
    ));
}

// ---------------------------------------------------------------------------
// format_spai_markdown
// ---------------------------------------------------------------------------

/// `"` escaped as `\"`.
pub open spec fn escape_quotes(s: Seq<char>) -> Seq<char>
    decreases s.len(),
{
    if s.len() == 0 {
        Seq::empty()
    } else if s.last() == '"' {
        escape_quotes(s.drop_last()) + seq!['\\', '"']
    } else {
        escape_quotes(s.drop_last()).push(s.last())
    }
}

/// `  key: value` line of an optional facet.
pub open spec fn facet_line(key: Seq<char>, v: Option<String>) -> Seq<char> {
    match v {
        Some(x) => "  "@ + key + ": "@ + x@ + "\n"@,
        None => Seq::empty(),
    }
}

/// Frontmatter lines before the optional tags and facets.
pub open spec fn md_head(item: SpaiNoteItem) -> Seq<char> {
    "---\n"@ + "type: "@ + item.kind.name() + "\n"@ + "title: \""@ + escape_quotes(item.title@)
        + "\"\n"@ + "timestamp: "@ + item.timestamp@ + "\n"@ + "status: "@ + item.status.name()
        + "\n"@ + "source: pi-spai\n"@
}

/// The `tags:` line, present when the note has tags.
pub open spec fn md_tags(item: SpaiNoteItem) -> Seq<char> {
    if item.tags@.len() > 0 {
        "tags: ["@ + join(string_views(item.tags@), ", "@) + "]\n"@
    } else {
        Seq::empty()
    }
}

/// The `facets:` block, present when any facet is set.
pub open spec fn md_facets(f: SpaiFacets) -> Seq<char> {
    if f.priority is Some || f.deadline is Some || f.project is Some || f.project_path is Some {
        "facets:\n"@ + facet_line("priority"@, f.priority) + facet_line("deadline"@, f.deadline)
            + facet_line("project"@, f.project) + facet_line("project_path"@, f.project_path)
    } else {
        Seq::empty()
    }
}

/// The symbol, the closing fence, the `# ID: title` header and the body.
pub open spec fn md_tail(item: SpaiNoteItem) -> Seq<char> {
    "spai_symbol: '"@ + item.symbol@ + "'\n"@ + "---\n\n"@ + "# "@ + item.id@ + ": "@
        + item.title@ + "\n\n"@ + trim(item.body@) + "\n"@
}

/// The markdown file a note is stored as: YAML frontmatter (type, quoted
/// title, timestamp, status, source, optional tags and facets, symbol), then
/// the `# ID: title` header and the trimmed body.
pub open spec fn spec_markdown(item: SpaiNoteItem) -> Seq<char> {
    md_head(item) + md_tags(item) + md_facets(item.facets) + md_tail(item)
}

fn escape_quotes_exec(v: &[char]) -> (r: Vec<char>)
    ensures
        r@ == escape_quotes(v@),
{
    let mut r: Vec<char> = Vec::new();
    let mut i: usize = 0;
    while i < v.len()
        invariant
            0 <= i <= v.len(),
            r@ == escape_quotes(v@.take(i as int)),
        decreases v.len() - i,
    {
        assert(v@.take(i + 1).drop_last() == v@.take(i as int));
        if v[i] == '"' {
            r.push('\\');
            r.push('"');
            assert(r@ == escape_quotes(v@.take(i as int)) + seq!['\\', '"']);
        } else {
            r.push(v[i]);
        }
        i = i + 1;
    }
    assert(v@.take(v.len() as int) == v@);
    r
}

/// Appends the chars of a `str` to `out`.
fn append_str(out: &mut Vec<char>, s: &str)
    ensures
        final(out)@ == old(out)@ + s@,
{
    let v = chars_of(s);
    let r = concat_chars(out.as_slice(), v.as_slice());
    *out = r;
}

/// Appends chars to `out`.
fn add_chars(out: &mut Vec<char>, v: &[char])
    ensures
        final(out)@ == old(out)@ + v@,
{
    let r = concat_chars(out.as_slice(), v);
    *out = r;
}

fn add_facet(out: &mut Vec<char>, key: &str, v: &Option<String>)
    ensures
        final(out)@ == old(out)@ + facet_line(key@, *v),
{
    match v {
        Some(x) => {
            append_str(out, "  ");
            append_str(out, key);
            append_str(out, ": ");
            append_str(out, x.as_str());
            append_str(out, "\n");
        },
        None => {},
    }
}

fn format_head(out: &mut Vec<char>, item: &SpaiNoteItem)
    ensures
        final(out)@ == old(out)@ + md_head(*item),
{
    let ghost o = out@;
    append_str(out, "---\n");
    append_str(out, "type: ");
    append_str(out, item.kind.as_str());
    append_str(out, "\n");
    append_str(out, "title: \"");
    let title = chars_of(item.title.as_str());
    let esc = escape_quotes_exec(title.as_slice());
    add_chars(out, esc.as_slice());
    append_str(out, "\"\n");
    append_str(out, "timestamp: ");
    append_str(out, item.timestamp.as_str());
    append_str(out, "\n");
    append_str(out, "status: ");
    append_str(out, item.status.as_str());
    append_str(out, "\n");
    append_str(out, "source: pi-spai\n");
    assert(out@ =~= o + md_head(*item));
}

fn format_tags(out: &mut Vec<char>, item: &SpaiNoteItem)
    ensures
        final(out)@ == old(out)@ + md_tags(*item),
{
    let ghost o = out@;
    if item.tags.len() > 0 {
        append_str(out, "tags: [");
        let joined = join_strings(&item.tags, chars_of(", ").as_slice());
        add_chars(out, joined.as_slice());
        append_str(out, "]\n");
        assert(out@ =~= o + md_tags(*item));
    } else {
        assert(out@ =~= o + md_tags(*item));
    }
}

fn format_facets(out: &mut Vec<char>, f: &SpaiFacets)
    ensures
        final(out)@ == old(out)@ + md_facets(*f),
{
    let ghost o = out@;
    if f.priority.is_some() || f.deadline.is_some() || f.project.is_some()
        || f.project_path.is_some() {
        append_str(out, "facets:\n");
        add_facet(out, "priority", &f.priority);
        add_facet(out, "deadline", &f.deadline);
        add_facet(out, "project", &f.project);
        add_facet(out, "project_path", &f.project_path);
        assert(out@ =~= o + md_facets(*f));
    } else {
        assert(out@ =~= o + md_facets(*f));
    }
}

fn format_tail(out: &mut Vec<char>, item: &SpaiNoteItem)
    ensures
        final(out)@ == old(out)@ + md_tail(*item),
{
    let ghost o = out@;
    append_str(out, "spai_symbol: '");
    append_str(out, item.symbol.as_str());
    append_str(out, "'\n");
    append_str(out, "---\n\n");
    append_str(out, "# ");
    append_str(out, item.id.as_str());
    append_str(out, ": ");
    append_str(out, item.title.as_str());
    append_str(out, "\n\n");
    let body = chars_of(item.body.as_str());
    let tb = trim_chars(body.as_slice());
    add_chars(out, tb.as_slice());
    append_str(out, "\n");
    assert(out@ =~= o + md_tail(*item));
}

/// Builds markdown content with standard SPAI YAML frontmatter.
pub fn format_spai_markdown(item: &SpaiNoteItem) -> (r: String)
    ensures
        r@ == spec_markdown(*item),
{
    let mut out: Vec<char> = Vec::new();
    format_head(&mut out, item);
    format_tags(&mut out, item);
    format_facets(&mut out, &item.facets);
    format_tail(&mut out, item);
    assert(out@ =~= spec_markdown(*item));
    string_of(out.as_slice())
}


// ---------------------------------------------------------------------------
// parse_spai_markdown
// ---------------------------------------------------------------------------

/// Where the frontmatter text starts after the opening `---` fence (0 when
/// the content does not open with a fence).
pub open spec fn fm_start(c: Seq<char>) -> int {
    if starts_with(c, "---\r\n"@) {
        "---\r\n"@.len() as int
    } else if starts_with(c, "---\n"@) {
        "---\n"@.len() as int
    } else {
        0
    }
}

/// One leading line break removed.
pub open spec fn strip_one_newline(b: Seq<char>) -> Seq<char> {
    if starts_with(b, "\r\n"@) {
        b.skip("\r\n"@.len() as int)
    } else if starts_with(b, "\n"@) {
        b.skip("\n"@.len() as int)
    } else {
        b
    }
}

/// The YAML between the fences (empty without a closed frontmatter).
pub open spec fn spec_yaml_part(c: Seq<char>) -> Seq<char> {
    let st = fm_start(c);
    if st > 0 {
        match find(c.skip(st), "\n---"@) {
            Some(e) => c.subrange(st, st + e),
            None => Seq::empty(),
        }
    } else {
        Seq::empty()
    }
}

/// The markdown after the closing fence (all of it without a frontmatter).
pub open spec fn spec_body_part(c: Seq<char>) -> Seq<char> {
    let st = fm_start(c);
    if st > 0 {
        match find(c.skip(st), "\n---"@) {
            Some(e) => strip_one_newline(trim_start(c.skip(st + e + "\n---"@.len()))),
            None => c,
        }
    } else {
        c
    }
}

/// Index of the first line that is a `#` header.
pub open spec fn first_header(ls: Seq<Seq<char>>) -> Option<int> {
    if exists|i: int| 0 <= i < ls.len() && starts_with(trim(ls[i]), "#"@) {
        Some(
            choose|i: int|
                0 <= i < ls.len() && starts_with(trim(ls[i]), "#"@) && forall|j: int|
                    0 <= j < i ==> !starts_with(trim(ls[j]), "#"@),
        )
    } else {
        None
    }
}

/// Header text without its `#` marks.
pub open spec fn header_text(line: Seq<char>) -> Seq<char> {
    trim(trim_start_char(trim(line), '#'))
}

/// `(id, title)` of a `SPAI-XXX: Title` header (both empty otherwise).
pub open spec fn header_id_title(h: Seq<char>) -> (Seq<char>, Seq<char>) {
    match find_char(h, ':') {
        Some(p) => {
            let lhs = trim(h.take(p));
            if starts_with(upper_seq(lhs), "SPAI-"@) {
                (lhs, trim(h.skip(p + 1)))
            } else {
                (Seq::empty(), Seq::empty())
            }
        },
        None => (Seq::empty(), Seq::empty()),
    }
}

/// `(id, title, end of the header line)` read from the body's first header.
pub open spec fn spec_header(body: Seq<char>) -> (Seq<char>, Seq<char>, int) {
    let ls = lines(body);
    match first_header(ls) {
        Some(i) => {
            let h = header_text(ls[i]);
            let (id, t) = header_id_title(h);
            let title = if t.len() == 0 {
                h
            } else {
                t
            };
            let off = match find(body, ls[i]) {
                Some(pos) => pos + ls[i].len(),
                None => 0,
            };
            (id, title, off)
        },
        None => (Seq::empty(), Seq::empty(), 0),
    }
}

/// Number of leading ASCII digits.
pub open spec fn leading_digits(s: Seq<char>) -> int
    decreases s.len(),
{
    if s.len() > 0 && '0' <= s[0] && s[0] <= '9' {
        1 + leading_digits(s.drop_first())
    } else {
        0
    }
}

/// Fallback id taken from a file name like `2026-09-25-SPAI-002-slug.md`.
pub open spec fn id_from_file_name(f: Seq<char>) -> Seq<char> {
    match find(f, "SPAI-"@) {
        Some(idx) => {
            let rest = f.skip(idx);
            rest.take("SPAI-"@.len() + leading_digits(rest.skip("SPAI-"@.len() as int)))
        },
        None => "SPAI-001"@,
    }
}

/// Frontmatter keys, in the order they are tried.
pub open spec fn yaml_keys() -> Seq<Seq<char>> {
    seq![
        "type:"@,
        "status:"@,
        "timestamp:"@,
        "spai_symbol:"@,
        "project:"@,
        "project_path:"@,
        "priority:"@,
        "deadline:"@,
        "title:"@,
    ]
}

/// Position of the first key a line starts with (`ks.len()` for none).
pub open spec fn first_key(l: Seq<char>, ks: Seq<Seq<char>>) -> int
    decreases ks.len(),
{
    if ks.len() == 0 {
        0
    } else if starts_with(l, ks[0]) {
        0
    } else {
        1 + first_key(l, ks.drop_first())
    }
}

pub open spec fn key_index(l: Seq<char>) -> int {
    first_key(l, yaml_keys())
}

/// The value after key `k` on the last (trimmed) YAML line with that key.
pub open spec fn last_value(ys: Seq<Seq<char>>, k: int) -> Option<Seq<char>>
    decreases ys.len(),
{
    if ys.len() == 0 {
        None
    } else {
        let l = trim(ys.last());
        if key_index(l) == k {
            Some(l.skip(yaml_keys()[k].len() as int))
        } else {
            last_value(ys.drop_last(), k)
        }
    }
}

/// The title: the header's one, or else the first non-empty `title:` value.
pub open spec fn title_fold(t0: Seq<char>, ys: Seq<Seq<char>>) -> Seq<char>
    decreases ys.len(),
{
    if ys.len() == 0 {
        t0
    } else {
        let t = title_fold(t0, ys.drop_last());
        let l = trim(ys.last());
        if t.len() == 0 && key_index(l) == 8 {
            trim_char(trim(l.skip(6)), '"')
        } else {
            t
        }
    }
}

pub open spec fn opt_trim(v: Option<Seq<char>>) -> Option<Seq<char>> {
    match v {
        Some(x) => Some(trim(x)),
        None => None,
    }
}

pub open spec fn opt_view(v: Option<String>) -> Option<Seq<char>> {
    match v {
        Some(x) => Some(x@),
        None => None,
    }
}

/// Symbol as written in the frontmatter (quotes removed).
pub open spec fn yaml_symbol(ys: Seq<Seq<char>>) -> Seq<char> {
    match last_value(ys, 3) {
        Some(v) => trim_char(trim_char(trim(v), '\''), '"'),
        None => Seq::empty(),
    }
}

pub open spec fn yaml_kind(ys: Seq<Seq<char>>) -> SpaiType {
    match last_value(ys, 0) {
        Some(v) => SpaiType::parse(v),
        None => SpaiType::Todo,
    }
}

pub open spec fn yaml_status(ys: Seq<Seq<char>>) -> SpaiStatus {
    match last_value(ys, 1) {
        Some(v) => SpaiStatus::parse(v),
        None => SpaiStatus::Todo,
    }
}

pub open spec fn yaml_timestamp(ys: Seq<Seq<char>>) -> Seq<char> {
    match last_value(ys, 2) {
        Some(v) => trim_char(trim(v), '"'),
        None => Seq::empty(),
    }
}

/// What `parse_spai_markdown` reads from a note file: frontmatter keys (last
/// occurrence wins), the `# SPAI-XXX: Title` header (id and title, with the
/// frontmatter title and then the file name as fallbacks for the title and
/// the file name for the id), and the body after the header.
pub open spec fn parsed_note(item: SpaiNoteItem, content: Seq<char>, file_name: Seq<char>) -> bool {
    let body = spec_body_part(content);
    let ys = lines(spec_yaml_part(content));
    let (hid, htitle, off) = spec_header(body);
    let title = title_fold(htitle, ys);
    let status = yaml_status(ys);
    &&& item.id@ == (if hid.len() > 0 {
        hid
    } else {
        id_from_file_name(file_name)
    })
    &&& item.title@ == (if title.len() > 0 {
        title
    } else {
        file_name
    })
    &&& item.kind == yaml_kind(ys)
    &&& item.status == status
    &&& item.symbol@ == (if yaml_symbol(ys).len() > 0 {
        yaml_symbol(ys)
    } else {
        status.spec_symbol()
    })
    &&& item.timestamp@ == yaml_timestamp(ys)
    &&& item.tags@.len() == 0
    &&& opt_view(item.facets.project) == opt_trim(last_value(ys, 4))
    &&& opt_view(item.facets.project_path) == opt_trim(last_value(ys, 5))
    &&& opt_view(item.facets.priority) == opt_trim(last_value(ys, 6))
    &&& opt_view(item.facets.deadline) == opt_trim(last_value(ys, 7))
    &&& item.body@ == (if off > 0 {
        trim_start(body.skip(off))
    } else {
        body
    })
    &&& item.file_name@ == file_name
}

fn split_frontmatter(c: &[char]) -> (r: (Vec<char>, Vec<char>))
    ensures
        r.0@ == spec_yaml_part(c@),
        r.1@ == spec_body_part(c@),
{
    let crlf_fence = chars_of("---\r\n");
    let lf_fence = chars_of("---\n");
    let start: usize = if starts_with_chars(c, crlf_fence.as_slice()) {
        crlf_fence.len()
    } else if starts_with_chars(c, lf_fence.as_slice()) {
        lf_fence.len()
    } else {
        0
    };
    if start > 0 {
        let after = slice_chars(c, start, c.len());
        assert(after@ == c@.skip(start as int));
        let close = chars_of("\n---");
        match find_chars(after.as_slice(), close.as_slice()) {
            Some(end) => {
                let yaml = slice_chars(c, start, start + end);
                let rest = slice_chars(c, start + end + close.len(), c.len());
                assert(rest@ == c@.skip(start + end + close@.len()));
                let t = trim_start_chars(rest.as_slice());
                let t = t.as_slice();
                let crlf = chars_of("\r\n");
                let lf = chars_of("\n");
                let body = if starts_with_chars(t, crlf.as_slice()) {
                    slice_chars(t, crlf.len(), t.len())
                } else if starts_with_chars(t, lf.as_slice()) {
                    slice_chars(t, lf.len(), t.len())
                } else {
                    crate::text::copy_chars(t)
                };
                (yaml, body)
            },
            None => (Vec::new(), crate::text::copy_chars(c)),
        }
    } else {
        (Vec::new(), crate::text::copy_chars(c))
    }
}

fn header_id_title_exec(h: &[char]) -> (r: (Vec<char>, Vec<char>))
    ensures
        (r.0@, r.1@) == header_id_title(h@),
{
    match find_char_exec(h, ':') {
        Some(p) => {
            let lhs = trim_chars(slice_chars(h, 0, p).as_slice());
            let up = upper_chars(lhs.as_slice());
            if starts_with_chars(up.as_slice(), chars_of("SPAI-").as_slice()) {
                let rhs = slice_chars(h, p + 1, h.len());
                assert(rhs@ == h@.skip(p + 1));
                (lhs, trim_chars(rhs.as_slice()))
            } else {
                (Vec::new(), Vec::new())
            }
        },
        None => (Vec::new(), Vec::new()),
    }
}

fn header_exec(body: &[char]) -> (r: (Vec<char>, Vec<char>, usize))
    ensures
        (r.0@, r.1@, r.2 as int) == spec_header(body@),
        r.2 <= body.len(),
{
    let ls = lines_exec(body);
    let mut i: usize = 0;
    while i < ls.len()
        invariant
            0 <= i <= ls.len(),
            views(ls@) == lines(body@),
            forall|j: int| 0 <= j < i ==> !starts_with(trim(views(ls@)[j]), "#"@),
        decreases ls.len() - i,
    {
        let t = trim_chars(ls[i].as_slice());
        if starts_with_chars(t.as_slice(), chars_of("#").as_slice()) {
            assert(ls@[i as int]@ == views(ls@)[i as int]);
            assert(starts_with(trim(views(ls@)[i as int]), "#"@));
            proof {
                assert(first_header(views(ls@)) == Some(i as int)) by {
                    let k = choose|k: int|
                        0 <= k < views(ls@).len() && starts_with(trim(views(ls@)[k]), "#"@)
                            && forall|j: int| 0 <= j < k ==> !starts_with(trim(views(ls@)[j]), "#"@);
                    assert(k == i);
                }
            }
            let h0 = trim_start_char_exec(t.as_slice(), '#');
            let h = trim_chars(h0.as_slice());
            let (id, t2) = header_id_title_exec(h.as_slice());
            let title = if t2.len() == 0 {
                h
            } else {
                t2
            };
            let off: usize = match find_chars(body, ls[i].as_slice()) {
                Some(pos) => {
                    assert(ls@[i as int]@ == views(ls@)[i as int]);
                    assert(crate::text::occurs_at(body@, ls@[i as int]@, pos as int));
                    assert(body@.len() == body.len());
                    assert(pos + ls@[i as int]@.len() <= body.len());
                    pos + ls[i].len()
                },
                None => 0,
            };
            return (id, title, off);
        }
        i = i + 1;
    }
    assert(first_header(views(ls@)) is None);
    (Vec::new(), Vec::new(), 0)
}

fn id_from_file_name_exec(f: &[char]) -> (r: Vec<char>)
    ensures
        r@ == id_from_file_name(f@),
{
    let pat = chars_of("SPAI-");
    match find_chars(f, pat.as_slice()) {
        Some(idx) => {
            let rest = slice_chars(f, idx, f.len());
            assert(rest@ == f@.skip(idx as int));
            let start = pat.len();
            let mut n: usize = start;
            assert(rest@.skip(start as int) == rest@.skip(n as int));
            while n < rest.len() && '0' <= rest[n] && rest[n] <= '9'
                invariant
                    start <= n <= rest@.len(),
                    (n - start) + leading_digits(rest@.skip(n as int)) == leading_digits(
                        rest@.skip(start as int),
                    ),
                decreases rest.len() - n,
            {
                assert(rest@.skip(n as int).drop_first() == rest@.skip(n + 1));
                n = n + 1;
            }
            slice_chars(rest.as_slice(), 0, n)
        },
        None => chars_of("SPAI-001"),
    }
}

fn yaml_keys_exec() -> (r: Vec<Vec<char>>)
    ensures
        views(r@) == yaml_keys(),
{
    let r = vec![
        chars_of("type:"),
        chars_of("status:"),
        chars_of("timestamp:"),
        chars_of("spai_symbol:"),
        chars_of("project:"),
        chars_of("project_path:"),
        chars_of("priority:"),
        chars_of("deadline:"),
        chars_of("title:"),
    ];
    assert(views(r@) =~= yaml_keys());
    r
}

fn key_index_exec(l: &[char], keys: &Vec<Vec<char>>) -> (k: usize)
    requires
        views(keys@) == yaml_keys(),
    ensures
        k == key_index(l@),
        k <= 9,
{
    let mut k: usize = 0;
    assert(yaml_keys().skip(0) == yaml_keys());
    while k < keys.len()
        invariant
            0 <= k <= keys.len(),
            views(keys@) == yaml_keys(),
            key_index(l@) == k + first_key(l@, yaml_keys().skip(k as int)),
        decreases keys.len() - k,
    {
        assert(yaml_keys().skip(k as int)[0] == keys@[k as int]@);
        assert(yaml_keys().skip(k as int).drop_first() == yaml_keys().skip(k + 1));
        if starts_with_chars(l, keys[k].as_slice()) {
            return k;
        }
        k = k + 1;
    }
    k
}

fn opt_string(v: Option<Vec<char>>) -> (r: Option<String>)
    ensures
        opt_view(r) == match v {
            Some(x) => Some(x@),
            None => None::<Seq<char>>,
        },
{
    match v {
        Some(x) => Some(string_of(x.as_slice())),
        None => None,
    }
}

/// Values read from the frontmatter so far.
struct YamlFields {
    kind: SpaiType,
    status: SpaiStatus,
    timestamp: Vec<char>,
    symbol: Vec<char>,
    project: Option<Vec<char>>,
    project_path: Option<Vec<char>>,
    priority: Option<Vec<char>>,
    deadline: Option<Vec<char>>,
    title: Vec<char>,
}

impl YamlFields {
    spec fn matches(&self, ys: Seq<Seq<char>>, t0: Seq<char>) -> bool {
        &&& self.kind == yaml_kind(ys)
        &&& self.status == yaml_status(ys)
        &&& self.timestamp@ == yaml_timestamp(ys)
        &&& self.symbol@ == yaml_symbol(ys)
        &&& opt_view_v(self.project) == opt_trim(last_value(ys, 4))
        &&& opt_view_v(self.project_path) == opt_trim(last_value(ys, 5))
        &&& opt_view_v(self.priority) == opt_trim(last_value(ys, 6))
        &&& opt_view_v(self.deadline) == opt_trim(last_value(ys, 7))
        &&& self.title@ == title_fold(t0, ys)
    }

    fn apply_line(
        &mut self,
        line: &[char],
        keys: &Vec<Vec<char>>,
        Ghost(ys): Ghost<Seq<Seq<char>>>,
        Ghost(t0): Ghost<Seq<char>>,
    )
        requires
            old(self).matches(ys, t0),
            views(keys@) == yaml_keys(),
        ensures
            final(self).matches(ys.push(line@), t0),
    {
        assert(ys.push(line@).drop_last() == ys);
        let l = trim_chars(line);
        let k = key_index_exec(l.as_slice(), keys);
        if k < 9 {
            assert(yaml_keys()[k as int] == keys@[k as int]@);
            proof {
                lemma_first_key_starts(l@, yaml_keys());
            }
            let v = slice_chars(l.as_slice(), keys[k].len(), l.len());
            assert(v@ == l@.skip(yaml_keys()[k as int].len() as int));
            if k == 0 {
                self.kind = SpaiType::from_str(string_of(v.as_slice()).as_str());
            } else if k == 1 {
                self.status = SpaiStatus::from_str(string_of(v.as_slice()).as_str());
            } else if k == 2 {
                self.timestamp = trim_char_exec(trim_chars(v.as_slice()).as_slice(), '"');
            } else if k == 3 {
                let a = trim_chars(v.as_slice());
                let b = trim_char_exec(a.as_slice(), '\'');
                self.symbol = trim_char_exec(b.as_slice(), '"');
            } else if k == 4 {
                self.project = Some(trim_chars(v.as_slice()));
            } else if k == 5 {
                self.project_path = Some(trim_chars(v.as_slice()));
            } else if k == 6 {
                self.priority = Some(trim_chars(v.as_slice()));
            } else if k == 7 {
                self.deadline = Some(trim_chars(v.as_slice()));
            } else {
                assert(yaml_keys()[8].len() == 6) by {
                    reveal_strlit("title:");
                }
                if self.title.len() == 0 {
                    self.title = trim_char_exec(trim_chars(v.as_slice()).as_slice(), '"');
                }
            }
        }
    }
}

fn read_yaml(ys: &Vec<Vec<char>>, htitle: Vec<char>) -> (f: YamlFields)
    ensures
        f.matches(views(ys@), htitle@),
{
    let keys = yaml_keys_exec();
    let mut f = YamlFields {
        kind: SpaiType::Todo,
        status: SpaiStatus::Todo,
        timestamp: Vec::new(),
        symbol: Vec::new(),
        project: None,
        project_path: None,
        priority: None,
        deadline: None,
        title: htitle,
    };
    let ghost yv = views(ys@);
    let ghost t0 = htitle@;
    assert(yv.take(0) == Seq::<Seq<char>>::empty());
    let mut i: usize = 0;
    while i < ys.len()
        invariant
            0 <= i <= ys.len(),
            views(keys@) == yaml_keys(),
            yv == views(ys@),
            f.matches(yv.take(i as int), t0),
        decreases ys.len() - i,
    {
        assert(yv.take(i + 1) == yv.take(i as int).push(ys@[i as int]@));
        f.apply_line(ys[i].as_slice(), &keys, Ghost(yv.take(i as int)), Ghost(t0));
        i = i + 1;
    }
    assert(yv.take(ys.len() as int) == yv);
    f
}

/// Parses a SPAI markdown file into `SpaiNoteItem`, given its file name.
#[verifier::rlimit(40)]
pub fn parse_spai_markdown_named(content: &str, file_path: String, file_name: String) -> (r:
    Option<SpaiNoteItem>)
    ensures
        r is Some,
        r matches Some(item) ==> parsed_note(item, content@, file_name@) && item.file_path
            == file_path,
{
    let c = chars_of(content);
    let (yaml, body) = split_frontmatter(c.as_slice());
    let (hid, htitle, off) = header_exec(body.as_slice());
    let clean_body = if off > 0 {
        trim_start_chars(slice_chars(body.as_slice(), off, body.len()).as_slice())
    } else {
        body
    };
    let fname = chars_of(file_name.as_str());
    let id = if hid.len() > 0 {
        hid
    } else {
        id_from_file_name_exec(fname.as_slice())
    };
    let ys = lines_exec(yaml.as_slice());
    let f = read_yaml(&ys, htitle);
    let YamlFields { kind, status, timestamp, symbol, project, project_path, priority, deadline, title } =
        f;
    let symbol = if symbol.len() == 0 {
        chars_of(status.symbol())
    } else {
        symbol
    };
    let title = if title.len() == 0 {
        fname
    } else {
        title
    };
    let item = SpaiNoteItem {
        id: string_of(id.as_slice()),
        title: string_of(title.as_slice()),
        kind,
        status,
        symbol: string_of(symbol.as_slice()),
        timestamp: string_of(timestamp.as_slice()),
        tags: Vec::new(),
        facets: SpaiFacets {
            project: opt_string(project),
            project_path: opt_string(project_path),
            priority: opt_string(priority),
            deadline: opt_string(deadline),
        },
        body: string_of(clean_body.as_slice()),
        file_path,
        file_name,
    };
    Some(item)
}

pub open spec fn opt_view_v(v: Option<Vec<char>>) -> Option<Seq<char>> {
    match v {
        Some(x) => Some(x@),
        None => None,
    }
}

proof fn lemma_first_key_starts(l: Seq<char>, ks: Seq<Seq<char>>)
    ensures
        0 <= first_key(l, ks) <= ks.len(),
        first_key(l, ks) < ks.len() ==> starts_with(l, ks[first_key(l, ks)]),
    decreases ks.len(),
{
    if ks.len() > 0 && !starts_with(l, ks[0]) {
        lemma_first_key_starts(l, ks.drop_first());
        if first_key(l, ks) < ks.len() {
            assert(ks[first_key(l, ks)] == ks.drop_first()[first_key(l, ks.drop_first())]);
        }
    }
}

/// Parses a SPAI markdown file into `SpaiNoteItem`. The file name used as
/// fallback comes from the platform's path rules; everything else is stated
/// by [`parse_spai_markdown_named`].
pub fn parse_spai_markdown(content: &str, file_path: String) -> (r: Option<SpaiNoteItem>)
    ensures
        r is Some,
        r matches Some(item) ==> parsed_note(item, content@, item.file_name@) && item.file_path
            == file_path,
        r matches Some(item) ==> item.file_name@ == (match crate::paths::path_file_name(
            file_path@,
        ) {
            Some(n) => n,
            None => Seq::<char>::empty(),
        }),
{
    let file_name = match crate::paths::file_name(file_path.as_str()) {
        Some(n) => n,
        None => String::new(),
    };
    parse_spai_markdown_named(content, file_path, file_name)
}

} // verus!

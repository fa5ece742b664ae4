//! Character-level string helpers shared by the whole library.
//!
//! Text is modelled as `Seq<char>` (the view of `str` and `String`). Most
//! specifications here are written as left folds over prefixes, so that a loop
//! walking a `Vec<char>` from the front can keep its state equal to the
//! specification applied to the prefix it has consumed.
use vstd::prelude::*;

verus! {

/// `String::push` appends one char to the end of the string.
pub assume_specification[ String::push ](s: &mut String, ch: char)
    ensures
        final(s)@ == old(s)@.push(ch),
;

/// What `char::is_alphanumeric` answers for a char: the Unicode `Alphabetic`
/// or `Numeric` property, whose tables are not restated here.
pub uninterp spec fn unicode_alphanumeric(c: char) -> bool;

/// Every char of `s` is ASCII.
pub open spec fn is_ascii_text(s: Seq<char>) -> bool {
    forall|i: int| 0 <= i < s.len() ==> (#[trigger] s[i] as u32) < 128
}

/// Whether `char::is_alphanumeric` holds of a char: the ASCII letters and
/// digits among ASCII chars, the Unicode tables for the others.
pub open spec fn char_alphanumeric(c: char) -> bool {
    if (c as u32) < 128 {
        is_ascii_alnum(c)
    } else {
        unicode_alphanumeric(c)
    }
}

/// What `str::to_lowercase` gives: the ASCII mapping for ASCII text, the
/// Unicode one otherwise.
pub open spec fn text_lowercase(s: Seq<char>) -> Seq<char> {
    if is_ascii_text(s) {
        lower_seq(s)
    } else {
        unicode_lowercase(s)
    }
}

/// `char::is_alphanumeric` is a function of the char alone; on an ASCII
/// char it is `is_ascii_alphanumeric` (the ASCII letters and digits are the
/// ASCII chars that are alphabetic or numeric).
pub assume_specification[ char::is_alphanumeric ](c: char) -> (b: bool)
    ensures
        b == unicode_alphanumeric(c),
        (c as u32) < 128 ==> b == is_ascii_alnum(c),
;

/// What `str::to_lowercase` returns for a text: the Unicode lowercase
/// mapping, whose tables are not restated here.
pub uninterp spec fn unicode_lowercase(s: Seq<char>) -> Seq<char>;

/// `str::to_lowercase` is a function of the text alone; on ASCII text it
/// is the ASCII lowercase mapping (`A`-`Z` to `a`-`z`, all else kept).
pub assume_specification[ str::to_lowercase ](s: &str) -> (r: String)
    ensures
        r@ == unicode_lowercase(s@),
        is_ascii_text(s@) ==> r@ == lower_seq(s@),
;

/// What `str::to_uppercase` returns for a text: the Unicode uppercase
/// mapping, whose tables are not restated here.
pub uninterp spec fn unicode_uppercase(s: Seq<char>) -> Seq<char>;

/// `str::to_uppercase` is a function of the text alone; on ASCII text it
/// is the ASCII uppercase mapping (`a`-`z` to `A`-`Z`, all else kept).
pub assume_specification[ str::to_uppercase ](s: &str) -> (r: String)
    ensures
        r@ == unicode_uppercase(s@),
        is_ascii_text(s@) ==> r@ == upper_seq(s@),
;

// ---------------------------------------------------------------------------
// Conversions between `str`/`String` and `Vec<char>`
// ---------------------------------------------------------------------------

/// The chars of `s`, in order.
pub fn chars_of(s: &str) -> (v: Vec<char>)
    ensures
        v@ == s@,
{
    let mut v: Vec<char> = Vec::new();
    for c in it: s.chars()
        invariant
            v@ == it.seq().take(it.index() as int),
            it.seq() == s@,
    {
        v.push(c);
    }
    v
}

/// Appends `v` to `s`.
pub fn push_chars(s: &mut String, v: &[char])
    ensures
        final(s)@ == old(s)@ + v@,
{
    let ghost start = s@;
    let mut i: usize = 0;
    while i < v.len()
        invariant
            0 <= i <= v.len(),
            s@ == start + v@.take(i as int),
        decreases v.len() - i,
    {
        s.push(v[i]);
        assert(v@.take(i + 1) == v@.take(i as int).push(v@[i as int]));
        i = i + 1;
    }
    assert(v@.take(v.len() as int) == v@);
}

/// A `String` holding exactly the chars of `v`.
pub fn string_of(v: &[char]) -> (s: String)
    ensures
        s@ == v@,
{
    let mut s = String::new();
    push_chars(&mut s, v);
    s
}

/// A `String` copy of a `str`.
pub fn to_string(s: &str) -> (r: String)
    ensures
        r@ == s@,
{
    let v = chars_of(s);
    string_of(v.as_slice())
}

/// A copy of a `Vec<char>`.
pub fn copy_chars(v: &[char]) -> (r: Vec<char>)
    ensures
        r@ == v@,
{
    let mut r: Vec<char> = Vec::new();
    let mut i: usize = 0;
    while i < v.len()
        invariant
            0 <= i <= v.len(),
            r@ == v@.take(i as int),
        decreases v.len() - i,
    {
        r.push(v[i]);
        assert(v@.take(i + 1) == v@.take(i as int).push(v@[i as int]));
        i = i + 1;
    }
    assert(v@.take(v.len() as int) == v@);
    r
}

/// The chars of `v` from `from` (inclusive) to `to` (exclusive).
pub fn slice_chars(v: &[char], from: usize, to: usize) -> (r: Vec<char>)
    requires
        from <= to <= v.len(),
    ensures
        r@ == v@.subrange(from as int, to as int),
{
    let mut r: Vec<char> = Vec::new();
    let mut i: usize = from;
    while i < to
        invariant
            from <= i <= to <= v.len(),
            r@ == v@.subrange(from as int, i as int),
        decreases to - i,
    {
        r.push(v[i]);
        assert(v@.subrange(from as int, i + 1) == v@.subrange(from as int, i as int).push(
            v@[i as int],
        ));
        i = i + 1;
    }
    r
}

/// `a` followed by `b`.
pub fn concat_chars(a: &[char], b: &[char]) -> (r: Vec<char>)
    ensures
        r@ == a@ + b@,
{
    let mut r = copy_chars(a);
    let mut i: usize = 0;
    while i < b.len()
        invariant
            0 <= i <= b.len(),
            r@ == a@ + b@.take(i as int),
        decreases b.len() - i,
    {
        r.push(b[i]);
        assert(b@.take(i + 1) == b@.take(i as int).push(b@[i as int]));
        i = i + 1;
    }
    assert(b@.take(b.len() as int) == b@);
    r
}

// ---------------------------------------------------------------------------
// Char classes
// ---------------------------------------------------------------------------

/// The Unicode `White_Space` property, which `char::is_whitespace` and
/// `str::trim` use.
pub open spec fn is_ws(c: char) -> bool {
    let u = c as u32;
    ||| (0x09 <= u && u <= 0x0D)
    ||| u == 0x20
    ||| u == 0x85
    ||| u == 0xA0
    ||| u == 0x1680
    ||| (0x2000 <= u && u <= 0x200A)
    ||| u == 0x2028
    ||| u == 0x2029
    ||| u == 0x202F
    ||| u == 0x205F
    ||| u == 0x3000
}

/// Whether `c` is Unicode white space.
pub fn is_white_space(c: char) -> (b: bool)
    ensures
        b == is_ws(c),
{
    let u = c as u32;
    (0x09 <= u && u <= 0x0D) || u == 0x20 || u == 0x85 || u == 0xA0 || u == 0x1680 || (0x2000
        <= u && u <= 0x200A) || u == 0x2028 || u == 0x2029 || u == 0x202F || u == 0x205F || u
        == 0x3000
}

pub open spec fn is_digit(c: char) -> bool {
    '0' <= c && c <= '9'
}

pub open spec fn is_upper(c: char) -> bool {
    'A' <= c && c <= 'Z'
}

pub open spec fn is_lower(c: char) -> bool {
    'a' <= c && c <= 'z'
}

/// ASCII letters and digits.
pub open spec fn is_ascii_alnum(c: char) -> bool {
    is_digit(c) || is_upper(c) || is_lower(c)
}

/// `char::to_ascii_lowercase`.
pub open spec fn lower_char(c: char) -> char {
    if is_upper(c) {
        ((c as u32) + 32) as char
    } else {
        c
    }
}

/// `char::to_ascii_uppercase`.
pub open spec fn upper_char(c: char) -> char {
    if is_lower(c) {
        ((c as u32) - 32) as char
    } else {
        c
    }
}

pub fn is_ascii_digit(c: char) -> (b: bool)
    ensures
        b == is_digit(c),
{
    '0' <= c && c <= '9'
}

pub fn is_ascii_alphanumeric(c: char) -> (b: bool)
    ensures
        b == is_ascii_alnum(c),
{
    ('0' <= c && c <= '9') || ('A' <= c && c <= 'Z') || ('a' <= c && c <= 'z')
}

pub fn to_ascii_lower(c: char) -> (r: char)
    ensures
        r == lower_char(c),
{
    if 'A' <= c && c <= 'Z' {
        let u = (c as u32) + 32;
        assert(0x61 <= u <= 0x7A);
        char_from_ascii(u)
    } else {
        c
    }
}

pub fn to_ascii_upper(c: char) -> (r: char)
    ensures
        r == upper_char(c),
{
    if 'a' <= c && c <= 'z' {
        let u = (c as u32) - 32;
        char_from_ascii(u)
    } else {
        c
    }
}

/// The char with ASCII code `u`.
fn char_from_ascii(u: u32) -> (c: char)
    requires
        u < 128,
    ensures
        c == u as char,
{
    let b = u as u8;
    let c = b as char;
    assert(c as u32 == u);
    c
}

/// ASCII lowercase of a whole text.
pub open spec fn lower_seq(s: Seq<char>) -> Seq<char> {
    s.map_values(|c: char| lower_char(c))
}

/// ASCII uppercase of a whole text.
pub open spec fn upper_seq(s: Seq<char>) -> Seq<char> {
    s.map_values(|c: char| upper_char(c))
}

pub fn lower_chars(v: &[char]) -> (r: Vec<char>)
    ensures
        r@ == lower_seq(v@),
{
    let mut r: Vec<char> = Vec::new();
    let mut i: usize = 0;
    while i < v.len()
        invariant
            0 <= i <= v.len(),
            r@ == lower_seq(v@.take(i as int)),
        decreases v.len() - i,
    {
        let c = to_ascii_lower(v[i]);
        r.push(c);
        assert(lower_seq(v@.take(i + 1)) == lower_seq(v@.take(i as int)).push(c));
        i = i + 1;
    }
    assert(v@.take(v.len() as int) == v@);
    r
}

pub fn upper_chars(v: &[char]) -> (r: Vec<char>)
    ensures
        r@ == upper_seq(v@),
{
    let mut r: Vec<char> = Vec::new();
    let mut i: usize = 0;
    while i < v.len()
        invariant
            0 <= i <= v.len(),
            r@ == upper_seq(v@.take(i as int)),
        decreases v.len() - i,
    {
        let c = to_ascii_upper(v[i]);
        r.push(c);
        assert(upper_seq(v@.take(i + 1)) == upper_seq(v@.take(i as int)).push(c));
        i = i + 1;
    }
    assert(v@.take(v.len() as int) == v@);
    r
}

/// Unicode uppercase of a char sequence, through `str::to_uppercase`.
pub fn unicode_upper_chars(v: &[char]) -> (r: Vec<char>)
    ensures
        r@ == unicode_uppercase(v@),
        is_ascii_text(v@) ==> r@ == upper_seq(v@),
{
    let s = string_of(v);
    let u = s.as_str().to_uppercase();
    chars_of(u.as_str())
}

/// Unicode lowercase of a char sequence, through `str::to_lowercase`.
pub fn unicode_lower_chars(v: &[char]) -> (r: Vec<char>)
    ensures
        r@ == unicode_lowercase(v@),
        r@ == text_lowercase(v@),
{
    let s = string_of(v);
    let l = s.as_str().to_lowercase();
    chars_of(l.as_str())
}

// ---------------------------------------------------------------------------
// Equality, prefixes, search
// ---------------------------------------------------------------------------

pub fn chars_eq(a: &[char], b: &[char]) -> (r: bool)
    ensures
        r == (a@ == b@),
{
    if a.len() != b.len() {
        return false;
    }
    let mut i: usize = 0;
    while i < a.len()
        invariant
            a.len() == b.len(),
            0 <= i <= a.len(),
            forall|j: int| 0 <= j < i ==> a@[j] == b@[j],
        decreases a.len() - i,
    {
        if a[i] != b[i] {
            return false;
        }
        i = i + 1;
    }
    assert(a@ =~= b@);
    true
}

/// `p` is a prefix of `s`.
pub open spec fn starts_with(s: Seq<char>, p: Seq<char>) -> bool {
    p.len() <= s.len() && s.take(p.len() as int) == p
}

/// `p` is a suffix of `s`.
pub open spec fn ends_with(s: Seq<char>, p: Seq<char>) -> bool {
    p.len() <= s.len() && s.skip(s.len() - p.len()) == p
}

/// `p` occurs in `s` at index `i`.
pub open spec fn occurs_at(s: Seq<char>, p: Seq<char>, i: int) -> bool {
    0 <= i && i + p.len() <= s.len() && s.subrange(i, i + p.len()) == p
}

/// `p` occurs somewhere in `s`.
pub open spec fn contains(s: Seq<char>, p: Seq<char>) -> bool {
    exists|i: int| occurs_at(s, p, i)
}

/// Index of the first occurrence of `p` in `s`.
pub open spec fn find(s: Seq<char>, p: Seq<char>) -> Option<int> {
    if contains(s, p) {
        Some(choose|i: int| occurs_at(s, p, i) && forall|j: int| 0 <= j < i ==> !occurs_at(s, p, j))
    } else {
        None
    }
}

/// Index of the first occurrence of `c` in `s`.
pub open spec fn find_char(s: Seq<char>, c: char) -> Option<int> {
    if s.contains(c) {
        Some(choose|i: int| 0 <= i < s.len() && s[i] == c && forall|j: int| 0 <= j < i ==> s[j] != c)
    } else {
        None
    }
}

/// Index of the last occurrence of `c` in `s`.
pub open spec fn rfind_char(s: Seq<char>, c: char) -> Option<int> {
    if s.contains(c) {
        Some(choose|i: int| 0 <= i < s.len() && s[i] == c && forall|j: int| i < j < s.len() ==> s[j] != c)
    } else {
        None
    }
}

pub fn starts_with_chars(s: &[char], p: &[char]) -> (r: bool)
    ensures
        r == starts_with(s@, p@),
{
    occurs_at_exec(s, p, 0)
}

pub fn ends_with_chars(s: &[char], p: &[char]) -> (r: bool)
    ensures
        r == ends_with(s@, p@),
{
    if p.len() > s.len() {
        return false;
    }
    let r = occurs_at_exec(s, p, s.len() - p.len());
    assert(s@.subrange(s@.len() - p@.len(), s@.len() - p@.len() + p@.len()) == s@.skip(
        s@.len() - p@.len(),
    ));
    r
}

pub fn occurs_at_exec(s: &[char], p: &[char], at: usize) -> (r: bool)
    ensures
        r == occurs_at(s@, p@, at as int),
{
    if at > s.len() || p.len() > s.len() - at {
        return false;
    }
    let mut i: usize = 0;
    while i < p.len()
        invariant
            at + p.len() <= s.len(),
            0 <= i <= p.len(),
            forall|j: int| 0 <= j < i ==> s@[at + j] == p@[j],
        decreases p.len() - i,
    {
        if s[at + i] != p[i] {
            assert(s@.subrange(at as int, at + p@.len())[i as int] != p@[i as int]);
            return false;
        }
        i = i + 1;
    }
    assert(s@.subrange(at as int, at + p@.len()) =~= p@);
    true
}

/// Index of the first occurrence of `p` in `s` at or after `from`.
pub fn find_from(s: &[char], p: &[char], from: usize) -> (r: Option<usize>)
    ensures
        match r {
            Some(i) => from <= i && occurs_at(s@, p@, i as int) && forall|j: int|
                from <= j < i ==> !occurs_at(s@, p@, j),
            None => forall|j: int| from <= j ==> !occurs_at(s@, p@, j),
        },
{
    if p.len() > s.len() {
        return None;
    }
    let last = s.len() - p.len();
    let mut i: usize = from;
    while i <= last
        invariant
            p.len() <= s.len(),
            last == s.len() - p.len(),
            from <= i,
            forall|j: int| from <= j < i ==> !occurs_at(s@, p@, j),
        decreases last - i,
    {
        if occurs_at_exec(s, p, i) {
            return Some(i);
        }
        if i == last {
            return None;
        }
        i = i + 1;
    }
    None
}

/// Index of the first occurrence of `p` in `s`.
pub fn find_chars(s: &[char], p: &[char]) -> (r: Option<usize>)
    ensures
        r matches Some(i) ==> find(s@, p@) == Some(i as int) && occurs_at(s@, p@, i as int)
            && forall|j: int| 0 <= j < i ==> !occurs_at(s@, p@, j),
        r is None ==> find(s@, p@) is None,
{
    let r = find_from(s, p, 0);
    match r {
        Some(i) => {
            assert(contains(s@, p@));
            let ghost k = choose|k: int|
                occurs_at(s@, p@, k) && forall|j: int| 0 <= j < k ==> !occurs_at(s@, p@, j);
            assert(k == i);
        },
        None => {},
    }
    r
}

pub fn contains_chars(s: &[char], p: &[char]) -> (r: bool)
    ensures
        r == contains(s@, p@),
{
    find_from(s, p, 0).is_some()
}

/// Index of the first `c` in `s`.
pub fn find_char_exec(s: &[char], c: char) -> (r: Option<usize>)
    ensures
        r matches Some(i) ==> find_char(s@, c) == Some(i as int) && i < s.len() && s@[i as int]
            == c && forall|j: int| 0 <= j < i ==> s@[j] != c,
        r is None ==> find_char(s@, c) is None && !s@.contains(c),
{
    let mut i: usize = 0;
    while i < s.len()
        invariant
            0 <= i <= s.len(),
            forall|j: int| 0 <= j < i ==> s@[j] != c,
        decreases s.len() - i,
    {
        if s[i] == c {
            assert(s@.contains(c));
            let ghost k = choose|k: int|
                0 <= k < s@.len() && s@[k] == c && forall|j: int| 0 <= j < k ==> s@[j] != c;
            assert(k == i);
            return Some(i);
        }
        i = i + 1;
    }
    None
}

/// Index of the last `c` in `s`.
pub fn rfind_char_exec(s: &[char], c: char) -> (r: Option<usize>)
    ensures
        r matches Some(i) ==> rfind_char(s@, c) == Some(i as int) && i < s.len() && s@[i as int]
            == c,
        r is None ==> rfind_char(s@, c) is None && !s@.contains(c),
{
    let mut i: usize = s.len();
    while i > 0
        invariant
            0 <= i <= s.len(),
            forall|j: int| i <= j < s.len() ==> s@[j] != c,
        decreases i,
    {
        if s[i - 1] == c {
            assert(s@.contains(c));
            let ghost k = choose|k: int|
                0 <= k < s@.len() && s@[k] == c && forall|j: int| k < j < s@.len() ==> s@[j] != c;
            assert(k == i - 1);
            return Some(i - 1);
        }
        i = i - 1;
    }
    None
}

// ---------------------------------------------------------------------------
// Trimming
// ---------------------------------------------------------------------------

/// `str::trim_start`: leading white space removed.
pub open spec fn trim_start(s: Seq<char>) -> Seq<char>
    decreases s.len(),
{
    if s.len() > 0 && is_ws(s[0]) {
        trim_start(s.drop_first())
    } else {
        s
    }
}

/// `str::trim_end`: trailing white space removed.
pub open spec fn trim_end(s: Seq<char>) -> Seq<char>
    decreases s.len(),
{
    if s.len() > 0 && is_ws(s.last()) {
        trim_end(s.drop_last())
    } else {
        s
    }
}

/// `str::trim`: white space removed at both ends.
pub open spec fn trim(s: Seq<char>) -> Seq<char> {
    trim_end(trim_start(s))
}

/// Number of leading white space chars of `s`.
pub open spec fn leading_ws(s: Seq<char>) -> int
    decreases s.len(),
{
    if s.len() > 0 && is_ws(s[0]) {
        1 + leading_ws(s.drop_first())
    } else {
        0
    }
}

/// Number of trailing white space chars of `s`.
pub open spec fn trailing_ws(s: Seq<char>) -> int
    decreases s.len(),
{
    if s.len() > 0 && is_ws(s.last()) {
        1 + trailing_ws(s.drop_last())
    } else {
        0
    }
}

pub proof fn lemma_leading_ws(s: Seq<char>)
    ensures
        0 <= leading_ws(s) <= s.len(),
        trim_start(s) == s.skip(leading_ws(s)),
        forall|j: int| 0 <= j < leading_ws(s) ==> is_ws(s[j]),
        leading_ws(s) < s.len() ==> !is_ws(s[leading_ws(s)]),
    decreases s.len(),
{
    if s.len() > 0 && is_ws(s[0]) {
        lemma_leading_ws(s.drop_first());
        assert(s.drop_first().skip(leading_ws(s.drop_first())) == s.skip(leading_ws(s)));
        assert forall|j: int| 0 <= j < leading_ws(s) implies is_ws(s[j]) by {
            if j > 0 {
                assert(s[j] == s.drop_first()[j - 1]);
            }
        }
        if leading_ws(s) < s.len() {
            assert(s[leading_ws(s)] == s.drop_first()[leading_ws(s.drop_first())]);
        }
    } else {
        assert(s.skip(0) == s);
    }
}

pub proof fn lemma_trailing_ws(s: Seq<char>)
    ensures
        0 <= trailing_ws(s) <= s.len(),
        trim_end(s) == s.take(s.len() - trailing_ws(s)),
        forall|j: int| s.len() - trailing_ws(s) <= j < s.len() ==> is_ws(s[j]),
        trailing_ws(s) < s.len() ==> !is_ws(s[s.len() - trailing_ws(s) - 1]),
    decreases s.len(),
{
    if s.len() > 0 && is_ws(s.last()) {
        lemma_trailing_ws(s.drop_last());
        assert(s.drop_last().take(s.drop_last().len() - trailing_ws(s.drop_last())) == s.take(
            s.len() - trailing_ws(s),
        ));
        assert forall|j: int| s.len() - trailing_ws(s) <= j < s.len() implies is_ws(s[j]) by {
            if j < s.len() - 1 {
                assert(s[j] == s.drop_last()[j]);
            }
        }
    } else {
        assert(s.take(s.len() as int) == s);
    }
}

/// `str::trim_start` on chars.
pub fn trim_start_chars(v: &[char]) -> (r: Vec<char>)
    ensures
        r@ == trim_start(v@),
{
    proof {
        lemma_leading_ws(v@);
    }
    let mut i: usize = 0;
    while i < v.len() && is_white_space(v[i])
        invariant
            0 <= i <= v.len(),
            i <= leading_ws(v@),
            forall|j: int| 0 <= j < i ==> is_ws(v@[j]),
            0 <= leading_ws(v@) <= v@.len(),
            forall|j: int| 0 <= j < leading_ws(v@) ==> is_ws(v@[j]),
            leading_ws(v@) < v@.len() ==> !is_ws(v@[leading_ws(v@)]),
        decreases v.len() - i,
    {
        i = i + 1;
    }
    assert(i == leading_ws(v@));
    slice_chars(v, i, v.len())
}

/// `str::trim_end` on chars.
pub fn trim_end_chars(v: &[char]) -> (r: Vec<char>)
    ensures
        r@ == trim_end(v@),
{
    proof {
        lemma_trailing_ws(v@);
    }
    let mut i: usize = v.len();
    while i > 0 && is_white_space(v[i - 1])
        invariant
            0 <= i <= v.len(),
            v.len() - i <= trailing_ws(v@),
            0 <= trailing_ws(v@) <= v@.len(),
            forall|j: int| v@.len() - trailing_ws(v@) <= j < v@.len() ==> is_ws(v@[j]),
            trailing_ws(v@) < v@.len() ==> !is_ws(v@[v@.len() - trailing_ws(v@) - 1]),
        decreases i,
    {
        i = i - 1;
    }
    assert(i == v.len() - trailing_ws(v@));
    slice_chars(v, 0, i)
}

/// `str::trim` on chars.
pub fn trim_chars(v: &[char]) -> (r: Vec<char>)
    ensures
        r@ == trim(v@),
{
    let a = trim_start_chars(v);
    trim_end_chars(a.as_slice())
}

// ---------------------------------------------------------------------------
// Lines
// ---------------------------------------------------------------------------

/// Left fold that splits at `\n`: the finished lines and the line in progress.
pub open spec fn split_nl(s: Seq<char>) -> (Seq<Seq<char>>, Seq<char>)
    decreases s.len(),
{
    if s.len() == 0 {
        (Seq::empty(), Seq::empty())
    } else {
        let (done, cur) = split_nl(s.drop_last());
        if s.last() == '\n' {
            (done.push(cur), Seq::empty())
        } else {
            (done, cur.push(s.last()))
        }
    }
}

/// A line without the `\r` of a `\r\n` ending.
pub open spec fn strip_cr(l: Seq<char>) -> Seq<char> {
    if l.len() > 0 && l.last() == '\r' {
        l.drop_last()
    } else {
        l
    }
}

/// `str::lines`: split at `\n`, the `\r` of a `\r\n` ending dropped, and no
/// empty last line after a final `\n`; a last line without `\n` is kept as
/// it is, a final bare `\r` included.
pub open spec fn lines(s: Seq<char>) -> Seq<Seq<char>> {
    let (done, cur) = split_nl(s);
    let ended = done.map_values(|l: Seq<char>| strip_cr(l));
    if cur.len() > 0 {
        ended.push(cur)
    } else {
        ended
    }
}

/// `str::split('\n')`: every piece, the last one included even when empty.
pub open spec fn split_newlines(s: Seq<char>) -> Seq<Seq<char>> {
    let (done, cur) = split_nl(s);
    done.push(cur)
}

/// Views of a vector of char vectors.
pub open spec fn views(v: Seq<Vec<char>>) -> Seq<Seq<char>> {
    v.map_values(|x: Vec<char>| x@)
}

pub fn strip_cr_chars(v: Vec<char>) -> (r: Vec<char>)
    ensures
        r@ == strip_cr(v@),
{
    let mut v = v;
    if v.len() > 0 && v[v.len() - 1] == '\r' {
        v.pop();
    }
    v
}

/// `split_nl` as a loop.
pub fn split_nl_exec(s: &[char]) -> (r: (Vec<Vec<char>>, Vec<char>))
    ensures
        (views(r.0@), r.1@) == split_nl(s@),
{
    let mut done: Vec<Vec<char>> = Vec::new();
    let mut cur: Vec<char> = Vec::new();
    let mut i: usize = 0;
    while i < s.len()
        invariant
            0 <= i <= s.len(),
            (views(done@), cur@) == split_nl(s@.take(i as int)),
        decreases s.len() - i,
    {
        let c = s[i];
        assert(s@.take(i + 1).drop_last() == s@.take(i as int));
        if c == '\n' {
            let finished = cur;
            cur = Vec::new();
            done.push(finished);
            assert(views(done@) == views(done@.drop_last()).push(finished@));
        } else {
            cur.push(c);
        }
        i = i + 1;
    }
    assert(s@.take(s.len() as int) == s@);
    (done, cur)
}

/// `str::lines` on chars.
pub fn lines_exec(s: &[char]) -> (r: Vec<Vec<char>>)
    ensures
        views(r@) == lines(s@),
{
    let (done, cur) = split_nl_exec(s);
    let ghost all = views(done@);
    let mut out: Vec<Vec<char>> = Vec::new();
    let mut i: usize = 0;
    while i < done.len()
        invariant
            0 <= i <= done.len(),
            views(done@) == all,
            views(out@) == all.take(i as int).map_values(|l: Seq<char>| strip_cr(l)),
        decreases done.len() - i,
    {
        let line = copy_chars(done[i].as_slice());
        assert(line@ == all[i as int]);
        let stripped = strip_cr_chars(line);
        out.push(stripped);
        assert(all.take(i + 1) == all.take(i as int).push(all[i as int]));
        assert(all.take(i + 1).map_values(|l: Seq<char>| strip_cr(l)) == all.take(
            i as int,
        ).map_values(|l: Seq<char>| strip_cr(l)).push(strip_cr(all[i as int])));
        assert(views(out@) == views(out@.drop_last()).push(stripped@));
        i = i + 1;
    }
    assert(all.take(done.len() as int) == all);
    if cur.len() > 0 {
        let ghost before = out@;
        out.push(cur);
        assert(views(out@) == views(before).push(cur@));
    }
    out
}

/// `str::split('\n')` on chars.
pub fn split_newlines_exec(s: &[char]) -> (r: Vec<Vec<char>>)
    ensures
        views(r@) == split_newlines(s@),
        r@.len() >= 1,
{
    let (mut done, cur) = split_nl_exec(s);
    let ghost d = done@;
    done.push(cur);
    assert(views(done@) == views(d).push(cur@));
    done
}


// ---------------------------------------------------------------------------
// Trimming a given char, joining
// ---------------------------------------------------------------------------

/// `str::trim_start_matches(c)`: every leading `c` removed.
pub open spec fn trim_start_char(s: Seq<char>, c: char) -> Seq<char>
    decreases s.len(),
{
    if s.len() > 0 && s[0] == c {
        trim_start_char(s.drop_first(), c)
    } else {
        s
    }
}

/// `str::trim_end_matches(c)`: every trailing `c` removed.
pub open spec fn trim_end_char(s: Seq<char>, c: char) -> Seq<char>
    decreases s.len(),
{
    if s.len() > 0 && s.last() == c {
        trim_end_char(s.drop_last(), c)
    } else {
        s
    }
}

/// `str::trim_matches(c)`: every leading and trailing `c` removed.
pub open spec fn trim_char(s: Seq<char>, c: char) -> Seq<char> {
    trim_end_char(trim_start_char(s, c), c)
}

pub fn trim_start_char_exec(v: &[char], c: char) -> (r: Vec<char>)
    ensures
        r@ == trim_start_char(v@, c),
{
    let mut i: usize = 0;
    assert(v@.skip(0) == v@);
    while i < v.len() && v[i] == c
        invariant
            0 <= i <= v.len(),
            trim_start_char(v@.skip(i as int), c) == trim_start_char(v@, c),
        decreases v.len() - i,
    {
        assert(v@.skip(i as int).drop_first() == v@.skip(i + 1));
        i = i + 1;
    }
    let r = slice_chars(v, i, v.len());
    assert(r@ == v@.skip(i as int));
    r
}

pub fn trim_end_char_exec(v: &[char], c: char) -> (r: Vec<char>)
    ensures
        r@ == trim_end_char(v@, c),
{
    let mut i: usize = v.len();
    assert(v@.take(v@.len() as int) == v@);
    while i > 0 && v[i - 1] == c
        invariant
            0 <= i <= v.len(),
            trim_end_char(v@.take(i as int), c) == trim_end_char(v@, c),
        decreases i,
    {
        assert(v@.take(i as int).drop_last() == v@.take(i - 1));
        i = i - 1;
    }
    let r = slice_chars(v, 0, i);
    assert(r@ == v@.take(i as int));
    assert(v@.take(v@.len() as int) == v@);
    r
}

pub fn trim_char_exec(v: &[char], c: char) -> (r: Vec<char>)
    ensures
        r@ == trim_char(v@, c),
{
    let a = trim_start_char_exec(v, c);
    trim_end_char_exec(a.as_slice(), c)
}

/// `join(sep)`: the pieces with `sep` between neighbours.
pub open spec fn join(parts: Seq<Seq<char>>, sep: Seq<char>) -> Seq<char>
    decreases parts.len(),
{
    if parts.len() == 0 {
        Seq::empty()
    } else if parts.len() == 1 {
        parts[0]
    } else {
        join(parts.drop_last(), sep) + sep + parts.last()
    }
}

pub fn join_exec(parts: &Vec<Vec<char>>, sep: &[char]) -> (r: Vec<char>)
    ensures
        r@ == join(views(parts@), sep@),
{
    let mut r: Vec<char> = Vec::new();
    let mut i: usize = 0;
    while i < parts.len()
        invariant
            0 <= i <= parts.len(),
            r@ == join(views(parts@).take(i as int), sep@),
        decreases parts.len() - i,
    {
        let ghost pre = views(parts@).take(i as int);
        assert(views(parts@).take(i + 1).drop_last() == pre);
        if i > 0 {
            r = concat_chars(r.as_slice(), sep);
        } else {
            assert(views(parts@).take(1)[0] == parts@[0]@);
        }
        r = concat_chars(r.as_slice(), parts[i].as_slice());
        i = i + 1;
    }
    assert(views(parts@).take(parts.len() as int) == views(parts@));
    r
}

/// `join` over a vector of `String`s.
pub open spec fn string_views(v: Seq<String>) -> Seq<Seq<char>> {
    v.map_values(|x: String| x@)
}

pub fn join_strings(parts: &Vec<String>, sep: &[char]) -> (r: Vec<char>)
    ensures
        r@ == join(string_views(parts@), sep@),
{
    let mut vs: Vec<Vec<char>> = Vec::new();
    let mut i: usize = 0;
    while i < parts.len()
        invariant
            0 <= i <= parts.len(),
            views(vs@) == string_views(parts@).take(i as int),
        decreases parts.len() - i,
    {
        let c = chars_of(parts[i].as_str());
        let ghost before = vs@;
        vs.push(c);
        assert(views(vs@) == views(before).push(c@));
        assert(string_views(parts@).take(i + 1) == string_views(parts@).take(i as int).push(
            parts@[i as int]@,
        ));
        i = i + 1;
    }
    assert(string_views(parts@).take(parts.len() as int) == string_views(parts@));
    join_exec(&vs, sep)
}

/// `c` does not occur in `s`.
pub open spec fn free_of(s: Seq<char>, c: char) -> bool {
    forall|i: int| 0 <= i < s.len() ==> s[i] != c
}

/// `s` ends in a carriage return.
pub open spec fn ends_in_cr(s: Seq<char>) -> bool {
    s.len() > 0 && s.last() == '\r'
}

proof fn lemma_split_nl_append(s: Seq<char>, t: Seq<char>)
    requires
        free_of(t, '\n'),
    ensures
        split_nl(s + t) == (split_nl(s).0, split_nl(s).1 + t),
    decreases t.len(),
{
    if t.len() == 0 {
        assert(s + t == s);
        assert(split_nl(s).1 + t == split_nl(s).1);
    } else {
        lemma_split_nl_append(s, t.drop_last());
        assert((s + t).drop_last() == s + t.drop_last());
        assert((s + t).last() == t[t.len() - 1]);
        assert((split_nl(s).1 + t.drop_last()).push(t.last()) == split_nl(s).1 + t);
    }
}

proof fn lemma_split_nl_free(s: Seq<char>)
    ensures
        forall|i: int| 0 <= i < split_nl(s).0.len() ==> free_of(#[trigger] split_nl(s).0[i], '\n'),
        free_of(split_nl(s).1, '\n'),
    decreases s.len(),
{
    if s.len() > 0 {
        lemma_split_nl_free(s.drop_last());
        let (done, cur) = split_nl(s.drop_last());
        if s.last() == '\n' {
            assert forall|i: int| 0 <= i < done.push(cur).len() implies free_of(
                #[trigger] done.push(cur)[i],
                '\n',
            ) by {
                if i < done.len() {
                    assert(done.push(cur)[i] == done[i]);
                }
            }
        } else {
            assert forall|i: int| 0 <= i < cur.push(s.last()).len() implies cur.push(s.last())[i]
                != '\n' by {
                if i < cur.len() {
                    assert(cur.push(s.last())[i] == cur[i]);
                }
            }
        }
    }
}

/// The lines of a text hold no `\n`.
pub proof fn lemma_lines_free(s: Seq<char>)
    ensures
        forall|i: int| 0 <= i < lines(s).len() ==> free_of(#[trigger] lines(s)[i], '\n'),
{
    lemma_split_nl_free(s);
    let (done, cur) = split_nl(s);
    assert forall|i: int| 0 <= i < lines(s).len() implies free_of(#[trigger] lines(s)[i], '\n') by {
        if i < done.len() {
            assert(lines(s)[i] == strip_cr(done[i]));
            let l = done[i];
            if l.len() > 0 && l.last() == '\r' {
                assert forall|k: int| 0 <= k < l.drop_last().len() implies l.drop_last()[k]
                    != '\n' by {
                    assert(l.drop_last()[k] == l[k]);
                }
            }
        } else {
            assert(lines(s)[i] == cur);
        }
    }
}

proof fn lemma_split_join(ls: Seq<Seq<char>>)
    requires
        ls.len() > 0,
        forall|i: int| 0 <= i < ls.len() ==> free_of(#[trigger] ls[i], '\n'),
    ensures
        split_nl(join(ls, "\n"@)) == (ls.drop_last(), ls.last()),
    decreases ls.len(),
{
    reveal_strlit("\n");
    if ls.len() == 1 {
        assert(free_of(ls[0], '\n'));
        lemma_split_nl_append(Seq::empty(), ls[0]);
        assert(Seq::<char>::empty() + ls[0] == ls[0]);
        assert(ls.drop_last() == Seq::<Seq<char>>::empty());
    } else {
        let dl = ls.drop_last();
        assert forall|i: int| 0 <= i < dl.len() implies free_of(#[trigger] dl[i], '\n') by {
            assert(dl[i] == ls[i]);
        }
        lemma_split_join(dl);
        let j = join(dl, "\n"@);
        assert(j + "\n"@ == j.push('\n'));
        assert(j.push('\n').drop_last() == j);
        assert(dl.drop_last().push(dl.last()) == dl);
        assert(split_nl(j.push('\n')) == (dl, Seq::<char>::empty()));
        assert(free_of(ls[ls.len() - 1], '\n'));
        lemma_split_nl_append(j.push('\n'), ls.last());
        assert(Seq::<char>::empty() + ls.last() == ls.last());
    }
}

proof fn lemma_split_nl_keeps(s: Seq<char>, r: Seq<char>)
    ensures
        split_nl(s + r).0.len() >= split_nl(s).0.len(),
        forall|i: int| 0 <= i < split_nl(s).0.len() ==> #[trigger] split_nl(s + r).0[i] == split_nl(s).0[i],
    decreases r.len(),
{
    if r.len() == 0 {
        assert(s + r == s);
    } else {
        lemma_split_nl_keeps(s, r.drop_last());
        assert((s + r).drop_last() == s + r.drop_last());
        assert((s + r).last() == r.last());
        let (d, c) = split_nl(s + r.drop_last());
        assert forall|i: int| 0 <= i < split_nl(s).0.len() implies #[trigger] split_nl(s + r).0[i] == split_nl(s).0[i] by {
            if r.last() == '\n' {
                assert(d.push(c)[i] == d[i]);
            }
        }
    }
}

/// The first line of a text that starts with a line `a` and a break is `a`.
pub proof fn lemma_first_line(a: Seq<char>, r: Seq<char>)
    requires
        free_of(a, '\n'),
        !ends_in_cr(a),
    ensures
        lines(a + "\n"@ + r).len() > 0,
        lines(a + "\n"@ + r)[0] == a,
{
    reveal_strlit("\n");
    lemma_split_nl_append(Seq::empty(), a);
    assert(Seq::<char>::empty() + a == a);
    let an = a.push('\n');
    assert(an.drop_last() == a);
    assert(split_nl(an).0 == seq![a]);
    assert(a + "\n"@ + r == an + r);
    lemma_split_nl_keeps(an, r);
    let (done, cur) = split_nl(an + r);
    assert(done[0] == a);
    assert(lines(an + r)[0] == strip_cr(a));
}

/// Joining lines with `\n` and splitting the text into lines again gives
/// them back, when no line holds a `\n`, no line but the last ends in `\r`,
/// and the last one is not empty.
pub proof fn lemma_lines_join(ls: Seq<Seq<char>>)
    requires
        ls.len() > 0,
        ls.last().len() > 0,
        forall|i: int| 0 <= i < ls.len() ==> free_of(#[trigger] ls[i], '\n'),
        forall|i: int| 0 <= i < ls.len() - 1 ==> !ends_in_cr(#[trigger] ls[i]),
    ensures
        lines(join(ls, "\n"@)) == ls,
{
    lemma_split_join(ls);
    let dl = ls.drop_last();
    assert(dl.map_values(|l: Seq<char>| strip_cr(l)) =~= dl) by {
        assert forall|i: int| 0 <= i < dl.len() implies strip_cr(dl[i]) == dl[i] by {
            assert(dl[i] == ls[i]);
            assert(!ends_in_cr(ls[i]));
        }
    }
    assert(dl.push(ls.last()) == ls);
}

/// A text that starts with `q` agrees with `q` on each of its chars.
pub proof fn lemma_starts_with_chars(s: Seq<char>, q: Seq<char>)
    ensures
        starts_with(s, q) ==> forall|k: int| 0 <= k < q.len() ==> s[k] == #[trigger] q[k],
{
    if starts_with(s, q) {
        assert forall|k: int| 0 <= k < q.len() implies s[k] == #[trigger] q[k] by {
            assert(s.take(q.len() as int)[k] == s[k]);
        }
    }
}

/// A text that does not end in white space, followed by white space, trims
/// at its end to that text.
pub proof fn lemma_trim_end_before_ws(a: Seq<char>, b: Seq<char>)
    requires
        forall|i: int| 0 <= i < b.len() ==> is_ws(#[trigger] b[i]),
        a.len() == 0 || !is_ws(a.last()),
    ensures
        trim_end(a + b) == a,
    decreases b.len(),
{
    if b.len() == 0 {
        assert(a + b == a);
    } else {
        assert((a + b).last() == b[b.len() - 1]);
        assert((a + b).drop_last() == a + b.drop_last());
        assert forall|i: int| 0 <= i < b.drop_last().len() implies is_ws(#[trigger] b.drop_last()[i]) by {
            assert(b.drop_last()[i] == b[i]);
        }
        lemma_trim_end_before_ws(a, b.drop_last());
    }
}

/// A word of ASCII lowercase letters is ASCII, its own lowercase, and the
/// lowercase of its uppercase; neither it nor its uppercase starts or ends
/// with white space.
pub proof fn lemma_lower_word(w: Seq<char>)
    requires
        w.len() > 0,
        forall|i: int| 0 <= i < w.len() ==> is_lower(#[trigger] w[i]),
    ensures
        is_ascii_text(w),
        lower_seq(w) == w,
        is_ascii_text(upper_seq(w)),
        lower_seq(upper_seq(w)) == w,
        upper_seq(w).len() == w.len(),
        !is_ws(w[0]),
        !is_ws(w.last()),
        !is_ws(upper_seq(w)[0]),
        !is_ws(upper_seq(w).last()),
{
    assert(lower_seq(w) =~= w);
    assert(lower_seq(upper_seq(w)) =~= w);
    assert(w.last() == w[w.len() - 1]);
    assert(upper_seq(w).last() == upper_seq(w)[w.len() - 1]);
}

/// A text that neither starts nor ends with white space trims to itself,
/// also with a space on each side.
pub proof fn lemma_trim_padded(a: Seq<char>)
    requires
        a.len() > 0,
        !is_ws(a[0]),
        !is_ws(a.last()),
    ensures
        trim(a) == a,
        trim(" "@ + a + " "@) == a,
        trim(" "@ + a) == a,
{
    reveal_strlit(" ");
    lemma_trim_start_after_ws(Seq::empty(), a);
    assert(Seq::<char>::empty() + a == a);
    lemma_trim_end_before_ws(a, Seq::empty());
    assert(a + Seq::<char>::empty() == a);
    assert(" "@ + a + " "@ == " "@ + (a + " "@));
    assert((a + " "@)[0] == a[0]);
    lemma_trim_start_after_ws(" "@, a + " "@);
    lemma_trim_end_before_ws(a, " "@);
    lemma_trim_start_after_ws(" "@, a);
}

/// Leading white space followed by a text that does not start with white
/// space trims to that text.
pub proof fn lemma_trim_start_after_ws(a: Seq<char>, b: Seq<char>)
    requires
        forall|i: int| 0 <= i < a.len() ==> is_ws(#[trigger] a[i]),
        b.len() == 0 || !is_ws(b[0]),
    ensures
        trim_start(a + b) == b,
    decreases a.len(),
{
    if a.len() == 0 {
        assert(a + b == b);
    } else {
        assert((a + b)[0] == a[0]);
        assert((a + b).drop_first() == a.drop_first() + b);
        assert forall|i: int| 0 <= i < a.drop_first().len() implies is_ws(#[trigger] a.drop_first()[i]) by {
            assert(a.drop_first()[i] == a[i + 1]);
        }
        lemma_trim_start_after_ws(a.drop_first(), b);
    }
}

} // verus!

verus! {

// ---------------------------------------------------------------------------
// Decimal numbers
// ---------------------------------------------------------------------------

/// The ASCII digit for `d` (0 to 9).
pub open spec fn digit_char(d: nat) -> char {
    if d == 0 {
        '0'
    } else if d == 1 {
        '1'
    } else if d == 2 {
        '2'
    } else if d == 3 {
        '3'
    } else if d == 4 {
        '4'
    } else if d == 5 {
        '5'
    } else if d == 6 {
        '6'
    } else if d == 7 {
        '7'
    } else if d == 8 {
        '8'
    } else {
        '9'
    }
}

/// Decimal digits of `n`, most significant first, without leading zeros.
pub open spec fn dec_digits(n: nat) -> Seq<char>
    decreases n,
{
    if n < 10 {
        seq![digit_char(n)]
    } else {
        dec_digits(n / 10).push(digit_char(n % 10))
    }
}

/// `d` padded with leading zeros to at least `w` chars.
pub open spec fn zero_pad(d: Seq<char>, w: nat) -> Seq<char> {
    if d.len() < w {
        Seq::new((w - d.len()) as nat, |i: int| '0') + d
    } else {
        d
    }
}

pub fn digit_exec(d: u128) -> (c: char)
    requires
        d < 10,
    ensures
        c == digit_char(d as nat),
{
    if d == 0 {
        '0'
    } else if d == 1 {
        '1'
    } else if d == 2 {
        '2'
    } else if d == 3 {
        '3'
    } else if d == 4 {
        '4'
    } else if d == 5 {
        '5'
    } else if d == 6 {
        '6'
    } else if d == 7 {
        '7'
    } else if d == 8 {
        '8'
    } else {
        '9'
    }
}

/// Decimal digits of `n`.
pub fn decimal_chars(n: u128) -> (r: Vec<char>)
    ensures
        r@ == dec_digits(n as nat),
{
    let mut m: u128 = n;
    let mut acc: Vec<char> = Vec::new();
    while m >= 10
        invariant
            dec_digits(n as nat) == dec_digits(m as nat) + acc@,
        decreases m,
    {
        let d = digit_exec(m % 10);
        let ghost before = acc@;
        acc.insert(0, d);
        assert(dec_digits(m as nat) == dec_digits((m / 10) as nat).push(d));
        assert(acc@ == seq![d] + before);
        assert(dec_digits((m / 10) as nat).push(d) + before == dec_digits((m / 10) as nat) + (seq![d] + before));
        m = m / 10;
    }
    let d = digit_exec(m);
    let ghost before = acc@;
    acc.insert(0, d);
    assert(acc@ == seq![d] + before);
    acc
}

/// Decimal digits of `n`, zero-padded to at least `w` chars.
pub fn zero_padded(n: u128, w: usize) -> (r: Vec<char>)
    ensures
        r@ == zero_pad(dec_digits(n as nat), w as nat),
{
    let d = decimal_chars(n);
    if d.len() < w {
        let mut out: Vec<char> = Vec::new();
        let k = w - d.len();
        let mut i: usize = 0;
        while i < k
            invariant
                0 <= i <= k,
                out@ == Seq::new(i as nat, |j: int| '0'),
            decreases k - i,
        {
            out.push('0');
            assert(out@ =~= Seq::new((i + 1) as nat, |j: int| '0'));
            i = i + 1;
        }
        concat_chars(out.as_slice(), d.as_slice())
    } else {
        d
    }
}

} // verus!

verus! {

// ---------------------------------------------------------------------------
// Suffix removal and ordering
// ---------------------------------------------------------------------------

/// `str::trim_end_matches` with a text pattern: `p` removed from the end as
/// often as it is there.
pub open spec fn trim_end_str(s: Seq<char>, p: Seq<char>) -> Seq<char>
    decreases s.len(),
{
    if p.len() > 0 && ends_with(s, p) {
        trim_end_str(s.take(s.len() - p.len()), p)
    } else {
        s
    }
}

pub fn trim_end_str_exec(s: &[char], p: &[char]) -> (r: Vec<char>)
    ensures
        r@ == trim_end_str(s@, p@),
{
    let mut end: usize = s.len();
    assert(s@.take(s@.len() as int) == s@);
    while p.len() > 0 && end >= p.len() && occurs_at_exec(s, p, end - p.len())
        invariant
            0 <= end <= s@.len(),
            trim_end_str(s@, p@) == trim_end_str(s@.take(end as int), p@),
        decreases end,
    {
        let ghost t = s@.take(end as int);
        assert(t.skip(t.len() - p@.len()) == s@.subrange(end - p@.len(), end as int));
        assert(ends_with(t, p@));
        assert(t.take(t.len() - p@.len()) == s@.take(end - p@.len()));
        end = end - p.len();
    }
    proof {
        let t = s@.take(end as int);
        if p@.len() > 0 && ends_with(t, p@) {
            assert(t.skip(t.len() - p@.len()) == s@.subrange(end - p@.len(), end as int));
            assert(occurs_at(s@, p@, end - p@.len()));
        }
    }
    slice_chars(s, 0, end)
}

/// Lexicographic order of texts by code point (the order `str` compares in,
/// UTF-8 keeping code point order).
pub open spec fn lex_lt(a: Seq<char>, b: Seq<char>) -> bool
    decreases a.len(),
{
    if a.len() == 0 {
        b.len() > 0
    } else if b.len() == 0 {
        false
    } else if a[0] != b[0] {
        (a[0] as u32) < (b[0] as u32)
    } else {
        lex_lt(a.drop_first(), b.drop_first())
    }
}

/// Whether `a` sorts before `b`.
pub fn lex_less(a: &[char], b: &[char]) -> (r: bool)
    ensures
        r == lex_lt(a@, b@),
{
    let mut i: usize = 0;
    assert(a@.skip(0) == a@ && b@.skip(0) == b@);
    while i < a.len() && i < b.len() && a[i] == b[i]
        invariant
            0 <= i <= a@.len(),
            i <= b@.len(),
            lex_lt(a@, b@) == lex_lt(a@.skip(i as int), b@.skip(i as int)),
        decreases a.len() - i,
    {
        assert(a@.skip(i as int).drop_first() == a@.skip(i + 1));
        assert(b@.skip(i as int).drop_first() == b@.skip(i + 1));
        i = i + 1;
    }
    if i == a.len() {
        i < b.len()
    } else if i == b.len() {
        false
    } else {
        (a[i] as u32) < (b[i] as u32)
    }
}

} // verus!

verus! {

// ---------------------------------------------------------------------------
// Last occurrence of a text
// ---------------------------------------------------------------------------

/// Index of the last occurrence of `p` in `s`.
pub open spec fn rfind(s: Seq<char>, p: Seq<char>) -> Option<int> {
    if contains(s, p) {
        Some(choose|i: int| occurs_at(s, p, i) && forall|j: int| i < j ==> !occurs_at(s, p, j))
    } else {
        None
    }
}

/// Index of the last occurrence of `p` in `s`.
pub fn rfind_chars(s: &[char], p: &[char]) -> (r: Option<usize>)
    ensures
        r matches Some(i) ==> rfind(s@, p@) == Some(i as int) && occurs_at(s@, p@, i as int),
        r is None ==> rfind(s@, p@) is None,
{
    if p.len() > s.len() {
        assert forall|j: int| !occurs_at(s@, p@, j) by {}
        return None;
    }
    let mut i: usize = s.len() - p.len();
    loop
        invariant
            p.len() <= s.len(),
            0 <= i <= s.len() - p.len(),
            forall|j: int| i < j ==> !occurs_at(s@, p@, j),
        decreases i,
    {
        if occurs_at_exec(s, p, i) {
            assert(contains(s@, p@));
            let ghost c = choose|c: int|
                occurs_at(s@, p@, c) && forall|j: int| c < j ==> !occurs_at(s@, p@, j);
            assert(c == i) by {
                if c < i {
                    assert(!occurs_at(s@, p@, i as int));
                }
            }
            return Some(i);
        }
        if i == 0 {
            assert forall|j: int| !occurs_at(s@, p@, j) by {
                if j < 0 {
                }
            }
            return None;
        }
        i = i - 1;
    }
}

} // verus!

verus! {

// ---------------------------------------------------------------------------
// Splitting at a char
// ---------------------------------------------------------------------------

/// Left fold that splits at `sep`: the finished pieces and the one in progress.
pub open spec fn split_at_fold(s: Seq<char>, sep: char) -> (Seq<Seq<char>>, Seq<char>)
    decreases s.len(),
{
    if s.len() == 0 {
        (Seq::empty(), Seq::empty())
    } else {
        let (done, cur) = split_at_fold(s.drop_last(), sep);
        if s.last() == sep {
            (done.push(cur), Seq::empty())
        } else {
            (done, cur.push(s.last()))
        }
    }
}

/// `str::split(sep)`: every piece, empty ones included.
pub open spec fn pieces(s: Seq<char>, sep: char) -> Seq<Seq<char>> {
    let (done, cur) = split_at_fold(s, sep);
    done.push(cur)
}

/// The pieces of `s` between occurrences of `sep`.
pub fn pieces_exec(s: &[char], sep: char) -> (r: Vec<Vec<char>>)
    ensures
        views(r@) == pieces(s@, sep),
{
    let mut done: Vec<Vec<char>> = Vec::new();
    let mut cur: Vec<char> = Vec::new();
    let mut i: usize = 0;
    assert(views(done@) =~= Seq::<Seq<char>>::empty());
    while i < s.len()
        invariant
            0 <= i <= s.len(),
            (views(done@), cur@) == split_at_fold(s@.take(i as int), sep),
        decreases s.len() - i,
    {
        let c = s[i];
        assert(s@.take(i + 1).drop_last() == s@.take(i as int));
        if c == sep {
            let finished = cur;
            cur = Vec::new();
            done.push(finished);
            assert(views(done@) == views(done@.drop_last()).push(finished@));
        } else {
            cur.push(c);
        }
        i = i + 1;
    }
    assert(s@.take(s.len() as int) == s@);
    let ghost d = views(done@);
    done.push(cur);
    assert(views(done@) == d.push(views(done@).last()));
    done
}

} // verus!

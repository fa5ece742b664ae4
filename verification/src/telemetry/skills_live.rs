//! Skills telemetry derived from the Pi session JSONL: the tracker
//! heuristics of pi-plugin-dev replayed over the session's tool-call trail.
//!
//! - `read` on a `SKILL.md`          → skill activation
//! - `read` under `/references/`     → guidance reference loaded
//! - `read` in pi engine docs        → `doc_consult` action
//! - `read` of any other file        → inspected file
//! - `edit` / `write`                → modification + compliance gates
//! - `bash`                          → shell verification action
use crate::text::{chars_of, pieces, string_of, trim};
use vstd::prelude::*;
use vstd::utf8::encode_utf8;

verus! {

// ---------------------------------------------------------------------------
// Comment stripping
// ---------------------------------------------------------------------------

/// Where the comment-blind scanner is.
#[derive(Debug, Clone, Copy, PartialEq, Eq, Structural)]
pub enum ScanMode {
    /// Plain code.
    Code,
    /// Inside a `"` string.
    Str,
    /// Right after a `\` inside a string.
    StrEscape,
    /// After a `/` in code, not yet known to start a comment.
    Slash,
    /// Inside a `//` comment.
    Line,
    /// Inside a `/* */` comment.
    Block,
    /// Inside a block comment, right after a `*`.
    BlockStar,
}

/// One char of the scanner: what it emits and where it goes.
pub open spec fn scan_step(m: ScanMode, c: char) -> (Seq<char>, ScanMode) {
    match m {
        ScanMode::Code => if c == '"' {
            (seq![c], ScanMode::Str)
        } else if c == '/' {
            (Seq::empty(), ScanMode::Slash)
        } else {
            (seq![c], ScanMode::Code)
        },
        ScanMode::Str => if c == '\\' {
            (seq![c], ScanMode::StrEscape)
        } else if c == '"' {
            (seq![c], ScanMode::Code)
        } else {
            (seq![c], ScanMode::Str)
        },
        ScanMode::StrEscape => (seq![c], ScanMode::Str),
        ScanMode::Slash => if c == '/' {
            (Seq::empty(), ScanMode::Line)
        } else if c == '*' {
            (Seq::empty(), ScanMode::Block)
        } else if c == '"' {
            (seq!['/', c], ScanMode::Str)
        } else {
            (seq!['/', c], ScanMode::Code)
        },
        ScanMode::Line => if c == '\n' {
            (seq![c], ScanMode::Code)
        } else {
            (Seq::empty(), ScanMode::Line)
        },
        ScanMode::Block => if c == '*' {
            (Seq::empty(), ScanMode::BlockStar)
        } else {
            (Seq::empty(), ScanMode::Block)
        },
        ScanMode::BlockStar => if c == '/' {
            (seq![' '], ScanMode::Code)
        } else if c == '*' {
            (Seq::empty(), ScanMode::BlockStar)
        } else {
            (Seq::empty(), ScanMode::Block)
        },
    }
}

pub open spec fn scan_fold(s: Seq<char>) -> (Seq<char>, ScanMode)
    decreases s.len(),
{
    if s.len() == 0 {
        (Seq::empty(), ScanMode::Code)
    } else {
        let (out, m) = scan_fold(s.drop_last());
        let (e, m2) = scan_step(m, s.last());
        (out + e, m2)
    }
}

/// The source without `//` line comments (their newline stays) and with
/// each `/* */` block replaced by a space; string literals are content, so
/// a `//` inside `"https://…"` stays. An unfinished block still becomes a
/// space, and a `/` at the very end stays.
pub open spec fn spec_strip_comments(s: Seq<char>) -> Seq<char> {
    let (out, m) = scan_fold(s);
    match m {
        ScanMode::Slash => out.push('/'),
        ScanMode::Block | ScanMode::BlockStar => out.push(' '),
        _ => out,
    }
}

/// Comment-blind copy of a source text.
pub fn strip_comments(source: &str) -> (r: String)
    ensures
        r@ == spec_strip_comments(source@),
{
    let v = chars_of(source);
    let mut out: Vec<char> = Vec::new();
    let mut m = ScanMode::Code;
    let mut i: usize = 0;
    while i < v.len()
        invariant
            0 <= i <= v@.len(),
            v@ == source@,
            scan_fold(v@.take(i as int)) == (out@, m),
        decreases v.len() - i,
    {
        let c = v[i];
        assert(v@.take(i + 1).drop_last() == v@.take(i as int));
        let ghost before = out@;
        m = match m {
            ScanMode::Code => if c == '"' {
                out.push(c);
                ScanMode::Str
            } else if c == '/' {
                ScanMode::Slash
            } else {
                out.push(c);
                ScanMode::Code
            },
            ScanMode::Str => {
                out.push(c);
                if c == '\\' {
                    ScanMode::StrEscape
                } else if c == '"' {
                    ScanMode::Code
                } else {
                    ScanMode::Str
                }
            },
            ScanMode::StrEscape => {
                out.push(c);
                ScanMode::Str
            },
            ScanMode::Slash => if c == '/' {
                ScanMode::Line
            } else if c == '*' {
                ScanMode::Block
            } else {
                out.push('/');
                out.push(c);
                if c == '"' {
                    ScanMode::Str
                } else {
                    ScanMode::Code
                }
            },
            ScanMode::Line => if c == '\n' {
                out.push(c);
                ScanMode::Code
            } else {
                ScanMode::Line
            },
            ScanMode::Block => if c == '*' {
                ScanMode::BlockStar
            } else {
                ScanMode::Block
            },
            ScanMode::BlockStar => if c == '/' {
                out.push(' ');
                ScanMode::Code
            } else if c == '*' {
                ScanMode::BlockStar
            } else {
                ScanMode::Block
            },
        };
        assert(out@ =~= before + scan_step(scan_fold(v@.take(i as int)).1, c).0);
        i = i + 1;
    }
    assert(v@.take(i as int) == v@);
    match m {
        ScanMode::Slash => out.push('/'),
        ScanMode::Block | ScanMode::BlockStar => out.push(' '),
        _ => {},
    }
    string_of(out.as_slice())
}

} // verus!

verus! {

// ---------------------------------------------------------------------------
// Timestamps
// ---------------------------------------------------------------------------

/// Value of ASCII decimal digits.
pub open spec fn digits_value(ds: Seq<u8>) -> int
    decreases ds.len(),
{
    if ds.len() == 0 {
        0
    } else {
        digits_value(ds.drop_last()) * 10 + (ds.last() - 48)
    }
}

/// `u64::from_str` on bytes: an optional `+`, then one or more ASCII
/// digits, and a value that fits.
pub open spec fn parse_u64(bs: Seq<u8>) -> Option<int> {
    let ds = unsigned_digits(bs);
    if ds.len() > 0 && all_ascii_digits(ds) && digits_value(ds) <= u64::MAX {
        Some(digits_value(ds))
    } else {
        None
    }
}

/// The bytes after an optional leading `+`.
pub open spec fn unsigned_digits(bs: Seq<u8>) -> Seq<u8> {
    if bs.len() > 0 && bs[0] == 43u8 {
        bs.skip(1)
    } else {
        bs
    }
}

/// Every byte is an ASCII digit.
pub open spec fn all_ascii_digits(ds: Seq<u8>) -> bool {
    forall|i: int| 0 <= i < ds.len() ==> 48 <= #[trigger] ds[i] <= 57
}

/// Days since 1970-01-01 of a proleptic Gregorian date (Howard Hinnant's
/// `days_from_civil`).
pub open spec fn days_from_civil(y: int, m: int, d: int) -> int {
    let y2 = if m <= 2 {
        y - 1
    } else {
        y
    };
    let era = y2 / 400;
    let yoe = y2 - era * 400;
    let mp = (m + 9) % 12;
    let doy = (153 * mp + 2) / 5 + d - 1;
    let doe = yoe * 365 + yoe / 4 - yoe / 100 + doy;
    era * 146097 + doe - 719468
}

/// Epoch milliseconds of an RFC 3339 UTC timestamp
/// (`2026-09-23T21:02:02.995Z`), read by byte position after trimming: the
/// date and time fields must parse; the milliseconds default to 0.
pub open spec fn spec_iso_ms(s: Seq<char>) -> Option<int> {
    let b = encode_utf8(trim(s));
    if b.len() < 19 || b[4] != 45u8 || b[7] != 45u8 || b[10] != 84u8 {
        None
    } else {
        match (
            parse_u64(b.subrange(0, 4)),
            parse_u64(b.subrange(5, 7)),
            parse_u64(b.subrange(8, 10)),
            parse_u64(b.subrange(11, 13)),
            parse_u64(b.subrange(14, 16)),
            parse_u64(b.subrange(17, 19)),
        ) {
            (Some(year), Some(month), Some(day), Some(hour), Some(min), Some(sec)) => {
                let ms = if b.len() >= 23 {
                    match parse_u64(b.subrange(20, 23)) {
                        Some(v) => v,
                        None => 0,
                    }
                } else {
                    0
                };
                let secs = days_from_civil(year, month, day) * 86400 + hour * 3600 + min * 60 + sec;
                if secs < 0 {
                    None
                } else {
                    Some(secs * 1000 + ms)
                }
            },
            _ => None,
        }
    }
}

fn parse_small(b: &[u8], from: usize, to: usize) -> (r: Option<u64>)
    requires
        from <= to <= b@.len(),
        to - from <= 4,
    ensures
        match (r, parse_u64(b@.subrange(from as int, to as int))) {
            (Some(a), Some(v)) => a == v && a < 10000,
            (None, None) => true,
            _ => false,
        },
{
    let ghost bs = b@.subrange(from as int, to as int);
    let mut start = from;
    if from < to && b[from] == 43u8 {
        start = from + 1;
    }
    let ghost ds = b@.subrange(start as int, to as int);
    assert(ds == unsigned_digits(bs));
    if start == to {
        return None;
    }
    let mut v: u64 = 0;
    let mut i: usize = start;
    while i < to
        invariant
            from <= start <= i <= to <= b@.len(),
            to - start <= 4,
            ds == b@.subrange(start as int, to as int),
            bs == b@.subrange(from as int, to as int),
            ds == unsigned_digits(bs),
            forall|k: int| start <= k < i ==> 48 <= #[trigger] b@[k] <= 57,
            v == digits_value(b@.subrange(start as int, i as int)),
            v < pow10((i - start) as nat),
        decreases to - i,
    {
        let c = b[i];
        if c < 48 || c > 57 {
            assert(ds[i - start] == c);
            assert(!(48 <= ds[i - start] <= 57));
            assert(!all_ascii_digits(ds));
            return None;
        }
        assert(b@.subrange(start as int, i + 1).drop_last() == b@.subrange(start as int, i as int));
        proof {
            lemma_pow10_step((i - start) as nat);
            assert(pow10((i - start) as nat) <= 1000) by {
                reveal_with_fuel(pow10, 4);
            }
        }
        v = v * 10 + (c - 48) as u64;
        i = i + 1;
    }
    proof {
        lemma_pow10_le4((to - start) as nat);
        assert forall|k: int| 0 <= k < ds.len() implies 48 <= #[trigger] ds[k] <= 57 by {
            assert(ds[k] == b@[start + k]);
        }
    }
    Some(v)
}

/// `10^n`.
pub open spec fn pow10(n: nat) -> int
    decreases n,
{
    if n == 0 {
        1
    } else {
        10 * pow10((n - 1) as nat)
    }
}

proof fn lemma_pow10_step(n: nat)
    ensures
        pow10(n + 1) == 10 * pow10(n),
{
}

proof fn lemma_pow10_le4(n: nat)
    requires
        n <= 4,
    ensures
        pow10(n) <= 10000,
{
    reveal_with_fuel(pow10, 5);
}

/// `days_from_civil` over the ranges a timestamp's fields can have.
fn days_from_civil_exec(y: i64, m: u64, d: u64) -> (r: i64)
    requires
        0 <= y < 10000,
        m < 10000,
        d < 10000,
    ensures
        r == days_from_civil(y as int, m as int, d as int),
{
    let y2: i64 = if m <= 2 {
        y - 1
    } else {
        y
    };
    let era: i64 = if y2 >= 0 {
        (y2 as u64 / 400) as i64
    } else {
        -1
    };
    assert(era == y2 / 400);
    let yoe: i64 = y2 - era * 400;
    let mp: i64 = ((m + 9) % 12) as i64;
    let doy: i64 = ((153 * mp + 2) as u64 / 5) as i64 + d as i64 - 1;
    let doe: i64 = yoe * 365 + (yoe as u64 / 4) as i64 - (yoe as u64 / 100) as i64 + doy;
    era * 146097 + doe - 719468
}

/// RFC 3339 UTC timestamp (`2026-09-23T21:02:02.995Z`) → epoch milliseconds.
pub fn iso_to_epoch_ms(s: &str) -> (r: Option<u64>)
    ensures
        match (r, spec_iso_ms(s@)) {
            (Some(a), Some(b)) => a == b,
            (None, None) => true,
            _ => false,
        },
{
    let t = crate::text::trim_chars(chars_of(s).as_slice());
    let ts = string_of(t.as_slice());
    let b = ts.as_str().as_bytes();
    assert(b@ == encode_utf8(crate::text::trim(s@)));
    if b.len() < 19 || b[4] != 45u8 || b[7] != 45u8 || b[10] != 84u8 {
        return None;
    }
    let year = match parse_small(b, 0, 4) {
        Some(v) => v,
        None => {
            return None;
        },
    };
    let month = match parse_small(b, 5, 7) {
        Some(v) => v,
        None => {
            return None;
        },
    };
    let day = match parse_small(b, 8, 10) {
        Some(v) => v,
        None => {
            return None;
        },
    };
    let hour = match parse_small(b, 11, 13) {
        Some(v) => v,
        None => {
            return None;
        },
    };
    let min = match parse_small(b, 14, 16) {
        Some(v) => v,
        None => {
            return None;
        },
    };
    let sec = match parse_small(b, 17, 19) {
        Some(v) => v,
        None => {
            return None;
        },
    };
    let ms: u64 = if b.len() >= 23 {
        match parse_small(b, 20, 23) {
            Some(v) => v,
            None => 0,
        }
    } else {
        0
    };
    let days = days_from_civil_exec(year as i64, month, day);
    let secs: i64 = days * 86400 + hour as i64 * 3600 + min as i64 * 60 + sec as i64;
    if secs < 0 {
        return None;
    }
    Some((secs as u64) * 1000 + ms)
}

} // verus!

verus! {

// ---------------------------------------------------------------------------
// Paths
// ---------------------------------------------------------------------------

/// The last non-empty piece (empty when there is none).
pub open spec fn last_nonempty(ps: Seq<Seq<char>>) -> Seq<char>
    decreases ps.len(),
{
    if ps.len() == 0 {
        Seq::empty()
    } else if ps.last().len() > 0 {
        ps.last()
    } else {
        last_nonempty(ps.drop_last())
    }
}

/// The non-empty pieces, in order.
pub open spec fn nonempty_pieces(ps: Seq<Seq<char>>) -> Seq<Seq<char>>
    decreases ps.len(),
{
    if ps.len() == 0 {
        Seq::empty()
    } else {
        let r = nonempty_pieces(ps.drop_last());
        if ps.last().len() > 0 {
            r.push(ps.last())
        } else {
            r
        }
    }
}

/// Index of the first element equal to `x`.
pub open spec fn first_index_of(s: Seq<Seq<char>>, x: Seq<char>) -> Option<int> {
    if exists|i: int| 0 <= i < s.len() && s[i] == x {
        Some(choose|i: int| 0 <= i < s.len() && s[i] == x && forall|j: int| 0 <= j < i ==> s[j] != x)
    } else {
        None
    }
}

/// The file name of a `/`-separated path: its last non-empty piece.
pub open spec fn spec_base_name(norm: Seq<char>) -> Seq<char> {
    last_nonempty(pieces(norm, '/'))
}

/// The text after the last `/` (the whole path when it has none).
pub open spec fn spec_base_label(norm: Seq<char>) -> Seq<char> {
    pieces(norm, '/').last()
}

/// Skill name: the path segment directly before `SKILL.md`.
pub open spec fn spec_skill_name_from(norm: Seq<char>) -> Option<Seq<char>> {
    let segs = nonempty_pieces(pieces(norm, '/'));
    match first_index_of(segs, "SKILL.md"@) {
        Some(i) => if i > 0 {
            Some(segs[i - 1])
        } else {
            Some("pi-skill"@)
        },
        None => None,
    }
}

fn base_name(norm: &[char]) -> (r: Vec<char>)
    ensures
        r@ == spec_base_name(norm@),
{
    let ps = crate::text::pieces_exec(norm, '/');
    let ghost pv = crate::text::views(ps@);
    let mut k: usize = ps.len();
    assert(pv.take(ps@.len() as int) == pv);
    while k > 0 && ps[k - 1].len() == 0
        invariant
            0 <= k <= ps@.len(),
            pv == crate::text::views(ps@),
            last_nonempty(pv) == last_nonempty(pv.take(k as int)),
        decreases k,
    {
        assert(pv.take(k as int).drop_last() == pv.take(k - 1));
        assert(pv.take(k as int).last() == ps@[k - 1]@);
        k = k - 1;
    }
    if k == 0 {
        Vec::new()
    } else {
        assert(pv.take(k as int).last() == ps@[k - 1]@);
        crate::text::copy_chars(ps[k - 1].as_slice())
    }
}

fn base_label(norm: &[char]) -> (r: Vec<char>)
    ensures
        r@ == spec_base_label(norm@),
{
    let ps = crate::text::pieces_exec(norm, '/');
    let n = ps.len();
    assert(n > 0) by {
        assert(crate::text::views(ps@).len() == ps@.len());
    }
    assert(crate::text::views(ps@).last() == ps@[n - 1]@);
    crate::text::copy_chars(ps[n - 1].as_slice())
}

/// Skill name: the path segment directly before `SKILL.md`.
fn skill_name_from(norm: &[char]) -> (r: Option<String>)
    ensures
        match (r, spec_skill_name_from(norm@)) {
            (Some(a), Some(b)) => a@ == b,
            (None, None) => true,
            _ => false,
        },
{
    let ps = crate::text::pieces_exec(norm, '/');
    let ghost pv = crate::text::views(ps@);
    let mut segs: Vec<Vec<char>> = Vec::new();
    let mut i: usize = 0;
    assert(crate::text::views(segs@) =~= nonempty_pieces(pv.take(0)));
    while i < ps.len()
        invariant
            0 <= i <= ps@.len(),
            pv == crate::text::views(ps@),
            crate::text::views(segs@) == nonempty_pieces(pv.take(i as int)),
        decreases ps.len() - i,
    {
        assert(pv.take(i + 1).drop_last() == pv.take(i as int));
        if ps[i].len() > 0 {
            let ghost before = crate::text::views(segs@);
            segs.push(crate::text::copy_chars(ps[i].as_slice()));
            assert(crate::text::views(segs@) == before.push(pv[i as int]));
        }
        i = i + 1;
    }
    assert(pv.take(i as int) == pv);
    let ghost sv = crate::text::views(segs@);
    let target = chars_of("SKILL.md");
    let mut j: usize = 0;
    while j < segs.len()
        invariant
            0 <= j <= segs@.len(),
            sv == crate::text::views(segs@),
            sv == nonempty_pieces(pieces(norm@, '/')),
            target@ == "SKILL.md"@,
            forall|k: int| 0 <= k < j ==> sv[k] != "SKILL.md"@,
        decreases segs.len() - j,
    {
        if crate::text::chars_eq(segs[j].as_slice(), target.as_slice()) {
            assert(sv[j as int] == "SKILL.md"@);
            let ghost c = choose|c: int|
                0 <= c < sv.len() && sv[c] == "SKILL.md"@ && forall|m: int|
                    0 <= m < c ==> sv[m] != "SKILL.md"@;
            assert(c == j) by {
                if c < j {
                    assert(sv[c] != "SKILL.md"@);
                }
                if c > j {
                    assert(sv[j as int] == "SKILL.md"@);
                }
            }
            if j > 0 {
                assert(sv[j - 1] == segs@[j - 1]@);
                return Some(string_of(segs[j - 1].as_slice()));
            } else {
                return Some(crate::text::to_string("pi-skill"));
            }
        }
        j = j + 1;
    }
    None
}

/// Guidance summary of a reference document, by what its name mentions.
pub open spec fn spec_reference_summary(filename: Seq<char>) -> Seq<char> {
    let lower = crate::text::text_lowercase(filename);
    if crate::text::contains(lower, "command-completion"@) {
        "Trailing Space Contract & Autocomplete Engine"@
    } else if crate::text::contains(lower, "tools-and-schema"@) {
        "StringEnum Rule & Tool Execution Contract"@
    } else if crate::text::contains(lower, "lifecycle"@) {
        "Lifecycle Events & Engine Compatibility"@
    } else if crate::text::contains(lower, "state-persistence"@) {
        "Branch-Aware Session State & Global Config"@
    } else if crate::text::contains(lower, "api-docs"@) {
        "Live Local Engine Documentation Index"@
    } else {
        "Skill Guidance Reference Document"@
    }
}

fn has(s: &[char], p: &str) -> (b: bool)
    ensures
        b == crate::text::contains(s@, p@),
{
    crate::text::contains_chars(s, chars_of(p).as_slice())
}

/// Guidance summary heuristics of pi-plugin-dev's tracker.
fn reference_summary(filename: &[char]) -> (r: &'static str)
    ensures
        r@ == spec_reference_summary(filename@),
{
    let lower = crate::text::unicode_lower_chars(filename);
    let l = lower.as_slice();
    if has(l, "command-completion") {
        "Trailing Space Contract & Autocomplete Engine"
    } else if has(l, "tools-and-schema") {
        "StringEnum Rule & Tool Execution Contract"
    } else if has(l, "lifecycle") {
        "Lifecycle Events & Engine Compatibility"
    } else if has(l, "state-persistence") {
        "Branch-Aware Session State & Global Config"
    } else if has(l, "api-docs") {
        "Live Local Engine Documentation Index"
    } else {
        "Skill Guidance Reference Document"
    }
}

} // verus!

verus! {

// ---------------------------------------------------------------------------
// Compliance gates
// ---------------------------------------------------------------------------

/// A check as plain text: `(rule, label, status, details)`.
pub open spec fn check_view(c: crate::telemetry::skills::ComplianceCheck) -> (
    Seq<char>,
    Seq<char>,
    Seq<char>,
    Seq<char>,
) {
    (c.rule@, c.label@, c.status@, c.details@)
}

pub open spec fn check_views(v: Seq<crate::telemetry::skills::ComplianceCheck>) -> Seq<
    (Seq<char>, Seq<char>, Seq<char>, Seq<char>),
> {
    v.map_values(|c: crate::telemetry::skills::ComplianceCheck| check_view(c))
}

/// A check replaces the one with the same rule and label, or is appended.
pub open spec fn push_check(
    out: Seq<(Seq<char>, Seq<char>, Seq<char>, Seq<char>)>,
    c: (Seq<char>, Seq<char>, Seq<char>, Seq<char>),
) -> Seq<(Seq<char>, Seq<char>, Seq<char>, Seq<char>)> {
    if exists|i: int| 0 <= i < out.len() && (#[trigger] out[i]).0 == c.0 && out[i].1 == c.1 {
        let i = choose|i: int|
            0 <= i < out.len() && (#[trigger] out[i]).0 == c.0 && out[i].1 == c.1 && forall|j: int|
                0 <= j < i ==> !((#[trigger] out[j]).0 == c.0 && out[j].1 == c.1);
        out.update(i, c)
    } else {
        out.push(c)
    }
}

pub open spec fn has_text(s: Seq<char>, p: Seq<char>) -> bool {
    crate::text::contains(s, p)
}

/// The package.json gates for a parsed manifest: no core package bundled
/// in `dependencies`, and `"type": "module"`.
pub open spec fn package_gates(
    v: crate::json::Json,
    out: Seq<(Seq<char>, Seq<char>, Seq<char>, Seq<char>)>,
) -> Seq<(Seq<char>, Seq<char>, Seq<char>, Seq<char>)> {
    let deps = crate::json::field(v, "dependencies"@);
    let core = match deps {
        Some(crate::json::Json::Object(ks, vs)) => exists|i: int|
            0 <= i < ks@.len() && crate::text::starts_with((#[trigger] ks@[i])@, "@earendil-works"@),
        _ => false,
    };
    let o1 = if core {
        push_check(
            out,
            (
                "peer-deps"@,
                "Peer Dependencies"@,
                "fail"@,
                "Core @earendil-works package in dependencies — must stay in peerDependencies."@,
            ),
        )
    } else if deps is Some {
        push_check(
            out,
            (
                "peer-deps"@,
                "Peer Dependencies"@,
                "pass"@,
                "No core package bundled in dependencies"@,
            ),
        )
    } else {
        out
    };
    if crate::json::str_of(crate::json::field(v, "type"@)) != Some("module"@) {
        push_check(
            o1,
            ("manifest-hygiene"@, "ESM Manifest"@, "warn"@, "package.json missing \"type\": \"module\"."@),
        )
    } else {
        o1
    }
}

/// A line puts a completion marker inside `value:`.
pub open spec fn marker_in_value(line: Seq<char>) -> bool {
    let t = crate::text::trim_start(line);
    match crate::text::find(t, "value:"@) {
        Some(p) => {
            let rest = t.skip(p);
            rest.contains('✓') || rest.contains('●') || rest.contains('○')
        },
        None => false,
    }
}

/// The error reporting gate: tool errors must throw, not return `isError`.
pub open spec fn gate_error_throw(
    code: Seq<char>,
    out: Seq<(Seq<char>, Seq<char>, Seq<char>, Seq<char>)>,
) -> Seq<(Seq<char>, Seq<char>, Seq<char>, Seq<char>)> {
    if has_text(code, "registerTool"@) && has_text(code, "execute"@) {
        let returns_error = has_text(code, "isError: true"@) || has_text(code, "error: \""@)
            || has_text(code, "error: '"@);
        let throws = has_text(code, "throw new Error("@);
        if returns_error && !throws {
            push_check(
                out,
                (
                    "error-throw"@,
                    "Error Reporting Contract"@,
                    "warn"@,
                    "Tool returns an error payload instead of throwing Error (isError is only set via throw)."@,
                ),
            )
        } else if throws {
            push_check(
                out,
                (
                    "error-throw"@,
                    "Error Reporting Contract"@,
                    "pass"@,
                    "Tool errors reported via throw new Error()."@,
                ),
            )
        } else {
            out
        }
    } else {
        out
    }
}

/// The trailing-space gate: completion markers belong in the label or
/// description, not in `value:`.
pub open spec fn gate_trailing(
    code: Seq<char>,
    out: Seq<(Seq<char>, Seq<char>, Seq<char>, Seq<char>)>,
) -> Seq<(Seq<char>, Seq<char>, Seq<char>, Seq<char>)> {
    let ls = crate::text::lines(code);
    if exists|i: int| 0 <= i < ls.len() && marker_in_value(#[trigger] ls[i]) {
        push_check(
            out,
            (
                "trailing-space"@,
                "Completion Marker Guard"@,
                "fail"@,
                "Marker found inside item.value — value is inserted verbatim; markers belong in label/description."@,
            ),
        )
    } else {
        out
    }
}

/// The lifecycle gate: every `pi.on(` must be tracked for unsubscribe.
pub open spec fn gate_lifecycle(
    code: Seq<char>,
    out: Seq<(Seq<char>, Seq<char>, Seq<char>, Seq<char>)>,
) -> Seq<(Seq<char>, Seq<char>, Seq<char>, Seq<char>)> {
    if has_text(code, "pi.on("@) {
        if has_text(code, "unsubscribe"@) || has_text(code, "track("@) || has_text(
            code,
            "unsubscribers"@,
        ) {
            push_check(
                out,
                (
                    "lifecycle-cleanup"@,
                    "Lifecycle Listener Cleanup"@,
                    "pass"@,
                    "Listeners tracked for session_shutdown unsubscribe."@,
                ),
            )
        } else {
            push_check(
                out,
                (
                    "lifecycle-cleanup"@,
                    "Lifecycle Listener Cleanup"@,
                    "warn"@,
                    "pi.on() result not stored — listener leaks on /reload."@,
                ),
            )
        }
    } else {
        out
    }
}

/// The UI-mode gate: TUI-only state must be guarded.
pub open spec fn gate_ui(
    code: Seq<char>,
    out: Seq<(Seq<char>, Seq<char>, Seq<char>, Seq<char>)>,
) -> Seq<(Seq<char>, Seq<char>, Seq<char>, Seq<char>)> {
    if has_text(code, "custom("@) {
        if has_text(code, "hasUI"@) || has_text(code, "canOverlay"@) {
            push_check(
                out,
                (
                    "ui-mode-guard"@,
                    "UI Mode Guard"@,
                    "pass"@,
                    "TUI state guarded by hasUI/canOverlay."@,
                ),
            )
        } else {
            push_check(
                out,
                (
                    "ui-mode-guard"@,
                    "UI Mode Guard"@,
                    "warn"@,
                    "custom() without a hasUI guard breaks headless sessions."@,
                ),
            )
        }
    } else {
        out
    }
}

/// The gates over a stripped source after the string-enum gate, in order.
pub open spec fn later_gates(
    code: Seq<char>,
    out: Seq<(Seq<char>, Seq<char>, Seq<char>, Seq<char>)>,
) -> Seq<(Seq<char>, Seq<char>, Seq<char>, Seq<char>)> {
    gate_ui(code, gate_lifecycle(code, gate_trailing(code, gate_error_throw(code, out))))
}

/// The gates over a stripped source that is not a parsed package.json. A
/// tool schema with neither a union of literals nor `StringEnum` ends the
/// run before any gate.
pub open spec fn code_gates(
    code: Seq<char>,
    out: Seq<(Seq<char>, Seq<char>, Seq<char>, Seq<char>)>,
) -> Seq<(Seq<char>, Seq<char>, Seq<char>, Seq<char>)> {
    let has_union = has_text(code, "Type.Union"@) && has_text(code, "Type.Literal"@);
    let has_string_enum = has_text(code, "StringEnum("@);
    if has_text(code, "registerTool"@) || has_text(code, "Type.Object"@) {
        if has_union {
            later_gates(
                code,
                push_check(
                    out,
                    (
                        "string-enum"@,
                        "StringEnum Schema Rule"@,
                        "fail"@,
                        "Type.Union of Type.Literal breaks Google Gemini — use StringEnum([...])."@,
                    ),
                ),
            )
        } else if has_string_enum {
            later_gates(
                code,
                push_check(
                    out,
                    (
                        "string-enum"@,
                        "StringEnum Schema Rule"@,
                        "pass"@,
                        "StringEnum used for enum parameters (Gemini compatible)."@,
                    ),
                ),
            )
        } else {
            out
        }
    } else {
        later_gates(code, out)
    }
}

/// The compliance gates over a mutated file: the checks after scoring
/// `code` written to `path`.
pub open spec fn spec_run_gates(
    path: Seq<char>,
    code: Seq<char>,
    out: Seq<(Seq<char>, Seq<char>, Seq<char>, Seq<char>)>,
) -> Seq<(Seq<char>, Seq<char>, Seq<char>, Seq<char>)> {
    let pkg = crate::text::ends_with(path, "package.json"@);
    if code.len() == 0 && !pkg {
        out
    } else {
        let c = spec_strip_comments(code);
        match crate::json::parsed_json(c) {
            Some(v) if pkg => package_gates(v, out),
            _ => code_gates(c, out),
        }
    }
}

fn make_check(rule: &str, label: &str, status: &str, details: &str) -> (r:
    crate::telemetry::skills::ComplianceCheck)
    ensures
        check_view(r) == (rule@, label@, status@, details@),
{
    crate::telemetry::skills::ComplianceCheck {
        rule: crate::text::to_string(rule),
        label: crate::text::to_string(label),
        status: crate::text::to_string(status),
        details: crate::text::to_string(details),
    }
}

/// Replaces the check with the same rule and label, or appends it.
fn push(out: &mut Vec<crate::telemetry::skills::ComplianceCheck>, c: crate::telemetry::skills::ComplianceCheck)
    ensures
        check_views(final(out)@) == push_check(check_views(old(out)@), check_view(c)),
{
    let ghost ov = check_views(out@);
    let ghost cv = check_view(c);
    let rule = chars_of(c.rule.as_str());
    let label = chars_of(c.label.as_str());
    let mut i: usize = 0;
    while i < out.len()
        invariant
            0 <= i <= out@.len(),
            ov == check_views(out@),
            out@ == old(out)@,
            rule@ == c.rule@,
            label@ == c.label@,
            forall|j: int| 0 <= j < i ==> !((#[trigger] ov[j]).0 == c.rule@ && ov[j].1 == c.label@),
        decreases out.len() - i,
    {
        if crate::text::chars_eq(chars_of(out[i].rule.as_str()).as_slice(), rule.as_slice())
            && crate::text::chars_eq(chars_of(out[i].label.as_str()).as_slice(), label.as_slice()) {
            assert(ov[i as int].0 == c.rule@ && ov[i as int].1 == c.label@);
            let ghost k = choose|k: int|
                0 <= k < ov.len() && (#[trigger] ov[k]).0 == check_view(c).0 && ov[k].1 == check_view(
                    c,
                ).1 && forall|j: int|
                    0 <= j < k ==> !((#[trigger] ov[j]).0 == check_view(c).0 && ov[j].1 == check_view(
                        c,
                    ).1);
            assert(k == i) by {
                if k < i {
                    assert(!(ov[k].0 == c.rule@ && ov[k].1 == c.label@));
                }
                if k > i {
                    assert(ov[i as int].0 == c.rule@ && ov[i as int].1 == c.label@);
                }
            }
            out.remove(i);
            out.insert(i, c);
            assert(check_views(out@) =~= ov.update(i as int, check_view(c)));
            return ;
        }
        i = i + 1;
    }
    out.push(c);
    assert(check_views(out@) =~= ov.push(check_view(c)));
}

} // verus!

verus! {

fn any_core_key(ks: &Vec<String>) -> (r: bool)
    ensures
        r == exists|i: int|
            0 <= i < ks@.len() && crate::text::starts_with((#[trigger] ks@[i])@, "@earendil-works"@),
{
    let p = chars_of("@earendil-works");
    let mut i: usize = 0;
    while i < ks.len()
        invariant
            0 <= i <= ks@.len(),
            p@ == "@earendil-works"@,
            forall|j: int|
                0 <= j < i ==> !crate::text::starts_with((#[trigger] ks@[j])@, "@earendil-works"@),
        decreases ks.len() - i,
    {
        if crate::text::starts_with_chars(chars_of(ks[i].as_str()).as_slice(), p.as_slice()) {
            assert(crate::text::starts_with(ks@[i as int]@, "@earendil-works"@));
            return true;
        }
        i = i + 1;
    }
    false
}

/// The package.json gates of a parsed manifest (see [`package_gates`]).
pub fn package_manifest_checks(v: &crate::json::Json) -> (r: Vec<crate::telemetry::skills::ComplianceCheck>)
    ensures
        check_views(r@) == package_gates(*v, Seq::empty()),
{
    let mut out: Vec<crate::telemetry::skills::ComplianceCheck> = Vec::new();
    assert(check_views(out@) =~= Seq::empty());
    package_gates_exec(v, &mut out);
    out
}

fn package_gates_exec(v: &crate::json::Json, out: &mut Vec<crate::telemetry::skills::ComplianceCheck>)
    ensures
        check_views(final(out)@) == package_gates(*v, check_views(old(out)@)),
{
    let deps = crate::json::get(v, "dependencies");
    let core = match deps {
        Some(crate::json::Json::Object(ks, _)) => any_core_key(ks),
        _ => false,
    };
    if core {
        push(
            out,
            make_check(
                "peer-deps",
                "Peer Dependencies",
                "fail",
                "Core @earendil-works package in dependencies — must stay in peerDependencies.",
            ),
        );
    } else if deps.is_some() {
        push(
            out,
            make_check(
                "peer-deps",
                "Peer Dependencies",
                "pass",
                "No core package bundled in dependencies",
            ),
        );
    }
    let is_module = match crate::json::get_str(v, "type") {
        Some(t) => crate::text::chars_eq(chars_of(t.as_str()).as_slice(), chars_of("module").as_slice()),
        None => false,
    };
    if !is_module {
        push(
            out,
            make_check(
                "manifest-hygiene",
                "ESM Manifest",
                "warn",
                "package.json missing \"type\": \"module\".",
            ),
        );
    }
}

fn has_marker(rest: &[char]) -> (r: bool)
    ensures
        r == (rest@.contains('✓') || rest@.contains('●') || rest@.contains('○')),
{
    let mut k: usize = 0;
    while k < rest.len()
        invariant
            0 <= k <= rest@.len(),
            forall|j: int| 0 <= j < k ==> rest@[j] != '✓' && rest@[j] != '●' && rest@[j] != '○',
        decreases rest.len() - k,
    {
        let c = rest[k];
        if c == '✓' || c == '●' || c == '○' {
            assert(rest@.contains(c));
            return true;
        }
        k = k + 1;
    }
    false
}

fn marker_in_value_exec(line: &[char]) -> (r: bool)
    ensures
        r == marker_in_value(line@),
{
    let t = crate::text::trim_start_chars(line);
    match crate::text::find_chars(t.as_slice(), chars_of("value:").as_slice()) {
        Some(p) => {
            let rest = crate::text::slice_chars(t.as_slice(), p, t.len());
            assert(rest@ == t@.skip(p as int));
            has_marker(rest.as_slice())
        },
        None => false,
    }
}

fn any_marker_line(code: &[char]) -> (r: bool)
    ensures
        r == exists|i: int|
            0 <= i < crate::text::lines(code@).len() && marker_in_value(
                #[trigger] crate::text::lines(code@)[i],
            ),
{
    let ls = crate::text::lines_exec(code);
    let ghost lv = crate::text::views(ls@);
    let mut i: usize = 0;
    while i < ls.len()
        invariant
            0 <= i <= ls@.len(),
            lv == crate::text::views(ls@),
            lv == crate::text::lines(code@),
            forall|j: int| 0 <= j < i ==> !marker_in_value(#[trigger] lv[j]),
        decreases ls.len() - i,
    {
        if marker_in_value_exec(ls[i].as_slice()) {
            assert(marker_in_value(lv[i as int]));
            return true;
        }
        i = i + 1;
    }
    false
}

fn gate_error_throw_exec(code: &[char], out: &mut Vec<crate::telemetry::skills::ComplianceCheck>)
    ensures
        check_views(final(out)@) == gate_error_throw(code@, check_views(old(out)@)),
{
    if has(code, "registerTool") && has(code, "execute") {
        let returns_error = has(code, "isError: true") || has(code, "error: \"") || has(
            code,
            "error: '",
        );
        let throws = has(code, "throw new Error(");
        if returns_error && !throws {
            push(
                out,
                make_check(
                    "error-throw",
                    "Error Reporting Contract",
                    "warn",
                    "Tool returns an error payload instead of throwing Error (isError is only set via throw).",
                ),
            );
        } else if throws {
            push(
                out,
                make_check(
                    "error-throw",
                    "Error Reporting Contract",
                    "pass",
                    "Tool errors reported via throw new Error().",
                ),
            );
        }
    }
}

fn gate_trailing_exec(code: &[char], out: &mut Vec<crate::telemetry::skills::ComplianceCheck>)
    ensures
        check_views(final(out)@) == gate_trailing(code@, check_views(old(out)@)),
{
    let found = any_marker_line(code);
    if found {
        push(
            out,
            make_check(
                "trailing-space",
                "Completion Marker Guard",
                "fail",
                "Marker found inside item.value — value is inserted verbatim; markers belong in label/description.",
            ),
        );
    }
}

fn gate_lifecycle_exec(code: &[char], out: &mut Vec<crate::telemetry::skills::ComplianceCheck>)
    ensures
        check_views(final(out)@) == gate_lifecycle(code@, check_views(old(out)@)),
{
    if has(code, "pi.on(") {
        if has(code, "unsubscribe") || has(code, "track(") || has(code, "unsubscribers") {
            push(
                out,
                make_check(
                    "lifecycle-cleanup",
                    "Lifecycle Listener Cleanup",
                    "pass",
                    "Listeners tracked for session_shutdown unsubscribe.",
                ),
            );
        } else {
            push(
                out,
                make_check(
                    "lifecycle-cleanup",
                    "Lifecycle Listener Cleanup",
                    "warn",
                    "pi.on() result not stored — listener leaks on /reload.",
                ),
            );
        }
    }
}

fn gate_ui_exec(code: &[char], out: &mut Vec<crate::telemetry::skills::ComplianceCheck>)
    ensures
        check_views(final(out)@) == gate_ui(code@, check_views(old(out)@)),
{
    if has(code, "custom(") {
        if has(code, "hasUI") || has(code, "canOverlay") {
            push(
                out,
                make_check(
                    "ui-mode-guard",
                    "UI Mode Guard",
                    "pass",
                    "TUI state guarded by hasUI/canOverlay.",
                ),
            );
        } else {
            push(
                out,
                make_check(
                    "ui-mode-guard",
                    "UI Mode Guard",
                    "warn",
                    "custom() without a hasUI guard breaks headless sessions.",
                ),
            );
        }
    }
}

fn later_gates_exec(code: &[char], out: &mut Vec<crate::telemetry::skills::ComplianceCheck>)
    ensures
        check_views(final(out)@) == later_gates(code@, check_views(old(out)@)),
{
    gate_error_throw_exec(code, out);
    gate_trailing_exec(code, out);
    gate_lifecycle_exec(code, out);
    gate_ui_exec(code, out);
}

fn code_gates_exec(code: &[char], out: &mut Vec<crate::telemetry::skills::ComplianceCheck>)
    ensures
        check_views(final(out)@) == code_gates(code@, check_views(old(out)@)),
{
    let has_union = has(code, "Type.Union") && has(code, "Type.Literal");
    let has_string_enum = has(code, "StringEnum(");
    if has(code, "registerTool") || has(code, "Type.Object") {
        if has_union {
            push(
                out,
                make_check(
                    "string-enum",
                    "StringEnum Schema Rule",
                    "fail",
                    "Type.Union of Type.Literal breaks Google Gemini — use StringEnum([...]).",
                ),
            );
        } else if has_string_enum {
            push(
                out,
                make_check(
                    "string-enum",
                    "StringEnum Schema Rule",
                    "pass",
                    "StringEnum used for enum parameters (Gemini compatible).",
                ),
            );
        } else {
            return ;
        }
    }
    later_gates_exec(code, out);
}

/// Compliance gates over a mutated file, a function of its path and code:
/// each gate's check replaces the earlier one with its rule and label.
pub fn run_gates(path: &str, code: &str, out: &mut Vec<crate::telemetry::skills::ComplianceCheck>)
    ensures
        check_views(final(out)@) == spec_run_gates(path@, code@, check_views(old(out)@)),
{
    let pkg = crate::text::ends_with_chars(chars_of(path).as_slice(), chars_of("package.json").as_slice());
    if chars_of(code).len() == 0 && !pkg {
        return ;
    }
    let stripped = strip_comments(code);
    if pkg {
        match crate::json::parse_json(stripped.as_str()) {
            Some(v) => {
                package_gates_exec(&v, out);
                return ;
            },
            None => {},
        }
    }
    code_gates_exec(chars_of(stripped.as_str()).as_slice(), out);
}

} // verus!

verus! {

// ---------------------------------------------------------------------------
// Replaying the session
// ---------------------------------------------------------------------------

/// The tracker state as plain values.
pub struct TrackView {
    pub active_skill: Option<Seq<char>>,
    /// `(name, summary)` of each reference, first read first.
    pub references: Seq<(Seq<char>, Seq<char>)>,
    /// `(kind, target, summary, timestamp)` of each action.
    pub actions: Seq<(Seq<char>, Seq<char>, Seq<char>, u64)>,
    pub checks: Seq<(Seq<char>, Seq<char>, Seq<char>, Seq<char>)>,
    pub inspected: u64,
    pub modified: u64,
    pub start_ms: Option<u64>,
    pub last_ts: u64,
    pub turn_count: u64,
    pub in_turn: bool,
}

/// A counter one higher, wrapping at `u64::MAX`.
pub open spec fn inc(x: u64) -> u64 {
    if x == u64::MAX {
        0
    } else {
        (x + 1) as u64
    }
}

/// `\` replaced by `/`.
pub open spec fn slashes(s: Seq<char>) -> Seq<char> {
    s.map_values(|c: char| if c == '\\' { '/' } else { c })
}

/// A member of the tool call's arguments (none when it has no arguments).
pub open spec fn arg(args: Option<crate::json::Json>, key: Seq<char>) -> Option<crate::json::Json> {
    match args {
        Some(v) => crate::json::field(v, key),
        None => None,
    }
}

pub open spec fn arg_str(args: Option<crate::json::Json>, key: Seq<char>) -> Seq<char> {
    match crate::json::str_of(arg(args, key)) {
        Some(s) => s,
        None => Seq::empty(),
    }
}

/// The `newText` of every edit that has one, in order.
pub open spec fn new_texts(es: Seq<crate::json::Json>) -> Seq<Seq<char>>
    decreases es.len(),
{
    if es.len() == 0 {
        Seq::empty()
    } else {
        let r = new_texts(es.drop_last());
        match crate::json::str_of(crate::json::field(es.last(), "newText"@)) {
            Some(t) => r.push(t),
            None => r,
        }
    }
}

/// What an `edit` or `write` call puts into the file.
pub open spec fn payload_of(tool: Seq<char>, args: Option<crate::json::Json>) -> Seq<char> {
    if tool == "write"@ {
        arg_str(args, "content"@)
    } else {
        match arg(args, "edits"@) {
            Some(crate::json::Json::Array(es)) => crate::text::join(new_texts(es@), "\n"@),
            _ => Seq::empty(),
        }
    }
}

pub open spec fn with_action(
    b: TrackView,
    kind: Seq<char>,
    target: Seq<char>,
    summary: Seq<char>,
    ts: u64,
) -> TrackView {
    TrackView { actions: b.actions.push((kind, target, summary, ts)), ..b }
}

/// A reference is listed once, under its file name.
pub open spec fn with_reference(refs: Seq<(Seq<char>, Seq<char>)>, name: Seq<char>) -> Seq<
    (Seq<char>, Seq<char>),
> {
    if exists|i: int| 0 <= i < refs.len() && (#[trigger] refs[i]).0 == name {
        refs
    } else {
        refs.push((name, spec_reference_summary(name)))
    }
}

/// One tool call of the trail.
pub open spec fn tool_step(b0: TrackView, tool: Seq<char>, args: Option<crate::json::Json>, ts: u64) -> TrackView {
    let b = if ts > 0 {
        TrackView {
            start_ms: if b0.start_ms is None {
                Some(ts)
            } else {
                b0.start_ms
            },
            last_ts: ts,
            ..b0
        }
    } else {
        b0
    };
    let raw = arg_str(args, "path"@);
    let norm = slashes(raw);
    let base = spec_base_name(norm);
    if tool == "read"@ && crate::text::ends_with(norm, "SKILL.md"@) {
        let active = spec_skill_name_from(norm);
        let name = match active {
            Some(a) => a,
            None => Seq::empty(),
        };
        with_action(
            TrackView { active_skill: active, ..b },
            "read"@,
            spec_base_label(norm),
            "Loaded skill entry point: "@ + name,
            ts,
        )
    } else if tool == "read"@ && crate::text::contains(norm, "/references/"@) {
        with_action(
            TrackView { references: with_reference(b.references, base), ..b },
            "read"@,
            base,
            "Guidance: "@ + spec_reference_summary(base),
            ts,
        )
    } else if tool == "read"@ && crate::text::contains(norm, "@earendil-works/pi-coding-agent/docs"@) {
        with_action(b, "doc_consult"@, base, "Engine API doc: "@ + base, ts)
    } else if tool == "read"@ && raw.len() > 0 {
        with_action(
            TrackView { inspected: inc(b.inspected), ..b },
            "read"@,
            base,
            "Inspecting "@ + base,
            ts,
        )
    } else if tool == "edit"@ || tool == "write"@ {
        let b1 = TrackView {
            modified: if raw.len() > 0 {
                inc(b.modified)
            } else {
                b.modified
            },
            checks: spec_run_gates(norm, payload_of(tool, args), b.checks),
            ..b
        };
        let verb = if tool == "edit"@ {
            "Modifying"@
        } else {
            "Writing"@
        };
        with_action(b1, tool, base, verb + " "@ + base, ts)
    } else if tool == "bash"@ {
        match crate::json::str_of(arg(args, "command"@)) {
            Some(cmd) => {
                let target = if cmd.len() > 40 {
                    cmd.take(40)
                } else {
                    cmd
                };
                let summary = if cmd.len() > 48 {
                    cmd.take(48)
                } else {
                    cmd
                };
                with_action(b, "bash"@, target, "Shell: "@ + summary, ts)
            },
            None => b,
        }
    } else {
        b
    }
}

/// The tool calls among an assistant message's blocks, in order; also
/// whether there was any.
pub open spec fn blocks_step(b: TrackView, blocks: Seq<crate::json::Json>, ts: u64) -> (TrackView, bool)
    decreases blocks.len(),
{
    if blocks.len() == 0 {
        (b, false)
    } else {
        let (b1, any) = blocks_step(b, blocks.drop_last(), ts);
        let (b2, call) = block_step(b1, blocks.last(), ts);
        (b2, any || call)
    }
}

/// One block of an assistant message: a tool call is replayed.
pub open spec fn block_step(b: TrackView, blk: crate::json::Json, ts: u64) -> (TrackView, bool) {
    if crate::json::str_of(crate::json::field(blk, "type"@)) == Some("toolCall"@) {
        let name = match crate::json::str_of(crate::json::field(blk, "name"@)) {
            Some(n) => n,
            None => Seq::empty(),
        };
        (tool_step(b, name, crate::json::field(blk, "arguments"@), ts), true)
    } else {
        (b, false)
    }
}

/// The timestamp of a session entry in epoch milliseconds (0 when it has
/// none or it does not parse).
pub open spec fn entry_ts(entry: crate::json::Json) -> u64 {
    match crate::json::str_of(crate::json::field(entry, "timestamp"@)) {
        Some(t) => match spec_iso_ms(t) {
            Some(v) => v as u64,
            None => 0,
        },
        None => 0,
    }
}

/// One line of the session JSONL.
pub open spec fn session_line_step(b: TrackView, line: Seq<char>) -> TrackView {
    match crate::json::parsed_json(line) {
        None => b,
        Some(entry) => if crate::json::str_of(crate::json::field(entry, "type"@)) != Some("message"@) {
            b
        } else {
            match crate::json::field(entry, "message"@) {
                None => b,
                Some(msg) => {
                    let role = match crate::json::str_of(crate::json::field(msg, "role"@)) {
                        Some(r) => r,
                        None => Seq::empty(),
                    };
                    let ts = entry_ts(entry);
                    if role == "user"@ {
                        TrackView { turn_count: inc(b.turn_count), in_turn: true, last_ts: ts, ..b }
                    } else if role == "toolResult"@ {
                        TrackView { in_turn: true, last_ts: ts, ..b }
                    } else if role != "assistant"@ {
                        b
                    } else {
                        match crate::json::field(msg, "content"@) {
                            Some(crate::json::Json::Array(blocks)) => {
                                let (b2, any) = blocks_step(
                                    TrackView { last_ts: ts, ..b },
                                    blocks@,
                                    ts,
                                );
                                if any {
                                    b2
                                } else {
                                    TrackView { in_turn: false, ..b2 }
                                }
                            },
                            _ => b,
                        }
                    }
                },
            }
        },
    }
}

pub open spec fn empty_track() -> TrackView {
    TrackView {
        active_skill: None,
        references: Seq::empty(),
        actions: Seq::empty(),
        checks: Seq::empty(),
        inspected: 0,
        modified: 0,
        start_ms: None,
        last_ts: 0,
        turn_count: 0,
        in_turn: false,
    }
}

pub open spec fn session_fold(ls: Seq<Seq<char>>) -> TrackView
    decreases ls.len(),
{
    if ls.len() == 0 {
        empty_track()
    } else {
        session_line_step(session_fold(ls.drop_last()), ls.last())
    }
}

} // verus!

verus! {

use crate::json::Json;
use crate::telemetry::skills::{ComplianceCheck, SkillAction, SkillReference, SkillSnapshotFile, SkillState};

pub open spec fn ref_views(v: Seq<SkillReference>) -> Seq<(Seq<char>, Seq<char>)> {
    v.map_values(|r: SkillReference| (r.name@, r.summary@))
}

pub open spec fn action_views(v: Seq<SkillAction>) -> Seq<(Seq<char>, Seq<char>, Seq<char>, u64)> {
    v.map_values(|a: SkillAction| (a.kind@, a.target@, a.summary@, a.timestamp))
}

pub open spec fn opt_str(o: Option<String>) -> Option<Seq<char>> {
    match o {
        Some(s) => Some(s@),
        None => None,
    }
}

pub open spec fn opt_json(o: Option<&Json>) -> Option<Json> {
    match o {
        Some(v) => Some(*v),
        None => None,
    }
}

/// The tracker replaying one session.
struct Builder {
    active_skill: Option<String>,
    references: Vec<SkillReference>,
    actions: Vec<SkillAction>,
    compliance: Vec<ComplianceCheck>,
    inspected: u64,
    modified: u64,
    start_ms: Option<u64>,
    last_ts: u64,
    turn_count: u64,
    in_turn: bool,
}

impl Builder {
    spec fn view(self) -> TrackView {
        TrackView {
            active_skill: opt_str(self.active_skill),
            references: ref_views(self.references@),
            actions: action_views(self.actions@),
            checks: check_views(self.compliance@),
            inspected: self.inspected,
            modified: self.modified,
            start_ms: self.start_ms,
            last_ts: self.last_ts,
            turn_count: self.turn_count,
            in_turn: self.in_turn,
        }
    }

    fn new() -> (r: Self)
        ensures
            r.view() == empty_track(),
    {
        let r = Builder {
            active_skill: None,
            references: Vec::new(),
            actions: Vec::new(),
            compliance: Vec::new(),
            inspected: 0,
            modified: 0,
            start_ms: None,
            last_ts: 0,
            turn_count: 0,
            in_turn: false,
        };
        assert(ref_views(r.references@) =~= Seq::<(Seq<char>, Seq<char>)>::empty());
        assert(action_views(r.actions@) =~= Seq::<(Seq<char>, Seq<char>, Seq<char>, u64)>::empty());
        assert(check_views(r.compliance@) =~= Seq::<(Seq<char>, Seq<char>, Seq<char>, Seq<char>)>::empty());
        r
    }

    fn push_action(&mut self, kind: &[char], target: &[char], summary: &[char], ts: u64)
        ensures
            final(self).view() == with_action(old(self).view(), kind@, target@, summary@, ts),
    {
        let a = SkillAction {
            kind: string_of(kind),
            target: string_of(target),
            summary: string_of(summary),
            timestamp: ts,
        };
        let ghost before = self.actions@;
        self.actions.push(a);
        assert(action_views(self.actions@) == action_views(before).push((kind@, target@, summary@, ts)));
    }

    fn add_reference(&mut self, name: &[char])
        ensures
            final(self).view() == (TrackView {
                references: with_reference(old(self).view().references, name@),
                ..old(self).view()
            }),
    {
        let ghost rv = ref_views(self.references@);
        let mut i: usize = 0;
        while i < self.references.len()
            invariant
                0 <= i <= self.references@.len(),
                rv == ref_views(self.references@),
                forall|j: int| 0 <= j < i ==> (#[trigger] rv[j]).0 != name@,
            decreases self.references.len() - i,
        {
            if crate::text::chars_eq(chars_of(self.references[i].name.as_str()).as_slice(), name) {
                assert(rv[i as int].0 == name@);
                return ;
            }
            i = i + 1;
        }
        let summary = reference_summary(name);
        let r = SkillReference { name: string_of(name), summary: crate::text::to_string(summary) };
        self.references.push(r);
        assert(ref_views(self.references@) == rv.push((name@, spec_reference_summary(name@))));
    }

    #[verifier::rlimit(30)]
    fn on_edit(&mut self, tool: &[char], args: Option<&Json>, raw: &[char], norm: &[char], base: &[char], ts: u64)
        requires
            tool@ == "edit"@ || tool@ == "write"@,
        ensures
            final(self).view() == with_action(
                TrackView {
                    modified: if raw@.len() > 0 {
                        inc(old(self).view().modified)
                    } else {
                        old(self).view().modified
                    },
                    checks: spec_run_gates(norm@, payload_of(tool@, opt_json(args)), old(self).view().checks),
                    ..old(self).view()
                },
                tool@,
                base@,
                (if tool@ == "edit"@ {
                    "Modifying"@
                } else {
                    "Writing"@
                }) + " "@ + base@,
                ts,
            ),
    {
        if raw.len() > 0 {
            self.modified = if self.modified == u64::MAX {
                0
            } else {
                self.modified + 1
            };
        }
        let is_write = crate::text::chars_eq(tool, chars_of("write").as_slice());
        let payload = payload_exec(tool, args);
        let norm_s = string_of(norm);
        let payload_s = string_of(payload.as_slice());
        run_gates(norm_s.as_str(), payload_s.as_str(), &mut self.compliance);
        let verb = if is_write {
            chars_of("Writing ")
        } else {
            chars_of("Modifying ")
        };
        proof {
            assert("write"@.len() != "edit"@.len()) by {
                reveal_strlit("write");
                reveal_strlit("edit");
            }
            assert("Writing "@ == "Writing"@ + " "@) by {
                reveal_strlit("Writing ");
                reveal_strlit("Writing");
                reveal_strlit(" ");
            }
            assert("Modifying "@ == "Modifying"@ + " "@) by {
                reveal_strlit("Modifying ");
                reveal_strlit("Modifying");
                reveal_strlit(" ");
            }
        }
        let summary = crate::text::concat_chars(verb.as_slice(), base);
        self.push_action(tool, base, summary.as_slice(), ts);
    }

    fn on_tool_call(&mut self, tool: &[char], args: Option<&Json>, ts: u64)
        ensures
            final(self).view() == tool_step(old(self).view(), tool@, opt_json(args), ts),
    {
        if ts > 0 {
            if self.start_ms.is_none() {
                self.start_ms = Some(ts);
            }
            self.last_ts = ts;
        }
        let raw: Vec<char> = match args {
            Some(a) => match crate::json::get_str(a, "path") {
                Some(p) => chars_of(p.as_str()),
                None => Vec::new(),
            },
            None => Vec::new(),
        };
        assert(raw@ == arg_str(opt_json(args), "path"@));
        let mut norm: Vec<char> = Vec::new();
        let mut i: usize = 0;
        while i < raw.len()
            invariant
                0 <= i <= raw@.len(),
                norm@ == slashes(raw@.take(i as int)),
            decreases raw.len() - i,
        {
            let c = raw[i];
            norm.push(
                if c == '\\' {
                    '/'
                } else {
                    c
                },
            );
            assert(slashes(raw@.take(i + 1)) =~= slashes(raw@.take(i as int)).push(
                if c == '\\' {
                    '/'
                } else {
                    c
                },
            ));
            i = i + 1;
        }
        assert(raw@.take(i as int) == raw@);
        let norm = norm.as_slice();
        let base = base_name(norm);
        let base = base.as_slice();
        let is_read = crate::text::chars_eq(tool, chars_of("read").as_slice());
        if is_read && crate::text::ends_with_chars(norm, chars_of("SKILL.md").as_slice()) {
            let active = skill_name_from(norm);
            let name: Vec<char> = match &active {
                Some(a) => chars_of(a.as_str()),
                None => Vec::new(),
            };
            self.active_skill = active;
            let label = base_label(norm);
            let summary = crate::text::concat_chars(
                chars_of("Loaded skill entry point: ").as_slice(),
                name.as_slice(),
            );
            self.push_action(chars_of("read").as_slice(), label.as_slice(), summary.as_slice(), ts);
            return ;
        }
        if is_read && has(norm, "/references/") {
            self.add_reference(base);
            let summary = crate::text::concat_chars(
                chars_of("Guidance: ").as_slice(),
                chars_of(reference_summary(base)).as_slice(),
            );
            self.push_action(chars_of("read").as_slice(), base, summary.as_slice(), ts);
            return ;
        }
        if is_read && has(norm, "@earendil-works/pi-coding-agent/docs") {
            let summary = crate::text::concat_chars(chars_of("Engine API doc: ").as_slice(), base);
            self.push_action(chars_of("doc_consult").as_slice(), base, summary.as_slice(), ts);
            return ;
        }
        if is_read && raw.len() > 0 {
            self.inspected = if self.inspected == u64::MAX {
                0
            } else {
                self.inspected + 1
            };
            let summary = crate::text::concat_chars(chars_of("Inspecting ").as_slice(), base);
            self.push_action(chars_of("read").as_slice(), base, summary.as_slice(), ts);
            return ;
        }
        if crate::text::chars_eq(tool, chars_of("edit").as_slice()) || crate::text::chars_eq(
            tool,
            chars_of("write").as_slice(),
        ) {
            self.on_edit(tool, args, raw.as_slice(), norm, base, ts);
            return ;
        }
        if crate::text::chars_eq(tool, chars_of("bash").as_slice()) {
            match args {
                Some(a) => match crate::json::get_str(a, "command") {
                    Some(cmd) => {
                        let cv = chars_of(cmd.as_str());
                        let t = if cv.len() > 40 {
                            crate::text::slice_chars(cv.as_slice(), 0, 40)
                        } else {
                            crate::text::copy_chars(cv.as_slice())
                        };
                        let s = if cv.len() > 48 {
                            crate::text::slice_chars(cv.as_slice(), 0, 48)
                        } else {
                            crate::text::copy_chars(cv.as_slice())
                        };
                        let summary = crate::text::concat_chars(chars_of("Shell: ").as_slice(), s.as_slice());
                        self.push_action(chars_of("bash").as_slice(), t.as_slice(), summary.as_slice(), ts);
                    },
                    None => {},
                },
                None => {},
            }
        }
    }
}

fn payload_exec(tool: &[char], args: Option<&Json>) -> (r: Vec<char>)
    ensures
        r@ == payload_of(tool@, opt_json(args)),
{
    let is_write = crate::text::chars_eq(tool, chars_of("write").as_slice());
    if is_write {
        match args {
            Some(a) => match crate::json::get_str(a, "content") {
                Some(c) => chars_of(c.as_str()),
                None => Vec::new(),
            },
            None => Vec::new(),
        }
    } else {
        match args {
            Some(a) => match crate::json::get_array(a, "edits") {
                Some(es) => {
                    let texts = collect_new_texts(es);
                    crate::text::join_exec(&texts, chars_of("\n").as_slice())
                },
                None => Vec::new(),
            },
            None => Vec::new(),
        }
    }
}

fn collect_new_texts(es: &Vec<Json>) -> (r: Vec<Vec<char>>)
    ensures
        crate::text::views(r@) == new_texts(es@),
{
    let mut out: Vec<Vec<char>> = Vec::new();
    let mut i: usize = 0;
    assert(crate::text::views(out@) =~= new_texts(es@.take(0)));
    while i < es.len()
        invariant
            0 <= i <= es@.len(),
            crate::text::views(out@) == new_texts(es@.take(i as int)),
        decreases es.len() - i,
    {
        assert(es@.take(i + 1).drop_last() == es@.take(i as int));
        match crate::json::get_str(&es[i], "newText") {
            Some(t) => {
                let ghost before = crate::text::views(out@);
                out.push(chars_of(t.as_str()));
                assert(crate::text::views(out@) == before.push(t@));
            },
            None => {},
        }
        i = i + 1;
    }
    assert(es@.take(i as int) == es@);
    out
}

} // verus!

verus! {

impl Builder {
    #[verifier::rlimit(60)]
    fn on_blocks(&mut self, blocks: &Vec<Json>, ts: u64) -> (any: bool)
        ensures
            (final(self).view(), any) == blocks_step(old(self).view(), blocks@, ts),
    {
        let mut any = false;
        let mut i: usize = 0;
        assert(blocks@.take(0) =~= Seq::<Json>::empty());
        while i < blocks.len()
            invariant
                0 <= i <= blocks@.len(),
                (self.view(), any) == blocks_step(old(self).view(), blocks@.take(i as int), ts),
            decreases blocks.len() - i,
        {
            assert(blocks@.take(i + 1).drop_last() == blocks@.take(i as int));
            let call = self.on_block(&blocks[i], ts);
            any = any || call;
            i = i + 1;
        }
        assert(blocks@.take(i as int) == blocks@);
        any
    }

    fn on_block(&mut self, blk: &Json, ts: u64) -> (call: bool)
        ensures
            (final(self).view(), call) == block_step(old(self).view(), *blk, ts),
    {
        let is_call = match crate::json::get_str(blk, "type") {
            Some(t) => crate::text::chars_eq(chars_of(t.as_str()).as_slice(), chars_of("toolCall").as_slice()),
            None => false,
        };
        if is_call {
            let name: Vec<char> = match crate::json::get_str(blk, "name") {
                Some(n) => chars_of(n.as_str()),
                None => Vec::new(),
            };
            let args = crate::json::get(blk, "arguments");
            self.on_tool_call(name.as_slice(), args, ts);
        }
        is_call
    }

    fn on_line(&mut self, line: &[char])
        ensures
            final(self).view() == session_line_step(old(self).view(), line@),
    {
        let ls = string_of(line);
        let entry = match crate::json::parse_json(ls.as_str()) {
            Some(e) => e,
            None => {
                return ;
            },
        };
        let is_message = match crate::json::get_str(&entry, "type") {
            Some(t) => crate::text::chars_eq(chars_of(t.as_str()).as_slice(), chars_of("message").as_slice()),
            None => false,
        };
        if !is_message {
            return ;
        }
        let msg = match crate::json::get(&entry, "message") {
            Some(m) => m,
            None => {
                return ;
            },
        };
        let role: Vec<char> = match crate::json::get_str(msg, "role") {
            Some(r) => chars_of(r.as_str()),
            None => Vec::new(),
        };
        let ts: u64 = match crate::json::get_str(&entry, "timestamp") {
            Some(t) => match iso_to_epoch_ms(t.as_str()) {
                Some(v) => v,
                None => 0,
            },
            None => 0,
        };
        let role = role.as_slice();
        if crate::text::chars_eq(role, chars_of("user").as_slice()) {
            self.turn_count = if self.turn_count == u64::MAX {
                0
            } else {
                self.turn_count + 1
            };
            self.in_turn = true;
            self.last_ts = ts;
            return ;
        }
        if crate::text::chars_eq(role, chars_of("toolResult").as_slice()) {
            self.in_turn = true;
            self.last_ts = ts;
            return ;
        }
        if !crate::text::chars_eq(role, chars_of("assistant").as_slice()) {
            return ;
        }
        match crate::json::get_array(msg, "content") {
            Some(blocks) => {
                self.last_ts = ts;
                let any = self.on_blocks(blocks, ts);
                if !any {
                    self.in_turn = false;
                }
            },
            None => {},
        }
    }

    fn finish(self) -> (r: SkillState)
        ensures
            state_of(r, self.view()),
    {
        let start = match self.start_ms {
            Some(s) => s,
            None => self.last_ts,
        };
        let mut actions = self.actions;
        let n = actions.len();
        let ghost all = actions@;
        if n > 8 {
            let kept = actions.split_off(n - 8);
            actions = kept;
            assert(action_views(actions@) =~= last_eight(action_views(all)));
        }
        SkillState {
            active_skill: self.active_skill,
            references: self.references,
            actions,
            compliance: self.compliance,
            inspected_count: self.inspected,
            modified_count: self.modified,
            start_time: start,
            last_update_time: self.last_ts,
            in_turn: self.in_turn,
            turn_count: self.turn_count,
        }
    }
}

/// The newest eight actions.
pub open spec fn last_eight<T>(s: Seq<T>) -> Seq<T> {
    if s.len() > 8 {
        s.skip(s.len() - 8)
    } else {
        s
    }
}

/// `st` is the skill state the tracker ends in.
pub open spec fn state_of(st: SkillState, b: TrackView) -> bool {
    &&& opt_str(st.active_skill) == b.active_skill
    &&& ref_views(st.references@) == b.references
    &&& action_views(st.actions@) == last_eight(b.actions)
    &&& check_views(st.compliance@) == b.checks
    &&& st.inspected_count == b.inspected
    &&& st.modified_count == b.modified
    &&& st.start_time == (match b.start_ms {
        Some(s) => s,
        None => b.last_ts,
    })
    &&& st.last_update_time == b.last_ts
    &&& st.in_turn == b.in_turn
    &&& st.turn_count == b.turn_count
}

/// The Skills face of a session JSONL: the tracker replayed over its lines.
pub open spec fn spec_parse_skills(content: Seq<char>) -> TrackView {
    session_fold(crate::text::lines(content))
}

/// Parses session JSONL content and derives the Skills face state (a live
/// snapshot of version 1).
#[verifier::rlimit(60)]
pub fn parse_skills_str(content: &str) -> (r: SkillSnapshotFile)
    ensures
        r.version == 1,
        r.live,
        r.generated_at@.len() == 0,
        r.state matches Some(st) && state_of(st, spec_parse_skills(content@)),
{
    let mut b = Builder::new();
    let ls = crate::text::lines_exec(chars_of(content).as_slice());
    let ghost lv = crate::text::views(ls@);
    let mut i: usize = 0;
    assert(lv.take(0) =~= Seq::<Seq<char>>::empty());
    while i < ls.len()
        invariant
            0 <= i <= ls@.len(),
            lv == crate::text::views(ls@),
            lv == crate::text::lines(content@),
            b.view() == session_fold(lv.take(i as int)),
        decreases ls.len() - i,
    {
        assert(lv.take(i + 1).drop_last() == lv.take(i as int));
        assert(lv.take(i + 1).last() == ls@[i as int]@);
        b.on_line(ls[i].as_slice());
        i = i + 1;
    }
    assert(lv.take(i as int) == lv);
    SkillSnapshotFile { version: 1, live: true, generated_at: String::new(), state: Some(b.finish()) }
}

} // verus!

verus! {

/// No two checks share a rule and a label.
pub open spec fn one_per_rule(out: Seq<(Seq<char>, Seq<char>, Seq<char>, Seq<char>)>) -> bool {
    forall|i: int, j: int|
        0 <= i < j < out.len() ==> !((#[trigger] out[i]).0 == (#[trigger] out[j]).0 && out[i].1
            == out[j].1)
}

proof fn lemma_push_one_per_rule(
    out: Seq<(Seq<char>, Seq<char>, Seq<char>, Seq<char>)>,
    c: (Seq<char>, Seq<char>, Seq<char>, Seq<char>),
)
    requires
        one_per_rule(out),
    ensures
        one_per_rule(push_check(out, c)),
{
    if exists|i: int| 0 <= i < out.len() && (#[trigger] out[i]).0 == c.0 && out[i].1 == c.1 {
        let k = choose|i: int|
            0 <= i < out.len() && (#[trigger] out[i]).0 == c.0 && out[i].1 == c.1 && forall|j: int|
                0 <= j < i ==> !((#[trigger] out[j]).0 == c.0 && out[j].1 == c.1);
        let w = choose|i: int| 0 <= i < out.len() && (#[trigger] out[i]).0 == c.0 && out[i].1 == c.1;
        assert(exists|i: int|
            0 <= i < out.len() && (#[trigger] out[i]).0 == c.0 && out[i].1 == c.1 && forall|j: int|
                0 <= j < i ==> !((#[trigger] out[j]).0 == c.0 && out[j].1 == c.1)) by {
            assert forall|j: int| 0 <= j < w implies !((#[trigger] out[j]).0 == c.0 && out[j].1 == c.1) by {
                if out[j].0 == c.0 && out[j].1 == c.1 {
                    assert(out[j].0 == out[w].0 && out[j].1 == out[w].1);
                }
            }
        }
        let t = out.update(k, c);
        assert forall|i: int, j: int| 0 <= i < j < t.len() implies !((#[trigger] t[i]).0 == (
        #[trigger] t[j]).0 && t[i].1 == t[j].1) by {
            if i == k {
                assert(t[j] == out[j]);
                assert(!(out[k].0 == out[j].0 && out[k].1 == out[j].1));
            } else if j == k {
                assert(t[i] == out[i]);
                assert(!(out[i].0 == out[k].0 && out[i].1 == out[k].1));
            } else {
                assert(t[i] == out[i] && t[j] == out[j]);
            }
        }
    } else {
        let t = out.push(c);
        assert forall|i: int, j: int| 0 <= i < j < t.len() implies !((#[trigger] t[i]).0 == (
        #[trigger] t[j]).0 && t[i].1 == t[j].1) by {
            if j == out.len() {
                assert(t[i] == out[i]);
                assert(t[j] == c);
            } else {
                assert(t[i] == out[i] && t[j] == out[j]);
            }
        }
    }
}

/// The gates report each rule once: running them over any mutation keeps
/// the checks one per rule and label.
pub proof fn lemma_gates_one_per_rule(
    path: Seq<char>,
    code: Seq<char>,
    out: Seq<(Seq<char>, Seq<char>, Seq<char>, Seq<char>)>,
)
    requires
        one_per_rule(out),
    ensures
        one_per_rule(spec_run_gates(path, code, out)),
{
    let pkg = crate::text::ends_with(path, "package.json"@);
    if code.len() == 0 && !pkg {
    } else {
        let c = spec_strip_comments(code);
        match crate::json::parsed_json(c) {
            Some(v) if pkg => {
                lemma_package_one_per_rule(v, out);
            },
            _ => {
                lemma_code_one_per_rule(c, out);
            },
        }
    }
}

proof fn lemma_package_one_per_rule(
    v: crate::json::Json,
    out: Seq<(Seq<char>, Seq<char>, Seq<char>, Seq<char>)>,
)
    requires
        one_per_rule(out),
    ensures
        one_per_rule(package_gates(v, out)),
{
    let deps = crate::json::field(v, "dependencies"@);
    lemma_push_one_per_rule(
        out,
        (
            "peer-deps"@,
            "Peer Dependencies"@,
            "fail"@,
            "Core @earendil-works package in dependencies — must stay in peerDependencies."@,
        ),
    );
    lemma_push_one_per_rule(
        out,
        ("peer-deps"@, "Peer Dependencies"@, "pass"@, "No core package bundled in dependencies"@),
    );
    let core = match deps {
        Some(crate::json::Json::Object(ks, vs)) => exists|i: int|
            0 <= i < ks@.len() && crate::text::starts_with((#[trigger] ks@[i])@, "@earendil-works"@),
        _ => false,
    };
    let o1 = if core {
        push_check(
            out,
            (
                "peer-deps"@,
                "Peer Dependencies"@,
                "fail"@,
                "Core @earendil-works package in dependencies — must stay in peerDependencies."@,
            ),
        )
    } else if deps is Some {
        push_check(
            out,
            ("peer-deps"@, "Peer Dependencies"@, "pass"@, "No core package bundled in dependencies"@),
        )
    } else {
        out
    };
    lemma_push_one_per_rule(
        o1,
        ("manifest-hygiene"@, "ESM Manifest"@, "warn"@, "package.json missing \"type\": \"module\"."@),
    );
}

proof fn lemma_later_one_per_rule(code: Seq<char>, out: Seq<(Seq<char>, Seq<char>, Seq<char>, Seq<char>)>)
    requires
        one_per_rule(out),
    ensures
        one_per_rule(later_gates(code, out)),
{
    let returns_error = has_text(code, "isError: true"@) || has_text(code, "error: \""@) || has_text(
        code,
        "error: '"@,
    );
    lemma_push_one_per_rule(
        out,
        (
            "error-throw"@,
            "Error Reporting Contract"@,
            "warn"@,
            "Tool returns an error payload instead of throwing Error (isError is only set via throw)."@,
        ),
    );
    lemma_push_one_per_rule(
        out,
        (
            "error-throw"@,
            "Error Reporting Contract"@,
            "pass"@,
            "Tool errors reported via throw new Error()."@,
        ),
    );
    let o1 = gate_error_throw(code, out);
    lemma_push_one_per_rule(
        o1,
        (
            "trailing-space"@,
            "Completion Marker Guard"@,
            "fail"@,
            "Marker found inside item.value — value is inserted verbatim; markers belong in label/description."@,
        ),
    );
    let o2 = gate_trailing(code, o1);
    lemma_push_one_per_rule(
        o2,
        (
            "lifecycle-cleanup"@,
            "Lifecycle Listener Cleanup"@,
            "pass"@,
            "Listeners tracked for session_shutdown unsubscribe."@,
        ),
    );
    lemma_push_one_per_rule(
        o2,
        (
            "lifecycle-cleanup"@,
            "Lifecycle Listener Cleanup"@,
            "warn"@,
            "pi.on() result not stored — listener leaks on /reload."@,
        ),
    );
    let o3 = gate_lifecycle(code, o2);
    lemma_push_one_per_rule(
        o3,
        ("ui-mode-guard"@, "UI Mode Guard"@, "pass"@, "TUI state guarded by hasUI/canOverlay."@),
    );
    lemma_push_one_per_rule(
        o3,
        (
            "ui-mode-guard"@,
            "UI Mode Guard"@,
            "warn"@,
            "custom() without a hasUI guard breaks headless sessions."@,
        ),
    );
}

proof fn lemma_code_one_per_rule(code: Seq<char>, out: Seq<(Seq<char>, Seq<char>, Seq<char>, Seq<char>)>)
    requires
        one_per_rule(out),
    ensures
        one_per_rule(code_gates(code, out)),
{
    let fail_check = (
        "string-enum"@,
        "StringEnum Schema Rule"@,
        "fail"@,
        "Type.Union of Type.Literal breaks Google Gemini — use StringEnum([...])."@,
    );
    let pass_check = (
        "string-enum"@,
        "StringEnum Schema Rule"@,
        "pass"@,
        "StringEnum used for enum parameters (Gemini compatible)."@,
    );
    lemma_push_one_per_rule(out, fail_check);
    lemma_push_one_per_rule(out, pass_check);
    lemma_later_one_per_rule(code, out);
    lemma_later_one_per_rule(code, push_check(out, fail_check));
    lemma_later_one_per_rule(code, push_check(out, pass_check));
}

/// The Focus list keeps at most the eight newest actions.
pub proof fn lemma_actions_capped(st: SkillState, b: TrackView)
    requires
        state_of(st, b),
    ensures
        st.actions@.len() <= 8,
        b.actions.len() <= 8 ==> action_views(st.actions@) == b.actions,
{
    assert(action_views(st.actions@).len() == st.actions@.len());
}

} // verus!

verus! {

/// Reading a plain file, one that is neither a skill's `SKILL.md`, a
/// reference nor an engine doc, counts one more inspected file and records
/// one action; nothing counts as modified.
pub proof fn lemma_read_of_plain_file_is_inspected(
    b: TrackView,
    v: crate::json::Json,
    p: String,
    ts: u64,
)
    requires
        crate::json::field(v, "path"@) == Some(crate::json::Json::Str(p)),
        p@.len() > 0,
        b.inspected < u64::MAX,
        !crate::text::ends_with(slashes(p@), "SKILL.md"@),
        !crate::text::contains(slashes(p@), "/references/"@),
        !crate::text::contains(slashes(p@), "@earendil-works/pi-coding-agent/docs"@),
    ensures
        tool_step(b, "read"@, Some(v), ts).inspected == b.inspected + 1,
        tool_step(b, "read"@, Some(v), ts).modified == b.modified,
        tool_step(b, "read"@, Some(v), ts).actions.len() == b.actions.len() + 1,
{
    assert(arg_str(Some(v), "path"@) == p@);
}

/// Editing or writing a file counts one more modified file and records one
/// action; nothing counts as inspected.
pub proof fn lemma_edit_or_write_is_modified(
    b: TrackView,
    tool: Seq<char>,
    v: crate::json::Json,
    p: String,
    ts: u64,
)
    requires
        tool == "edit"@ || tool == "write"@,
        crate::json::field(v, "path"@) == Some(crate::json::Json::Str(p)),
        p@.len() > 0,
        b.modified < u64::MAX,
    ensures
        tool_step(b, tool, Some(v), ts).modified == b.modified + 1,
        tool_step(b, tool, Some(v), ts).inspected == b.inspected,
        tool_step(b, tool, Some(v), ts).actions.len() == b.actions.len() + 1,
{
    reveal_strlit("read");
    reveal_strlit("edit");
    reveal_strlit("write");
    assert("edit"@ != "read"@) by {
        assert("edit"@[0] != "read"@[0]);
    }
    assert("write"@ != "read"@) by {
        assert("write"@.len() != "read"@.len());
    }
    assert(arg_str(Some(v), "path"@) == p@);
}

} // verus!

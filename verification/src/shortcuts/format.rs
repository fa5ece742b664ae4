//! Text shaping for the Shortcuts tab and the usage panel.
use crate::text::{chars_of, concat_chars, dec_digits, decimal_chars, slice_chars, string_of, to_string};
use vstd::prelude::*;

verus! {

/// The first `n` digits of `d` with a narrow no-break space before every
/// digit that starts a group of three counted from the right.
pub open spec fn grouped(d: Seq<char>, n: int) -> Seq<char>
    decreases n,
{
    if n <= 0 {
        Seq::empty()
    } else {
        let i = n - 1;
        grouped(d, i) + if i > 0 && (d.len() - i) % 3 == 0 {
            seq!['\u{202f}', d[i]]
        } else {
            seq![d[i]]
        }
    }
}

/// `value` with its thousands grouped Czech style (`70 627`).
pub open spec fn spec_format_count(value: nat) -> Seq<char> {
    let d = dec_digits(value);
    grouped(d, d.len() as int)
}

/// Groups thousands with a narrow no-break space, Czech style (`70 627`).
pub fn format_count(value: u64) -> (r: String)
    ensures
        r@ == spec_format_count(value as nat),
{
    let d = decimal_chars(value as u128);
    let mut out: Vec<char> = Vec::new();
    let mut i: usize = 0;
    while i < d.len()
        invariant
            0 <= i <= d@.len(),
            out@ == grouped(d@, i as int),
        decreases d.len() - i,
    {
        if i > 0 && (d.len() - i) % 3 == 0 {
            out.push('\u{202f}');
        }
        out.push(d[i]);
        i = i + 1;
    }
    string_of(out.as_slice())
}

/// A text cut to `max` chars, its last kept char replaced by `…` when cut.
pub open spec fn spec_truncate(text: Seq<char>, max: int) -> Seq<char> {
    if max == 0 {
        Seq::empty()
    } else if text.len() <= max {
        text
    } else {
        text.take(max - 1).push('…')
    }
}

/// Truncates to `max` chars, ending in `…` when cut.
pub fn truncate(text: &str, max: usize) -> (r: String)
    ensures
        r@ == spec_truncate(text@, max as int),
{
    if max == 0 {
        return String::new();
    }
    let v = chars_of(text);
    if v.len() <= max {
        return to_string(text);
    }
    let mut out = slice_chars(v.as_slice(), 0, max - 1);
    out.push('…');
    string_of(out.as_slice())
}

/// A path of at most 52 chars: a longer one keeps its last 49 chars after `…`.
pub open spec fn spec_shorten_path(path: Seq<char>) -> Seq<char> {
    if path.len() <= 52 {
        path
    } else {
        seq!['…'] + path.skip(path.len() - 49)
    }
}

/// Shortens a long path for the header, keeping the tail visible.
pub fn shorten_path(path: &str) -> (r: String)
    ensures
        r@ == spec_shorten_path(path@),
{
    let v = chars_of(path);
    if v.len() <= 52 {
        return to_string(path);
    }
    let tail = slice_chars(v.as_slice(), v.len() - 49, v.len());
    let mut head: Vec<char> = Vec::new();
    head.push('…');
    let r = concat_chars(head.as_slice(), tail.as_slice());
    assert(head@ == seq!['…']);
    string_of(r.as_slice())
}

} // verus!

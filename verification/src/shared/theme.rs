//! Text parts of the shared modal styling: the focus marker of a field
//! title and the proportional usage bar.
use crate::text::{chars_of, string_of};
use vstd::prelude::*;

verus! {

/// The title of a field: a leading focus marker when focused, the same
/// width of blanks otherwise, then the label and a blank.
pub open spec fn spec_field_title(label: Seq<char>, focused: bool) -> Seq<char> {
    (if focused {
        seq![' ', '▶', ' ']
    } else {
        seq![' ', ' ', ' ']
    }) + label + seq![' ']
}

/// Block title with a leading focus marker. The marker is a non-colour cue, so
/// the focused field stays identifiable without relying on colour alone.
pub fn field_title(label: &str, focused: bool) -> (r: String)
    ensures
        r@ == spec_field_title(label@, focused),
{
    let mut out: Vec<char> = Vec::new();
    out.push(' ');
    out.push(if focused {
        '▶'
    } else {
        ' '
    });
    out.push(' ');
    let l = chars_of(label);
    let mut i: usize = 0;
    while i < l.len()
        invariant
            0 <= i <= l@.len(),
            out@ == spec_field_title(label@, focused).take(3 + i),
            l@ == label@,
        decreases l.len() - i,
    {
        out.push(l[i]);
        i = i + 1;
        assert(out@ =~= spec_field_title(label@, focused).take(3 + i));
    }
    out.push(' ');
    assert(out@ =~= spec_field_title(label@, focused));
    string_of(out.as_slice())
}

/// Cells a bar of `width` fills for `value` out of `max`: the nearest whole
/// number to `value / max * width` (halves round up), at most `width`; an
/// empty scale fills nothing.
pub open spec fn bar_fill(value: u64, max: u64, width: usize) -> int {
    if max == 0 {
        0
    } else {
        let p = value * width;
        let f = if 2 * (p % max as int) >= max {
            p / max as int + 1
        } else {
            p / max as int
        };
        if f > width {
            width as int
        } else {
            f
        }
    }
}

/// `filled` full cells then empty ones, `width` in all.
pub open spec fn bar_cells(filled: int, width: int) -> Seq<char> {
    Seq::new(width as nat, |i: int| if i < filled { '█' } else { '░' })
}

/// A proportional bar (`████░░░░`) sized to `value`/`max` for `width` cells.
pub fn usage_bar(value: u64, max: u64, width: usize) -> (r: String)
    ensures
        r@ == bar_cells(bar_fill(value, max, width), width as int),
{
    let filled: usize = if max == 0 {
        0
    } else {
        assert(value * width <= u64::MAX * usize::MAX) by (nonlinear_arith)
            requires
                value <= u64::MAX,
                width <= usize::MAX,
        ;
        assert(u64::MAX * usize::MAX <= u128::MAX) by (nonlinear_arith)
            requires
                usize::MAX <= u64::MAX,
        ;
        let p: u128 = value as u128 * width as u128;
        let q: u128 = p / max as u128;
        let rm: u128 = p % max as u128;
        let f: u128 = if 2 * rm >= max as u128 {
            q + 1
        } else {
            q
        };
        if f > width as u128 {
            width
        } else {
            f as usize
        }
    };
    let mut out: Vec<char> = Vec::new();
    let mut i: usize = 0;
    while i < width
        invariant
            0 <= i <= width,
            filled == bar_fill(value, max, width),
            out@ == bar_cells(filled as int, width as int).take(i as int),
        decreases width - i,
    {
        out.push(if i < filled {
            '█'
        } else {
            '░'
        });
        i = i + 1;
        assert(out@ =~= bar_cells(filled as int, width as int).take(i as int));
    }
    assert(out@ =~= bar_cells(filled as int, width as int));
    string_of(out.as_slice())
}

} // verus!

verus! {

/// A bar is exactly `width` cells, its filled part never more than `width`,
/// and a value at or over the scale fills it all.
pub proof fn lemma_bar_shape(value: u64, max: u64, width: usize)
    ensures
        0 <= bar_fill(value, max, width) <= width,
        bar_cells(bar_fill(value, max, width), width as int).len() == width,
        max > 0 && value >= max ==> bar_fill(value, max, width) == width,
{
    if max > 0 {
        let p = value * width;
        assert(p >= 0) by (nonlinear_arith)
            requires
                p == value * width,
                value >= 0,
                width >= 0,
        ;
        if value >= max {
            assert(p >= max * width) by (nonlinear_arith)
                requires
                    p == value * width,
                    value >= max,
                    width >= 0,
            ;
            assert(p / max as int >= width) by (nonlinear_arith)
                requires
                    p >= max * width,
                    max > 0,
            ;
        }
    }
}

} // verus!

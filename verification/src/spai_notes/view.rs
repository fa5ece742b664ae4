//! What the SPAI notes tab writes: the project switcher's title, a row per
//! note of the list, and the viewer's title.
use crate::shortcuts::document::{pad_right, pad_right_exec};
use crate::spai_notes::note::{SpaiNoteItem, SpaiStatus};
use crate::spai_notes::state::SpaiNotesState;
use crate::spai_notes::text_cursor::byte_offset;
use crate::text::{chars_of, concat_chars, dec_digits, decimal_chars, string_of};
use vstd::prelude::*;
use vstd::utf8::encode_utf8;

verus! {

/// How a piece of a note row is shown.
#[derive(Debug, Clone, Copy, PartialEq, Eq, Structural)]
pub enum RowTone {
    /// The selection marker of an unselected row.
    Marker,
    /// The selection marker of the selected row.
    MarkerSelected,
    /// The status glyph, coloured by the status.
    Glyph(SpaiStatus),
    /// The note's id.
    Id,
    /// The title of an open note.
    Title,
    /// The title of the selected note.
    TitleSelected,
    /// The title of a finished note.
    TitleDone,
}

/// A piece of a note row with its tone.
pub struct RowSpan {
    pub text: String,
    pub tone: RowTone,
}

pub open spec fn row_view(r: Seq<RowSpan>) -> Seq<(Seq<char>, RowTone)> {
    r.map_values(|s: RowSpan| (s.text@, s.tone))
}

/// The project switcher's title: the position among the projects, the
/// selected project's name (`—` when none), and a badge when it is the
/// project the agent works in; the flag says the same.
pub open spec fn spec_project_title(st: SpaiNotesState) -> (Seq<char>, bool) {
    let idx = st.selected_project_idx as int;
    let has = idx < st.projects@.len();
    let name = if has {
        st.projects@[idx].name@
    } else {
        "—"@
    };
    let current = has && (st.current_project_path matches Some(cp) && crate::paths::path_equal(
        cp@,
        st.projects@[idx].path@,
    ));
    (
        " Projekt ("@ + dec_digits((idx + 1) as nat) + "/"@ + dec_digits(st.projects@.len()) + "): "@
            + name + (if current {
            " [AKTIVNÍ]"@
        } else {
            Seq::empty()
        }) + " "@,
        current,
    )
}

/// The project switcher's title (see [`spec_project_title`]).
pub fn project_title(st: &SpaiNotesState) -> (r: (String, bool))
    requires
        st.selected_project_idx < usize::MAX,
    ensures
        (r.0@, r.1) == spec_project_title(*st),
{
    let idx = st.selected_project_idx;
    let has = idx < st.projects.len();
    let name: Vec<char> = if has {
        chars_of(st.projects[idx].name.as_str())
    } else {
        chars_of("—")
    };
    let current = has && match &st.current_project_path {
        Some(cp) => crate::paths::same_path(cp.as_str(), st.projects[idx].path.as_str()),
        None => false,
    };
    let a = concat_chars(chars_of(" Projekt (").as_slice(), decimal_chars((idx + 1) as u128).as_slice());
    let b = concat_chars(a.as_slice(), chars_of("/").as_slice());
    let c = concat_chars(b.as_slice(), decimal_chars(st.projects.len() as u128).as_slice());
    let d = concat_chars(c.as_slice(), chars_of("): ").as_slice());
    let e = concat_chars(d.as_slice(), name.as_slice());
    let badge: Vec<char> = if current {
        chars_of(" [AKTIVNÍ]")
    } else {
        Vec::new()
    };
    let f = concat_chars(e.as_slice(), badge.as_slice());
    let g = concat_chars(f.as_slice(), chars_of(" ").as_slice());
    (string_of(g.as_slice()), current)
}

/// The title shown in the list: titles over 28 bytes keep their first 25
/// bytes and end in `...`.
pub open spec fn spec_list_title(title: Seq<char>) -> Seq<char> {
    if encode_utf8(title).len() > 28 {
        title.take(choose|k: int| 0 <= k <= title.len() && byte_offset(title, k) == 25) + "..."@
    } else {
        title
    }
}

/// A title over 28 bytes has a char that starts at byte 25 (cutting there
/// must not split a char).
pub open spec fn cuts_cleanly(title: Seq<char>) -> bool {
    encode_utf8(title).len() > 28 ==> exists|k: int| 0 <= k <= title.len() && byte_offset(title, k) == 25
}

proof fn lemma_offset_strict(s: Seq<char>, a: int, b: int)
    requires
        0 <= a < b <= s.len(),
    ensures
        byte_offset(s, a) < byte_offset(s, b),
    decreases b - a,
{
    crate::spai_notes::text_cursor::lemma_encode_push(s, b - 1);
    if b == s.len() {
        assert(s.take(b) == s);
    }
    if a < b - 1 {
        lemma_offset_strict(s, a, b - 1);
    }
}

/// The title shown in the list (see [`spec_list_title`]).
pub fn list_title(title: &str) -> (r: String)
    requires
        cuts_cleanly(title@),
    ensures
        r@ == spec_list_title(title@),
{
    let v = chars_of(title);
    let total = title.as_bytes().len();
    if total <= 28 {
        return string_of(v.as_slice());
    }
    let mut i: usize = 0;
    while i < v.len() && crate::spai_notes::text_cursor::byte_of(title, i) < 25
        invariant
            0 <= i <= v@.len(),
            v@ == title@,
            total == encode_utf8(title@).len(),
            total > 28,
            cuts_cleanly(title@),
            forall|j: int| 0 <= j < i ==> byte_offset(title@, j) < 25,
        decreases v.len() - i,
    {
        i = i + 1;
    }
    proof {
        let k = choose|k: int| 0 <= k <= title@.len() && byte_offset(title@, k) == 25;
        if k < i as int {
            assert(byte_offset(title@, k) < 25);
        }
        if (i as int) < k {
            lemma_offset_strict(title@, i as int, k);
        }
        assert(k == i as int);
    }
    let head = crate::text::slice_chars(v.as_slice(), 0, i);
    let r = concat_chars(head.as_slice(), chars_of("...").as_slice());
    string_of(r.as_slice())
}

/// A note's row of the list: the selection marker, the status glyph in
/// four columns, the id in nine, and the title.
pub open spec fn spec_note_row(item: SpaiNoteItem, selected: bool) -> Seq<(Seq<char>, RowTone)> {
    seq![
        (if selected {
            "▶ "@
        } else {
            "  "@
        }, if selected {
            RowTone::MarkerSelected
        } else {
            RowTone::Marker
        }),
        (pad_right(item.status.spec_glyph(), 4), RowTone::Glyph(item.status)),
        (pad_right(item.id@, 9), RowTone::Id),
        (spec_list_title(item.title@), if selected {
            RowTone::TitleSelected
        } else if item.status == SpaiStatus::Done {
            RowTone::TitleDone
        } else {
            RowTone::Title
        }),
    ]
}

/// A note's row of the list (see [`spec_note_row`]).
pub fn note_row(item: &SpaiNoteItem, selected: bool) -> (r: Vec<RowSpan>)
    requires
        cuts_cleanly(item.title@),
    ensures
        row_view(r@) == spec_note_row(*item, selected),
{
    let mut out: Vec<RowSpan> = Vec::new();
    let marker: &str = if selected {
        "▶ "
    } else {
        "  "
    };
    out.push(
        RowSpan {
            text: string_of(chars_of(marker).as_slice()),
            tone: if selected {
                RowTone::MarkerSelected
            } else {
                RowTone::Marker
            },
        },
    );
    let glyph = pad_right_exec(chars_of(item.status.glyph()).as_slice(), 4);
    out.push(RowSpan { text: string_of(glyph.as_slice()), tone: RowTone::Glyph(item.status) });
    let id = pad_right_exec(chars_of(item.id.as_str()).as_slice(), 9);
    out.push(RowSpan { text: string_of(id.as_slice()), tone: RowTone::Id });
    let tone = if selected {
        RowTone::TitleSelected
    } else if item.status == SpaiStatus::Done {
        RowTone::TitleDone
    } else {
        RowTone::Title
    };
    out.push(RowSpan { text: list_title(item.title.as_str()), tone });
    assert(row_view(out@) =~= spec_note_row(*item, selected));
    out
}

/// The viewer's title: the selected note's id and title, or the viewer's
/// name when none is selected.
pub fn viewer_title(item: Option<&SpaiNoteItem>) -> (r: String)
    ensures
        r@ == (match item {
            Some(it) => " "@ + it.id@ + " · "@ + it.title@ + " "@,
            None => " ZEN Prohlížeč "@,
        }),
{
    match item {
        Some(it) => {
            let a = concat_chars(chars_of(" ").as_slice(), chars_of(it.id.as_str()).as_slice());
            let b = concat_chars(a.as_slice(), chars_of(" · ").as_slice());
            let c = concat_chars(b.as_slice(), chars_of(it.title.as_str()).as_slice());
            let d = concat_chars(c.as_slice(), chars_of(" ").as_slice());
            string_of(d.as_slice())
        },
        None => string_of(chars_of(" ZEN Prohlížeč ").as_slice()),
    }
}

} // verus!

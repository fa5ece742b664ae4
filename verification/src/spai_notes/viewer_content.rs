//! What the note viewer on the right shows of a SPAI note: a metadata
//! header, a rule, then the body line by line, each piece with a tone the
//! renderer turns into a colour.
use crate::spai_notes::note::{SpaiNoteItem, SpaiStatus};
use crate::text::{chars_of, concat_chars, join, join_strings, lines, lines_exec, starts_with, starts_with_chars, string_of, string_views};
use vstd::prelude::*;

verus! {

/// How a piece of the viewer is shown.
#[derive(Debug, Clone, Copy, PartialEq, Eq, Structural)]
pub enum ViewerTone {
    /// A field's label.
    Label,
    /// The note's status, coloured by the status.
    Status(SpaiStatus),
    /// The note's type.
    Kind,
    /// The creation time.
    Created,
    /// The project facet.
    Project,
    /// The priority facet.
    Priority,
    /// The tags.
    Tags,
    /// The file name.
    File,
    /// The rule under the header.
    Rule,
    /// A `# ` heading line of the body.
    Heading1,
    /// A `## ` heading line.
    Heading2,
    /// A `### ` heading line.
    Heading3,
    /// Any other body line.
    Body,
}

/// A piece of text with its tone.
pub struct ViewerSpan {
    pub text: String,
    pub tone: ViewerTone,
}

/// One row of the viewer (no pieces: a blank row).
pub struct ViewerLine {
    pub spans: Vec<ViewerSpan>,
}

pub type ViewerLineView = Seq<(Seq<char>, ViewerTone)>;

pub open spec fn viewer_line_view(l: ViewerLine) -> ViewerLineView {
    l.spans@.map_values(|s: ViewerSpan| (s.text@, s.tone))
}

pub open spec fn viewer_view(v: Seq<ViewerLine>) -> Seq<ViewerLineView> {
    v.map_values(|l: ViewerLine| viewer_line_view(l))
}

/// The tone of a body line, by its heading marker.
pub open spec fn body_tone(line: Seq<char>) -> ViewerTone {
    if starts_with(line, "# "@) {
        ViewerTone::Heading1
    } else if starts_with(line, "## "@) {
        ViewerTone::Heading2
    } else if starts_with(line, "### "@) {
        ViewerTone::Heading3
    } else {
        ViewerTone::Body
    }
}

/// A row of one labelled value.
pub open spec fn field_row(label: Seq<char>, value: Seq<char>, tone: ViewerTone) -> ViewerLineView {
    seq![(label, ViewerTone::Label), (value, tone)]
}

/// The header rows: status and type, creation time, the project and the
/// priority when set, the tags when there are any, the file name.
pub open spec fn header_rows(item: SpaiNoteItem) -> Seq<ViewerLineView> {
    seq![
        seq![
            ("  Stav:     "@, ViewerTone::Label),
            (item.status.spec_glyph() + " "@ + item.status.name(), ViewerTone::Status(item.status)),
            ("    Typ: "@, ViewerTone::Label),
            (item.kind.name(), ViewerTone::Kind),
        ],
        field_row("  Vytvořeno:"@, " "@ + item.timestamp@, ViewerTone::Created),
    ] + (match item.facets.project {
        Some(p) => seq![field_row("  Projekt:  "@, p@, ViewerTone::Project)],
        None => Seq::empty(),
    }) + (match item.facets.priority {
        Some(p) => seq![field_row("  Priorita: "@, p@, ViewerTone::Priority)],
        None => Seq::empty(),
    }) + (if item.tags@.len() > 0 {
        seq![field_row("  Štítky:   "@, join(string_views(item.tags@), ", "@), ViewerTone::Tags)]
    } else {
        Seq::empty()
    }) + seq![field_row("  Soubor:   "@, item.file_name@, ViewerTone::File)]
}

/// The viewer's rule.
pub open spec fn rule_text() -> Seq<char> {
    "  ───────────────────────────────────────────"@
}

/// The body rows: each line indented by two blanks.
pub open spec fn body_rows(body: Seq<char>) -> Seq<ViewerLineView> {
    lines(body).map_values(|l: Seq<char>| seq![("  "@ + l, body_tone(l))])
}

/// Everything the viewer shows of a note.
pub open spec fn spec_viewer_content(item: SpaiNoteItem) -> Seq<ViewerLineView> {
    seq![Seq::empty()] + header_rows(item) + seq![seq![(rule_text(), ViewerTone::Rule)], Seq::empty()]
        + body_rows(item.body@)
}

fn piece(text: Vec<char>, tone: ViewerTone) -> (r: ViewerSpan)
    ensures
        r.text@ == text@,
        r.tone == tone,
{
    ViewerSpan { text: string_of(text.as_slice()), tone }
}

fn push_row(out: &mut Vec<ViewerLine>, l: ViewerLine)
    ensures
        viewer_view(final(out)@) == viewer_view(old(out)@).push(viewer_line_view(l)),
{
    let ghost before = viewer_view(out@);
    out.push(l);
    assert(viewer_view(out@) =~= before.push(viewer_line_view(l)));
}

fn field_line(label: &str, value: Vec<char>, tone: ViewerTone) -> (r: ViewerLine)
    ensures
        viewer_line_view(r) == field_row(label@, value@, tone),
{
    let mut spans: Vec<ViewerSpan> = Vec::new();
    spans.push(piece(chars_of(label), ViewerTone::Label));
    spans.push(piece(value, tone));
    let r = ViewerLine { spans };
    assert(viewer_line_view(r) =~= field_row(label@, value@, tone));
    r
}

fn body_tone_exec(line: &[char]) -> (r: ViewerTone)
    ensures
        r == body_tone(line@),
{
    if starts_with_chars(line, chars_of("# ").as_slice()) {
        ViewerTone::Heading1
    } else if starts_with_chars(line, chars_of("## ").as_slice()) {
        ViewerTone::Heading2
    } else if starts_with_chars(line, chars_of("### ").as_slice()) {
        ViewerTone::Heading3
    } else {
        ViewerTone::Body
    }
}

fn push_header(out: &mut Vec<ViewerLine>, item: &SpaiNoteItem)
    ensures
        viewer_view(final(out)@) == viewer_view(old(out)@) + header_rows(*item),
{
    let ghost before = viewer_view(out@);
    let mut spans: Vec<ViewerSpan> = Vec::new();
    spans.push(piece(chars_of("  Stav:     "), ViewerTone::Label));
    let g = concat_chars(chars_of(item.status.glyph()).as_slice(), chars_of(" ").as_slice());
    let st = concat_chars(g.as_slice(), chars_of(item.status.as_str()).as_slice());
    spans.push(piece(st, ViewerTone::Status(item.status)));
    spans.push(piece(chars_of("    Typ: "), ViewerTone::Label));
    spans.push(piece(chars_of(item.kind.as_str()), ViewerTone::Kind));
    let first = ViewerLine { spans };
    assert(viewer_line_view(first) =~= header_rows(*item)[0]);
    push_row(out, first);
    let created = concat_chars(chars_of(" ").as_slice(), chars_of(item.timestamp.as_str()).as_slice());
    push_row(out, field_line("  Vytvořeno:", created, ViewerTone::Created));
    let ghost mid = viewer_view(out@);
    assert(mid =~= before + header_rows(*item).take(2));
    match &item.facets.project {
        Some(p) => push_row(out, field_line("  Projekt:  ", chars_of(p.as_str()), ViewerTone::Project)),
        None => {},
    }
    match &item.facets.priority {
        Some(p) => push_row(out, field_line("  Priorita: ", chars_of(p.as_str()), ViewerTone::Priority)),
        None => {},
    }
    if item.tags.len() > 0 {
        let t = join_strings(&item.tags, chars_of(", ").as_slice());
        push_row(out, field_line("  Štítky:   ", t, ViewerTone::Tags));
    }
    push_row(out, field_line("  Soubor:   ", chars_of(item.file_name.as_str()), ViewerTone::File));
    assert(viewer_view(out@) =~= before + header_rows(*item));
}

/// The rows the note viewer shows (see [`spec_viewer_content`]).
#[verifier::rlimit(40)]
pub fn format_viewer_content(item: &SpaiNoteItem) -> (r: Vec<ViewerLine>)
    ensures
        viewer_view(r@) == spec_viewer_content(*item),
{
    let mut out: Vec<ViewerLine> = Vec::new();
    assert(viewer_view(out@) =~= Seq::<ViewerLineView>::empty());
    let top = ViewerLine { spans: Vec::new() };
    assert(viewer_line_view(top) =~= Seq::<(Seq<char>, ViewerTone)>::empty());
    push_row(&mut out, top);
    assert(viewer_view(out@) =~= seq![Seq::<(Seq<char>, ViewerTone)>::empty()]);
    push_header(&mut out, item);
    let mut rule: Vec<ViewerSpan> = Vec::new();
    rule.push(piece(chars_of("  ───────────────────────────────────────────"), ViewerTone::Rule));
    let rl = ViewerLine { spans: rule };
    assert(viewer_line_view(rl) =~= seq![(rule_text(), ViewerTone::Rule)]);
    push_row(&mut out, rl);
    let blank = ViewerLine { spans: Vec::new() };
    assert(viewer_line_view(blank) =~= Seq::<(Seq<char>, ViewerTone)>::empty());
    push_row(&mut out, blank);
    let ghost head = viewer_view(out@);
    assert(head =~= seq![Seq::empty()] + header_rows(*item) + seq![
        seq![(rule_text(), ViewerTone::Rule)],
        Seq::empty(),
    ]);
    let ls = lines_exec(chars_of(item.body.as_str()).as_slice());
    let ghost lv = lines(item.body@);
    let mut i: usize = 0;
    while i < ls.len()
        invariant
            0 <= i <= ls@.len(),
            crate::text::views(ls@) == lv,
            lv == lines(item.body@),
            viewer_view(out@) == head + body_rows(item.body@).take(i as int),
        decreases ls.len() - i,
    {
        let l = &ls[i];
        assert(l@ == lv[i as int]);
        let mut spans: Vec<ViewerSpan> = Vec::new();
        spans.push(piece(concat_chars(chars_of("  ").as_slice(), l.as_slice()), body_tone_exec(l.as_slice())));
        let row = ViewerLine { spans };
        assert(viewer_line_view(row) =~= body_rows(item.body@)[i as int]);
        push_row(&mut out, row);
        assert(body_rows(item.body@).take(i + 1) =~= body_rows(item.body@).take(i as int).push(
            body_rows(item.body@)[i as int],
        ));
        i = i + 1;
    }
    assert(body_rows(item.body@).take(i as int) =~= body_rows(item.body@));
    out
}

} // verus!

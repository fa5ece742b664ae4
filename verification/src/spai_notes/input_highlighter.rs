//! Live detection of the SPAI record type in the creation dialog's input.
use crate::spai_notes::note::{SpaiStatus, SpaiType};
use crate::text::{
    chars_eq, chars_of, ends_with, is_white_space, is_ws, slice_chars, starts_with, starts_with_chars,
    string_of, trim_start, trim_start_chars,
};
use vstd::prelude::*;

verus! {

/// Colour of the badge that names the detected record type.
#[derive(Debug, Clone, Copy, PartialEq, Eq, Structural)]
pub enum BadgeColor {
    Rgb(u8, u8, u8),
    DarkGray,
    LightRed,
}

/// What the input's leading prefix says the new record is.
#[derive(Debug, Clone, Copy)]
pub struct DetectedSpaiInput {
    pub kind: SpaiType,
    pub status: SpaiStatus,
    pub prefix_label: &'static str,
    pub prefix_glyph: &'static str,
    pub badge_color: BadgeColor,
}

/// `(kind, status, label, glyph, colour)` of a detection.
pub open spec fn detection_view(d: DetectedSpaiInput) -> (SpaiType, SpaiStatus, Seq<char>, Seq<char>, BadgeColor) {
    (d.kind, d.status, d.prefix_label@, d.prefix_glyph@, d.badge_color)
}

/// The detection for an input without a recognised prefix: a plain task.
pub open spec fn default_detection() -> (SpaiType, SpaiStatus, Seq<char>, Seq<char>, BadgeColor) {
    (SpaiType::Todo, SpaiStatus::Todo, "Úkol"@, ". "@, BadgeColor::Rgb(241, 252, 121))
}

/// The detection for an input, by its prefix after leading white space.
pub open spec fn spec_detect(input: Seq<char>) -> (SpaiType, SpaiStatus, Seq<char>, Seq<char>, BadgeColor) {
    let t = trim_start(input);
    if t.len() == 0 {
        default_detection()
    } else if starts_with(t, "/. "@) || starts_with(t, "/· "@) {
        (SpaiType::Todo, SpaiStatus::Waiting, "Úkol (čekající)"@, "/. "@, BadgeColor::Rgb(189, 147, 249))
    } else if starts_with(t, ". "@) {
        (SpaiType::Todo, SpaiStatus::Todo, "Úkol (k řešení)"@, ". "@, BadgeColor::Rgb(241, 252, 121))
    } else if starts_with(t, "/ "@) {
        (SpaiType::Todo, SpaiStatus::Working, "Úkol (rozpracovaný)"@, "/ "@, BadgeColor::Rgb(139, 233, 253))
    } else if starts_with(t, "x "@) || starts_with(t, "X "@) {
        (SpaiType::Todo, SpaiStatus::Done, "Úkol (hotovo)"@, "x "@, BadgeColor::Rgb(55, 244, 153))
    } else if starts_with(t, "z "@) || starts_with(t, "Z "@) {
        (SpaiType::Todo, SpaiStatus::Cancelled, "Úkol (zrušeno)"@, "z "@, BadgeColor::DarkGray)
    } else if starts_with(t, "? "@) {
        (SpaiType::Idea, SpaiStatus::Idea, "Nápad / Inbox"@, "? "@, BadgeColor::Rgb(255, 121, 198))
    } else if starts_with(t, "- "@) {
        (SpaiType::Note, SpaiStatus::Note, "Poznámka"@, "- "@, BadgeColor::Rgb(139, 233, 253))
    } else if starts_with(t, "!- "@) {
        (SpaiType::Note, SpaiStatus::Note, "Kritická poznámka"@, "!- "@, BadgeColor::LightRed)
    } else {
        default_detection()
    }
}

impl DetectedSpaiInput {
    /// The detection for an input without a recognised prefix.
    pub fn plain() -> (r: Self)
        ensures
            detection_view(r) == default_detection(),
    {
        DetectedSpaiInput {
            kind: SpaiType::Todo,
            status: SpaiStatus::Todo,
            prefix_label: "Úkol",
            prefix_glyph: ". ",
            badge_color: BadgeColor::Rgb(241, 252, 121),
        }
    }
}

fn starts(t: &[char], p: &str) -> (b: bool)
    ensures
        b == starts_with(t@, p@),
{
    starts_with_chars(t, chars_of(p).as_slice())
}

/// Detects SPAI record type, status, and badge colour from the input line.
pub fn detect_spai_input(input: &str) -> (r: DetectedSpaiInput)
    ensures
        detection_view(r) == spec_detect(input@),
{
    let v = chars_of(input);
    let t = trim_start_chars(v.as_slice());
    let t = t.as_slice();
    if t.len() == 0 {
        return DetectedSpaiInput::plain();
    }
    if starts(t, "/. ") || starts(t, "/· ") {
        DetectedSpaiInput {
            kind: SpaiType::Todo,
            status: SpaiStatus::Waiting,
            prefix_label: "Úkol (čekající)",
            prefix_glyph: "/. ",
            badge_color: BadgeColor::Rgb(189, 147, 249),
        }
    } else if starts(t, ". ") {
        DetectedSpaiInput {
            kind: SpaiType::Todo,
            status: SpaiStatus::Todo,
            prefix_label: "Úkol (k řešení)",
            prefix_glyph: ". ",
            badge_color: BadgeColor::Rgb(241, 252, 121),
        }
    } else if starts(t, "/ ") {
        DetectedSpaiInput {
            kind: SpaiType::Todo,
            status: SpaiStatus::Working,
            prefix_label: "Úkol (rozpracovaný)",
            prefix_glyph: "/ ",
            badge_color: BadgeColor::Rgb(139, 233, 253),
        }
    } else if starts(t, "x ") || starts(t, "X ") {
        DetectedSpaiInput {
            kind: SpaiType::Todo,
            status: SpaiStatus::Done,
            prefix_label: "Úkol (hotovo)",
            prefix_glyph: "x ",
            badge_color: BadgeColor::Rgb(55, 244, 153),
        }
    } else if starts(t, "z ") || starts(t, "Z ") {
        DetectedSpaiInput {
            kind: SpaiType::Todo,
            status: SpaiStatus::Cancelled,
            prefix_label: "Úkol (zrušeno)",
            prefix_glyph: "z ",
            badge_color: BadgeColor::DarkGray,
        }
    } else if starts(t, "? ") {
        DetectedSpaiInput {
            kind: SpaiType::Idea,
            status: SpaiStatus::Idea,
            prefix_label: "Nápad / Inbox",
            prefix_glyph: "? ",
            badge_color: BadgeColor::Rgb(255, 121, 198),
        }
    } else if starts(t, "- ") {
        DetectedSpaiInput {
            kind: SpaiType::Note,
            status: SpaiStatus::Note,
            prefix_label: "Poznámka",
            prefix_glyph: "- ",
            badge_color: BadgeColor::Rgb(139, 233, 253),
        }
    } else if starts(t, "!- ") {
        DetectedSpaiInput {
            kind: SpaiType::Note,
            status: SpaiStatus::Note,
            prefix_label: "Kritická poznámka",
            prefix_glyph: "!- ",
            badge_color: BadgeColor::LightRed,
        }
    } else {
        DetectedSpaiInput::plain()
    }
}

// ---------------------------------------------------------------------------
// Live colouring of the input
// ---------------------------------------------------------------------------

/// How a piece of the smart input is coloured.
#[derive(Debug, Clone, Copy, PartialEq, Eq, Structural)]
pub enum WordStyle {
    /// The record-type prefix, in the detected badge colour.
    Prefix,
    /// `!`, `!!` or `!!!`.
    Priority,
    /// `@project` or `@date`.
    Facet,
    /// `:tag:`.
    Tag,
    /// `#hash`.
    Hash,
    /// Any other word.
    Plain,
    /// The blank between words.
    Gap,
}

/// A piece of the input with its colour.
pub struct StyledWord {
    pub text: String,
    pub style: WordStyle,
}

pub open spec fn styled_view(w: StyledWord) -> (Seq<char>, WordStyle) {
    (w.text@, w.style)
}

pub open spec fn styled_views(v: Seq<StyledWord>) -> Seq<(Seq<char>, WordStyle)> {
    v.map_values(|w: StyledWord| styled_view(w))
}

/// The colour of one word.
pub open spec fn spec_word_style(w: Seq<char>) -> WordStyle {
    if w == "!"@ || w == "!!"@ || w == "!!!"@ {
        WordStyle::Priority
    } else if w.len() > 1 && w[0] == '@' {
        WordStyle::Facet
    } else if w.len() > 2 && w[0] == ':' && w.last() == ':' {
        WordStyle::Tag
    } else if w.len() > 0 && w[0] == '#' {
        WordStyle::Hash
    } else {
        WordStyle::Plain
    }
}

/// The prefix recognised at the very start of the input, tried in order.
pub open spec fn spec_input_prefix(t: Seq<char>) -> Option<Seq<char>> {
    if starts_with(t, "/. "@) {
        Some("/. "@)
    } else if starts_with(t, "/· "@) {
        Some("/· "@)
    } else if starts_with(t, "!- "@) {
        Some("!- "@)
    } else if starts_with(t, ". "@) {
        Some(". "@)
    } else if starts_with(t, "/ "@) {
        Some("/ "@)
    } else if starts_with(t, "x "@) {
        Some("x "@)
    } else if starts_with(t, "X "@) {
        Some("X "@)
    } else if starts_with(t, "z "@) {
        Some("z "@)
    } else if starts_with(t, "Z "@) {
        Some("Z "@)
    } else if starts_with(t, "? "@) {
        Some("? "@)
    } else if starts_with(t, "- "@) {
        Some("- "@)
    } else {
        None
    }
}

/// A finished word, when there is one.
pub open spec fn word_piece(w: Seq<char>) -> Seq<(Seq<char>, WordStyle)> {
    if w.len() > 0 {
        seq![(w, spec_word_style(w))]
    } else {
        Seq::empty()
    }
}

/// The pieces finished so far and the word being read, after `s`: each
/// white-space char ends the word and stands as one blank.
pub open spec fn word_fold(s: Seq<char>) -> (Seq<(Seq<char>, WordStyle)>, Seq<char>)
    decreases s.len(),
{
    if s.len() == 0 {
        (Seq::empty(), Seq::empty())
    } else {
        let (done, cur) = word_fold(s.drop_last());
        if is_ws(s.last()) {
            (done + word_piece(cur) + seq![(" "@, WordStyle::Gap)], Seq::empty())
        } else {
            (done, cur.push(s.last()))
        }
    }
}

/// The words of `s` with the blanks between them.
pub open spec fn spec_words(s: Seq<char>) -> Seq<(Seq<char>, WordStyle)> {
    word_fold(s).0 + word_piece(word_fold(s).1)
}

/// The coloured pieces of the input: its prefix, then its words.
pub open spec fn spec_highlight(input: Seq<char>) -> Seq<(Seq<char>, WordStyle)> {
    if input.len() == 0 {
        Seq::empty()
    } else {
        match spec_input_prefix(input) {
            Some(p) => seq![(p, WordStyle::Prefix)] + spec_words(input.skip(p.len() as int)),
            None => spec_words(input),
        }
    }
}

fn eq_str(w: &[char], s: &str) -> (r: bool)
    ensures
        r == (w@ == s@),
{
    chars_eq(w, chars_of(s).as_slice())
}

/// The colour of one word.
pub fn word_style(w: &[char]) -> (r: WordStyle)
    ensures
        r == spec_word_style(w@),
{
    if eq_str(w, "!") || eq_str(w, "!!") || eq_str(w, "!!!") {
        WordStyle::Priority
    } else if w.len() > 1 && w[0] == '@' {
        WordStyle::Facet
    } else if w.len() > 2 && w[0] == ':' && w[w.len() - 1] == ':' {
        WordStyle::Tag
    } else if w.len() > 0 && w[0] == '#' {
        WordStyle::Hash
    } else {
        WordStyle::Plain
    }
}

fn input_prefix(t: &[char]) -> (r: Option<&'static str>)
    ensures
        match r {
            Some(p) => spec_input_prefix(t@) == Some(p@),
            None => spec_input_prefix(t@) is None,
        },
{
    if starts(t, "/. ") {
        Some("/. ")
    } else if starts(t, "/· ") {
        Some("/· ")
    } else if starts(t, "!- ") {
        Some("!- ")
    } else if starts(t, ". ") {
        Some(". ")
    } else if starts(t, "/ ") {
        Some("/ ")
    } else if starts(t, "x ") {
        Some("x ")
    } else if starts(t, "X ") {
        Some("X ")
    } else if starts(t, "z ") {
        Some("z ")
    } else if starts(t, "Z ") {
        Some("Z ")
    } else if starts(t, "? ") {
        Some("? ")
    } else if starts(t, "- ") {
        Some("- ")
    } else {
        None
    }
}

fn push_word(out: &mut Vec<StyledWord>, w: &Vec<char>)
    ensures
        styled_views(final(out)@) == styled_views(old(out)@) + word_piece(w@),
{
    let ghost before = styled_views(out@);
    if w.len() > 0 {
        let piece = StyledWord { text: string_of(w.as_slice()), style: word_style(w.as_slice()) };
        out.push(piece);
    }
    assert(styled_views(out@) =~= before + word_piece(w@));
}

fn push_words(out: &mut Vec<StyledWord>, s: &[char])
    ensures
        styled_views(final(out)@) == styled_views(old(out)@) + spec_words(s@),
{
    let ghost before = styled_views(out@);
    let mut cur: Vec<char> = Vec::new();
    let mut i: usize = 0;
    while i < s.len()
        invariant
            0 <= i <= s@.len(),
            styled_views(out@) == before + word_fold(s@.take(i as int)).0,
            cur@ == word_fold(s@.take(i as int)).1,
        decreases s.len() - i,
    {
        let c = s[i];
        assert(s@.take(i + 1).drop_last() == s@.take(i as int));
        if is_white_space(c) {
            let ghost mid = styled_views(out@);
            push_word(out, &cur);
            let gap = StyledWord { text: string_of(chars_of(" ").as_slice()), style: WordStyle::Gap };
            let ghost g = styled_view(gap);
            out.push(gap);
            assert(styled_views(out@) =~= mid + word_piece(cur@) + seq![g]);
            cur = Vec::new();
        } else {
            cur.push(c);
        }
        i = i + 1;
    }
    assert(s@.take(i as int) == s@);
    push_word(out, &cur);
}

/// The input split into coloured pieces for the live preview: the
/// record-type prefix, then each word with a blank for each white-space
/// char between them.
pub fn highlight_spai_input_spans(input: &str) -> (r: Vec<StyledWord>)
    ensures
        styled_views(r@) == spec_highlight(input@),
{
    let mut out: Vec<StyledWord> = Vec::new();
    let v = chars_of(input);
    if v.len() == 0 {
        assert(styled_views(out@) =~= Seq::empty());
        return out;
    }
    match input_prefix(v.as_slice()) {
        Some(p) => {
            let pc = chars_of(p);
            out.push(StyledWord { text: string_of(pc.as_slice()), style: WordStyle::Prefix });
            let rest = slice_chars(v.as_slice(), pc.len(), v.len());
            assert(styled_views(out@) =~= seq![(p@, WordStyle::Prefix)]);
            push_words(&mut out, rest.as_slice());
        },
        None => {
            assert(styled_views(out@) =~= Seq::empty());
            push_words(&mut out, v.as_slice());
        },
    }
    out
}

} // verus!

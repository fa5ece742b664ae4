//! What the Shortcuts tab writes: its header, the window of bindings the
//! list shows around the selection, a row per binding and the detail of
//! the selected one.
use crate::shortcuts::document::{pad_right, pad_right_exec};
use crate::shortcuts::format::{shorten_path, spec_shorten_path, spec_truncate, truncate};
use crate::shortcuts::keys::{ShortcutEntry, ShortcutSource};
use crate::shortcuts::model::{user_count, ShortcutsState};
use crate::text::{chars_of, concat_chars, dec_digits, decimal_chars, string_of};
use vstd::prelude::*;

verus! {

/// Width of the chord column.
pub const KEY_COL: usize = 20;

/// How a piece of a binding row is shown.
#[derive(Debug, Clone, Copy, PartialEq, Eq, Structural)]
pub enum KeyTone {
    /// The selection marker.
    Marker,
    /// The chord; the flag says whether it is the selected one.
    Chord(bool),
    /// Where the binding comes from.
    Source(ShortcutSource),
    /// The description; the flag says whether it is the selected one.
    Description(bool),
    /// The command the chord runs.
    Command,
}

/// A piece of a binding row with its tone.
pub struct KeySpan {
    pub text: String,
    pub tone: KeyTone,
}

pub open spec fn key_row_view(r: Seq<KeySpan>) -> Seq<(Seq<char>, KeyTone)> {
    r.map_values(|s: KeySpan| (s.text@, s.tone))
}

/// The first row of the list's window, moved the least that keeps the
/// selection in the `view_h` visible rows.
pub open spec fn spec_list_scroll(selected: int, scroll: int, view_h: int) -> int {
    let h = if view_h < 1 {
        1
    } else {
        view_h
    };
    if selected < scroll {
        selected
    } else if selected >= scroll + h {
        selected - (h - 1)
    } else {
        scroll
    }
}

/// The first row of the list's window (see [`spec_list_scroll`]).
pub fn list_scroll(selected: usize, scroll: u16, view_h: usize) -> (r: usize)
    ensures
        r == spec_list_scroll(selected as int, scroll as int, view_h as int),
{
    let h: usize = if view_h < 1 {
        1
    } else {
        view_h
    };
    let s = scroll as usize;
    if selected < s {
        selected
    } else if selected - s >= h {
        selected - (h - 1)
    } else {
        s
    }
}

/// A binding's source as its list badge.
pub open spec fn badge_of(s: ShortcutSource) -> Seq<char> {
    match s {
        ShortcutSource::User => "config"@,
        ShortcutSource::Default => "výchozí"@,
        ShortcutSource::Suggested => "návrh"@,
    }
}

/// A binding's row: the marker, the chord in its column, the source
/// badge in nine columns, the description, and the command when it has one.
pub open spec fn spec_entry_row(e: ShortcutEntry, selected: bool) -> Seq<(Seq<char>, KeyTone)> {
    seq![
        (if selected {
            "▶ "@
        } else {
            "  "@
        }, KeyTone::Marker),
        (pad_right(spec_truncate(e.key@, KEY_COL as int), KEY_COL as int), KeyTone::Chord(selected)),
        (pad_right(spec_truncate(badge_of(e.source), 9), 9), KeyTone::Source(e.source)),
        (e.description@, KeyTone::Description(selected)),
    ] + if e.command@.len() > 0 {
        seq![("  "@ + e.command@, KeyTone::Command)]
    } else {
        Seq::empty()
    }
}

fn span(text: Vec<char>, tone: KeyTone) -> (r: KeySpan)
    ensures
        r.text@ == text@,
        r.tone == tone,
{
    KeySpan { text: string_of(text.as_slice()), tone }
}

/// A binding's row (see [`spec_entry_row`]).
pub fn entry_row(e: &ShortcutEntry, selected: bool) -> (r: Vec<KeySpan>)
    ensures
        key_row_view(r@) == spec_entry_row(*e, selected),
{
    let mut out: Vec<KeySpan> = Vec::new();
    let marker: &str = if selected {
        "▶ "
    } else {
        "  "
    };
    out.push(span(chars_of(marker), KeyTone::Marker));
    let k = truncate(e.key.as_str(), KEY_COL);
    out.push(span(pad_right_exec(chars_of(k.as_str()).as_slice(), KEY_COL), KeyTone::Chord(selected)));
    let badge: &str = match e.source {
        ShortcutSource::User => "config",
        ShortcutSource::Default => "výchozí",
        ShortcutSource::Suggested => "návrh",
    };
    let b = truncate(badge, 9);
    out.push(span(pad_right_exec(chars_of(b.as_str()).as_slice(), 9), KeyTone::Source(e.source)));
    out.push(span(chars_of(e.description.as_str()), KeyTone::Description(selected)));
    let c = chars_of(e.command.as_str());
    if c.len() > 0 {
        out.push(span(concat_chars(chars_of("  ").as_slice(), c.as_slice()), KeyTone::Command));
    }
    assert(key_row_view(out@) =~= spec_entry_row(*e, selected));
    out
}

/// The tab's header title: the prefix, how many bindings, and how many of
/// them the config sets.
pub open spec fn spec_header_title(st: ShortcutsState) -> Seq<char> {
    " ⌨  Zkratky · prefix "@ + st.prefix@ + " · "@ + dec_digits(st.entries@.len()) + " vazeb ("@
        + dec_digits(user_count(st.entries@)) + " z configu) "@
}

/// The tab's header title (see [`spec_header_title`]).
pub fn header_title(st: &ShortcutsState) -> (r: String)
    ensures
        r@ == spec_header_title(*st),
{
    let user = st.user_binding_count();
    let a = concat_chars(chars_of(" ⌨  Zkratky · prefix ").as_slice(), chars_of(st.prefix.as_str()).as_slice());
    let b = concat_chars(a.as_slice(), chars_of(" · ").as_slice());
    let c = concat_chars(b.as_slice(), decimal_chars(st.entries.len() as u128).as_slice());
    let d = concat_chars(c.as_slice(), chars_of(" vazeb (").as_slice());
    let e = concat_chars(d.as_slice(), decimal_chars(user as u128).as_slice());
    let f = concat_chars(e.as_slice(), chars_of(" z configu) ").as_slice());
    string_of(f.as_slice())
}

/// Where the bindings came from, for the header: the config's path
/// shortened, or that none was found.
pub fn header_source(st: &ShortcutsState) -> (r: String)
    ensures
        r@ == (match st.config_path {
            Some(p) => spec_shorten_path(p@),
            None => "config.toml nenalezen"@,
        }),
{
    match &st.config_path {
        Some(p) => shorten_path(p.as_str()),
        None => string_of(chars_of("config.toml nenalezen").as_slice()),
    }
}

/// The list's title: the selection's position and the number of bindings.
pub fn list_title(st: &ShortcutsState) -> (r: String)
    requires
        st.selected < usize::MAX,
    ensures
        r@ == " Vazby ("@ + dec_digits((st.selected + 1) as nat) + "/"@ + dec_digits(st.entries@.len())
            + ") "@,
{
    let a = concat_chars(chars_of(" Vazby (").as_slice(), decimal_chars((st.selected + 1) as u128).as_slice());
    let b = concat_chars(a.as_slice(), chars_of("/").as_slice());
    let c = concat_chars(b.as_slice(), decimal_chars(st.entries.len() as u128).as_slice());
    let d = concat_chars(c.as_slice(), chars_of(") ").as_slice());
    string_of(d.as_slice())
}

/// The detail of a binding: its chord, its action (the command, or the
/// description when it runs none), its kind with what that kind means,
/// and where it comes from.
pub open spec fn spec_detail(e: ShortcutEntry) -> Seq<(Seq<char>, Seq<char>)> {
    seq![
        ("  Klávesa:  "@, e.key@),
        ("  Akce:     "@, if e.command@.len() == 0 {
            e.description@
        } else {
            e.command@
        }),
        ("  Typ:      "@, e.kind@ + "   ("@ + match e.source {
            ShortcutSource::User => "spouští plugin / shell"@,
            ShortcutSource::Default => "výchozí Herdr vazba"@,
            ShortcutSource::Suggested => "doporučená vazba — přidejte do config.toml"@,
        } + ")"@),
        ("  Zdroj:    "@, match e.source {
            ShortcutSource::User => "config.toml"@,
            ShortcutSource::Default => "Herdr default"@,
            ShortcutSource::Suggested => "návrh"@,
        }),
    ]
}

/// The detail of a binding as label and value rows (see [`spec_detail`]).
pub fn detail(e: &ShortcutEntry) -> (r: Vec<(String, String)>)
    ensures
        r@.map_values(|p: (String, String)| (p.0@, p.1@)) == spec_detail(*e),
{
    let mut out: Vec<(String, String)> = Vec::new();
    out.push((string_of(chars_of("  Klávesa:  ").as_slice()), string_of(chars_of(e.key.as_str()).as_slice())));
    let c = chars_of(e.command.as_str());
    let action = if c.len() == 0 {
        chars_of(e.description.as_str())
    } else {
        c
    };
    out.push((string_of(chars_of("  Akce:     ").as_slice()), string_of(action.as_slice())));
    let (meaning, source): (&str, &str) = match e.source {
        ShortcutSource::User => ("spouští plugin / shell", "config.toml"),
        ShortcutSource::Default => ("výchozí Herdr vazba", "Herdr default"),
        ShortcutSource::Suggested => ("doporučená vazba — přidejte do config.toml", "návrh"),
    };
    let k1 = concat_chars(chars_of(e.kind.as_str()).as_slice(), chars_of("   (").as_slice());
    let k2 = concat_chars(k1.as_slice(), chars_of(meaning).as_slice());
    let k3 = concat_chars(k2.as_slice(), chars_of(")").as_slice());
    out.push((string_of(chars_of("  Typ:      ").as_slice()), string_of(k3.as_slice())));
    out.push((string_of(chars_of("  Zdroj:    ").as_slice()), string_of(chars_of(source).as_slice())));
    assert(out@.map_values(|p: (String, String)| (p.0@, p.1@)) =~= spec_detail(*e));
    out
}

} // verus!

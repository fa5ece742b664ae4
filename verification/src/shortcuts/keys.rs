//! The user's Herdr keybindings.
//!
//! Herdr has no command that dumps effective keybindings, so the source of
//! truth is `config.toml` plus a table of the documented defaults. The TOML
//! subset needed is small (`[keys]` scalars and `[[keys.command]]` entries)
//! and is parsed here directly.
use crate::text::{
    chars_eq, chars_of, concat_chars, ends_with, find_char, find_char_exec, lex_less, lex_lt,
    lines, lines_exec, lower_chars, lower_seq, slice_chars, starts_with, starts_with_chars,
    string_of, to_string, trim, trim_chars, trim_end_str, trim_end_str_exec, unicode_lower_chars,
    text_lowercase, views,
};
use vstd::prelude::*;
use vstd::string::StrSliceExecFns;

verus! {

#[derive(Debug, Clone, Copy, PartialEq, Eq, Structural)]
pub enum ShortcutSource {
    /// Bound by the user in `config.toml`.
    User,
    /// Documented Herdr default.
    Default,
    /// Offered by this plugin but not bound yet: the tab shows the suggested
    /// chord so the action is discoverable before `config.toml` is edited.
    Suggested,
}

#[derive(Debug, Clone, PartialEq, Eq)]
pub struct ShortcutEntry {
    /// Resolved chord, e.g. `ctrl+b+k`.
    pub key: String,
    /// `plugin_action`, `shell`, `pane`, ... (`default` for built-ins).
    pub kind: String,
    /// Action id, plugin id, or shell command the chord runs.
    pub command: String,
    pub description: String,
    pub source: ShortcutSource,
}

#[derive(Debug, Clone)]
pub struct KeyConfig {
    pub prefix: String,
    pub entries: Vec<ShortcutEntry>,
    pub config_path: Option<String>,
}

impl Default for KeyConfig {
    fn default() -> (r: Self)
        ensures
            r.prefix@.len() == 0,
            r.entries@.len() == 0,
            r.config_path is None,
    {
        KeyConfig { prefix: String::new(), entries: Vec::new(), config_path: None }
    }
}

/// An entry as plain text.
pub struct EntryView {
    pub key: Seq<char>,
    pub kind: Seq<char>,
    pub command: Seq<char>,
    pub description: Seq<char>,
    pub source: ShortcutSource,
}

pub open spec fn entry_view(e: ShortcutEntry) -> EntryView {
    EntryView {
        key: e.key@,
        kind: e.kind@,
        command: e.command@,
        description: e.description@,
        source: e.source,
    }
}

pub open spec fn entry_views(s: Seq<ShortcutEntry>) -> Seq<EntryView> {
    s.map_values(|e: ShortcutEntry| entry_view(e))
}

// ---------------------------------------------------------------------------
// Tables
// ---------------------------------------------------------------------------

/// The prefix chord Herdr uses when the config names none.
pub open spec fn default_prefix() -> Seq<char> {
    "ctrl+b"@
}

/// Documented Herdr defaults, as `(suffix, description)` after the prefix.
pub open spec fn default_bindings() -> Seq<(Seq<char>, Seq<char>)> {
    seq![
        ("?"@, "Nápověda"@),
        ("s"@, "Nastavení"@),
        ("q"@, "Odpojit session"@),
        ("shift+r"@, "Znovu načíst config"@),
        ("w"@, "Přepínač workspace"@),
        ("g"@, "Přejít na… (goto)"@),
        ("shift+n"@, "Nový workspace"@),
        ("shift+w"@, "Přejmenovat workspace"@),
        ("shift+d"@, "Zavřít workspace"@),
        ("c"@, "Nová záložka"@),
        ("shift+t"@, "Přejmenovat záložku"@),
        ("shift+x"@, "Zavřít záložku"@),
        ("p"@, "Předchozí záložka"@),
        ("n"@, "Další záložka"@),
        ("1..9"@, "Přepnout na záložku 1-9"@),
        ("h"@, "Fokus na panel vlevo"@),
        ("j"@, "Fokus na panel dole"@),
        ("k"@, "Fokus na panel nahoře"@),
        ("l"@, "Fokus na panel vpravo"@),
        ("tab"@, "Další panel"@),
        ("shift+tab"@, "Předchozí panel"@),
        ("v"@, "Rozdělit svisle"@),
        ("minus"@, "Rozdělit vodorovně"@),
        ("x"@, "Zavřít panel"@),
        ("z"@, "Zoom panelu"@),
        ("r"@, "Režim změny velikosti"@),
        ("e"@, "Prohlížet scrollback"@),
        ("b"@, "Přepnout sidebar"@),
        ("shift+p"@, "Přejmenovat panel"@),
    ]
}

fn default_bindings_exec() -> (r: Vec<(&'static str, &'static str)>)
    ensures
        r@.map_values(|p: (&'static str, &'static str)| (p.0@, p.1@)) == default_bindings(),
{
    let r = vec![
        ("?", "Nápověda"),
        ("s", "Nastavení"),
        ("q", "Odpojit session"),
        ("shift+r", "Znovu načíst config"),
        ("w", "Přepínač workspace"),
        ("g", "Přejít na… (goto)"),
        ("shift+n", "Nový workspace"),
        ("shift+w", "Přejmenovat workspace"),
        ("shift+d", "Zavřít workspace"),
        ("c", "Nová záložka"),
        ("shift+t", "Přejmenovat záložku"),
        ("shift+x", "Zavřít záložku"),
        ("p", "Předchozí záložka"),
        ("n", "Další záložka"),
        ("1..9", "Přepnout na záložku 1-9"),
        ("h", "Fokus na panel vlevo"),
        ("j", "Fokus na panel dole"),
        ("k", "Fokus na panel nahoře"),
        ("l", "Fokus na panel vpravo"),
        ("tab", "Další panel"),
        ("shift+tab", "Předchozí panel"),
        ("v", "Rozdělit svisle"),
        ("minus", "Rozdělit vodorovně"),
        ("x", "Zavřít panel"),
        ("z", "Zoom panelu"),
        ("r", "Režim změny velikosti"),
        ("e", "Prohlížet scrollback"),
        ("b", "Přepnout sidebar"),
        ("shift+p", "Přejmenovat panel"),
    ];
    assert(r@.map_values(|p: (&'static str, &'static str)| (p.0@, p.1@)) =~= default_bindings());
    r
}

/// Actions this plugin offers, as `(action id, suggested suffix,
/// description)`. They are listed even before the user binds them; once a
/// binding exists, the user entry shadows the suggestion.
pub open spec fn plugin_actions() -> Seq<(Seq<char>, Seq<char>, Seq<char>)> {
    seq![
        (
            "pi.herdr-sidebar.usage-win"@,
            "u"@,
            "Pi Herdr Plugin Usage — okno s přehledem pluginů a skillů"@,
        ),
        ("pi.herdr-sidebar.edit-notes-win"@, "m"@, "Pi Herdr Notes Editor — editor SPAI poznámek"@),
    ]
}

fn plugin_actions_exec() -> (r: Vec<(&'static str, &'static str, &'static str)>)
    ensures
        r@.map_values(
            |p: (&'static str, &'static str, &'static str)| (p.0@, p.1@, p.2@),
        ) == plugin_actions(),
{
    let r = vec![
        (
            "pi.herdr-sidebar.usage-win",
            "u",
            "Pi Herdr Plugin Usage — okno s přehledem pluginů a skillů",
        ),
        ("pi.herdr-sidebar.edit-notes-win", "m", "Pi Herdr Notes Editor — editor SPAI poznámek"),
    ];
    assert(r@.map_values(|p: (&'static str, &'static str, &'static str)| (p.0@, p.1@, p.2@))
        =~= plugin_actions());
    r
}

// ---------------------------------------------------------------------------
// Chords and action ids
// ---------------------------------------------------------------------------

/// `prefix+suffix`.
pub open spec fn chord(prefix: Seq<char>, suffix: Seq<char>) -> Seq<char> {
    prefix + "+"@ + suffix
}

fn chord_exec(prefix: &[char], suffix: &[char]) -> (r: Vec<char>)
    ensures
        r@ == chord(prefix@, suffix@),
{
    let a = concat_chars(prefix, chars_of("+").as_slice());
    concat_chars(a.as_slice(), suffix)
}

/// A chord compared case-insensitively and without surrounding white space.
pub open spec fn normalised(c: Seq<char>) -> Seq<char> {
    lower_seq(trim(c))
}

/// Herdr accepts `CTRL+B+P` and `ctrl+b+p` for the same chord.
pub open spec fn spec_same_chord(a: Seq<char>, b: Seq<char>) -> bool {
    normalised(a) == normalised(b)
}

/// Lower-cased, trimmed, ASCII case folded chord.
pub fn normalise_chord(c: &str) -> (r: String)
    ensures
        r@ == normalised(c@),
{
    let v = chars_of(c);
    let t = trim_chars(v.as_slice());
    let l = lower_chars(t.as_slice());
    string_of(l.as_slice())
}

fn normalise_chars(c: &[char]) -> (r: Vec<char>)
    ensures
        r@ == normalised(c@),
{
    let t = trim_chars(c);
    lower_chars(t.as_slice())
}

/// Whether two chords are the same chord.
pub fn same_chord(a: &str, b: &str) -> (r: bool)
    ensures
        r == spec_same_chord(a@, b@),
{
    let x = normalise_chars(chars_of(a).as_slice());
    let y = normalise_chars(chars_of(b).as_slice());
    chars_eq(x.as_slice(), y.as_slice())
}

fn same_chord_chars(a: &[char], b: &[char]) -> (r: bool)
    ensures
        r == spec_same_chord(a@, b@),
{
    let x = normalise_chars(a);
    let y = normalise_chars(b);
    chars_eq(x.as_slice(), y.as_slice())
}

/// An action id without surrounding white space and without its platform
/// suffix (`-win`), lower-cased.
pub open spec fn action_key(s: Seq<char>) -> Seq<char> {
    text_lowercase(trim_end_str(trim(s), "-win"@))
}

pub open spec fn spec_action_matches(bound: Seq<char>, action: Seq<char>) -> bool {
    bound.len() > 0 && action_key(bound) == action_key(action)
}

fn action_key_exec(s: &[char]) -> (r: Vec<char>)
    ensures
        r@ == action_key(s@),
{
    let t = trim_chars(s);
    let u = trim_end_str_exec(t.as_slice(), chars_of("-win").as_slice());
    unicode_lower_chars(u.as_slice())
}

/// Compares plugin action ids, ignoring the platform suffix (`-win`).
pub fn action_matches(bound: &str, action: &str) -> (r: bool)
    ensures
        r == spec_action_matches(bound@, action@),
{
    let b = chars_of(bound);
    if b.len() == 0 {
        return false;
    }
    let x = action_key_exec(b.as_slice());
    let y = action_key_exec(chars_of(action).as_slice());
    chars_eq(x.as_slice(), y.as_slice())
}

/// A user chord with its `prefix` token replaced by the real prefix.
pub open spec fn spec_resolve_prefix(key: Seq<char>, prefix: Seq<char>) -> Seq<char> {
    let k = trim(key);
    if k == "prefix"@ {
        prefix
    } else if starts_with(k, "prefix+"@) {
        chord(prefix, k.skip(7))
    } else {
        k
    }
}

/// Resolves the `prefix` token of a user chord.
pub fn resolve_prefix(key: &str, prefix: &str) -> (r: String)
    ensures
        r@ == spec_resolve_prefix(key@, prefix@),
{
    let k = trim_chars(chars_of(key).as_slice());
    if chars_eq(k.as_slice(), chars_of("prefix").as_slice()) {
        return to_string(prefix);
    }
    if starts_with_chars(k.as_slice(), chars_of("prefix+").as_slice()) {
        proof {
            assert("prefix+"@.len() == 7) by {
                reveal_strlit("prefix+");
            }
        }
        let rest = slice_chars(k.as_slice(), 7, k.len());
        assert(rest@ == k@.skip(7));
        let c = chord_exec(chars_of(prefix).as_slice(), rest.as_slice());
        return string_of(c.as_slice());
    }
    string_of(k.as_slice())
}

// ---------------------------------------------------------------------------
// Default and suggested entries
// ---------------------------------------------------------------------------

/// The default entry for one binding of the table.
pub open spec fn default_entry(prefix: Seq<char>, b: (Seq<char>, Seq<char>)) -> EntryView {
    EntryView {
        key: chord(prefix, b.0),
        kind: "default"@,
        command: Seq::empty(),
        description: b.1,
        source: ShortcutSource::Default,
    }
}

pub open spec fn spec_default_entries(prefix: Seq<char>) -> Seq<EntryView> {
    default_bindings().map_values(|b: (Seq<char>, Seq<char>)| default_entry(prefix, b))
}

/// The documented defaults, each under `prefix+suffix`.
pub fn default_entries(prefix: &str) -> (r: Vec<ShortcutEntry>)
    ensures
        entry_views(r@) == spec_default_entries(prefix@),
{
    let table = default_bindings_exec();
    let p = chars_of(prefix);
    let mut out: Vec<ShortcutEntry> = Vec::new();
    let mut i: usize = 0;
    while i < table.len()
        invariant
            0 <= i <= table@.len(),
            p@ == prefix@,
            table@.map_values(|q: (&'static str, &'static str)| (q.0@, q.1@)) == default_bindings(),
            entry_views(out@) == spec_default_entries(prefix@).take(i as int),
        decreases table.len() - i,
    {
        let (suffix, description) = table[i];
        assert(default_bindings()[i as int] == (suffix@, description@));
        let key = chord_exec(p.as_slice(), chars_of(suffix).as_slice());
        let e = ShortcutEntry {
            key: string_of(key.as_slice()),
            kind: to_string("default"),
            command: String::new(),
            description: to_string(description),
            source: ShortcutSource::Default,
        };
        let ghost before = out@;
        out.push(e);
        assert(entry_views(out@) == entry_views(before).push(entry_view(e)));
        assert(spec_default_entries(prefix@).take(i + 1) == spec_default_entries(prefix@).take(
            i as int,
        ).push(spec_default_entries(prefix@)[i as int]));
        i = i + 1;
    }
    assert(spec_default_entries(prefix@).take(i as int) == spec_default_entries(prefix@));
    out
}

/// The action is bound already: by its id or by its suggested chord.
pub open spec fn already_bound(user: Seq<EntryView>, action: Seq<char>, c: Seq<char>) -> bool {
    exists|j: int|
        0 <= j < user.len() && (spec_action_matches((#[trigger] user[j]).command, action)
            || spec_same_chord(user[j].key, c))
}

/// The chord is one of Herdr's defaults.
pub open spec fn clobbers_default(prefix: Seq<char>, c: Seq<char>) -> bool {
    exists|j: int|
        0 <= j < default_bindings().len() && spec_same_chord(
            chord(prefix, (#[trigger] default_bindings()[j]).0),
            c,
        )
}

/// The suggestion for one plugin action, unless it is bound or would take a
/// default chord.
pub open spec fn suggestion_for(
    prefix: Seq<char>,
    user: Seq<EntryView>,
    a: (Seq<char>, Seq<char>, Seq<char>),
) -> Option<EntryView> {
    let c = chord(prefix, a.1);
    if already_bound(user, a.0, c) || clobbers_default(prefix, c) {
        None
    } else {
        Some(
            EntryView {
                key: c,
                kind: "plugin_action"@,
                command: a.0,
                description: a.2,
                source: ShortcutSource::Suggested,
            },
        )
    }
}

pub open spec fn suggestions_from(
    prefix: Seq<char>,
    user: Seq<EntryView>,
    actions: Seq<(Seq<char>, Seq<char>, Seq<char>)>,
) -> Seq<EntryView>
    decreases actions.len(),
{
    if actions.len() == 0 {
        Seq::empty()
    } else {
        let r = suggestions_from(prefix, user, actions.drop_last());
        match suggestion_for(prefix, user, actions.last()) {
            Some(e) => r.push(e),
            None => r,
        }
    }
}

pub open spec fn spec_suggested_entries(prefix: Seq<char>, user: Seq<EntryView>) -> Seq<EntryView> {
    suggestions_from(prefix, user, plugin_actions())
}

fn is_bound(user: &[ShortcutEntry], action: &[char], c: &[char]) -> (r: bool)
    ensures
        r == already_bound(entry_views(user@), action@, c@),
{
    let ghost uv = entry_views(user@);
    let mut j: usize = 0;
    while j < user.len()
        invariant
            0 <= j <= user@.len(),
            uv == entry_views(user@),
            forall|k: int|
                0 <= k < j ==> !(spec_action_matches((#[trigger] uv[k]).command, action@)
                    || spec_same_chord(uv[k].key, c@)),
        decreases user.len() - j,
    {
        let e = &user[j];
        assert(uv[j as int] == entry_view(*e));
        let cmd = chars_of(e.command.as_str());
        let m = if cmd.len() == 0 {
            false
        } else {
            let x = action_key_exec(cmd.as_slice());
            let y = action_key_exec(action);
            chars_eq(x.as_slice(), y.as_slice())
        };
        if m || same_chord_chars(chars_of(e.key.as_str()).as_slice(), c) {
            assert(spec_action_matches(uv[j as int].command, action@) || spec_same_chord(
                uv[j as int].key,
                c@,
            ));
            return true;
        }
        j = j + 1;
    }
    false
}

fn is_default_chord(prefix: &[char], c: &[char]) -> (r: bool)
    ensures
        r == clobbers_default(prefix@, c@),
{
    let table = default_bindings_exec();
    let mut j: usize = 0;
    while j < table.len()
        invariant
            0 <= j <= table@.len(),
            table@.map_values(|q: (&'static str, &'static str)| (q.0@, q.1@)) == default_bindings(),
            forall|k: int|
                0 <= k < j ==> !spec_same_chord(
                    chord(prefix@, (#[trigger] default_bindings()[k]).0),
                    c@,
                ),
        decreases table.len() - j,
    {
        let (suffix, _) = table[j];
        assert(default_bindings()[j as int].0 == suffix@);
        let d = chord_exec(prefix, chars_of(suffix).as_slice());
        if same_chord_chars(d.as_slice(), c) {
            return true;
        }
        j = j + 1;
    }
    false
}

/// Suggested chords for this plugin's actions that are not bound yet and
/// that no Herdr default uses.
pub fn suggested_entries(prefix: &str, user: &[ShortcutEntry]) -> (r: Vec<ShortcutEntry>)
    ensures
        entry_views(r@) == spec_suggested_entries(prefix@, entry_views(user@)),
{
    let actions = plugin_actions_exec();
    let p = chars_of(prefix);
    let ghost uv = entry_views(user@);
    let mut out: Vec<ShortcutEntry> = Vec::new();
    let mut i: usize = 0;
    assert(plugin_actions().take(0) =~= Seq::<(Seq<char>, Seq<char>, Seq<char>)>::empty());
    assert(entry_views(out@) =~= Seq::<EntryView>::empty());
    while i < actions.len()
        invariant
            0 <= i <= actions@.len(),
            p@ == prefix@,
            uv == entry_views(user@),
            actions@.map_values(|q: (&'static str, &'static str, &'static str)| (q.0@, q.1@, q.2@))
                == plugin_actions(),
            entry_views(out@) == suggestions_from(prefix@, uv, plugin_actions().take(i as int)),
        decreases actions.len() - i,
    {
        let (action, suffix, description) = actions[i];
        assert(plugin_actions()[i as int] == (action@, suffix@, description@));
        assert(plugin_actions().take(i + 1).drop_last() == plugin_actions().take(i as int));
        let c = chord_exec(p.as_slice(), chars_of(suffix).as_slice());
        let a = chars_of(action);
        if !is_bound(user, a.as_slice(), c.as_slice()) && !is_default_chord(
            p.as_slice(),
            c.as_slice(),
        ) {
            let e = ShortcutEntry {
                key: string_of(c.as_slice()),
                kind: to_string("plugin_action"),
                command: to_string(action),
                description: to_string(description),
                source: ShortcutSource::Suggested,
            };
            let ghost before = out@;
            out.push(e);
            assert(entry_views(out@) == entry_views(before).push(entry_view(e)));
        }
        i = i + 1;
    }
    assert(plugin_actions().take(i as int) == plugin_actions());
    out
}

// ---------------------------------------------------------------------------
// Parsing `config.toml`
// ---------------------------------------------------------------------------

#[derive(Debug, Clone, Copy, PartialEq, Eq, Structural)]
pub enum Section {
    Keys,
    KeyCommand,
    Other,
}

/// A `[[keys.command]]` entry being read.
pub struct PartialView {
    pub key: Seq<char>,
    pub kind: Seq<char>,
    pub command: Seq<char>,
    pub description: Seq<char>,
}

pub open spec fn empty_partial() -> PartialView {
    PartialView {
        key: Seq::empty(),
        kind: Seq::empty(),
        command: Seq::empty(),
        description: Seq::empty(),
    }
}

/// State of the line parser.
pub struct ParseState {
    pub prefix: Option<Seq<char>>,
    pub entries: Seq<EntryView>,
    pub section: Section,
    pub current: Option<PartialView>,
}

/// A finished entry is kept when it has a key; its type defaults to
/// `command`.
pub open spec fn flushed(entries: Seq<EntryView>, current: Option<PartialView>) -> Seq<EntryView> {
    match current {
        Some(p) => if p.key.len() > 0 {
            entries.push(
                EntryView {
                    key: p.key,
                    kind: if p.kind.len() == 0 {
                        "command"@
                    } else {
                        p.kind
                    },
                    command: p.command,
                    description: p.description,
                    source: ShortcutSource::User,
                },
            )
        } else {
            entries
        },
        None => entries,
    }
}

/// Where the `#` comment of a line starts, scanning from `i` inside the
/// quote `quote` (`#` inside quotes is text).
pub open spec fn comment_scan(s: Seq<char>, i: int, quote: Option<char>) -> Option<int>
    decreases s.len() - i,
{
    if i >= s.len() || i < 0 {
        None
    } else {
        let c = s[i];
        match quote {
            Some(q) => comment_scan(
                s,
                i + 1,
                if c == q {
                    None
                } else {
                    quote
                },
            ),
            None => if c == '"' || c == '\'' {
                comment_scan(s, i + 1, Some(c))
            } else if c == '#' {
                Some(i)
            } else {
                comment_scan(s, i + 1, None)
            },
        }
    }
}

/// A line without its trailing `# comment`.
pub open spec fn spec_strip_comment(s: Seq<char>) -> Seq<char> {
    match comment_scan(s, 0, None) {
        Some(i) => s.take(i),
        None => s,
    }
}

/// A value without one pair of surrounding quotes (`"` or `'`).
pub open spec fn spec_unquote(v: Seq<char>) -> Seq<char> {
    if v.len() >= 2 && ((v[0] == '"' && v.last() == '"') || (v[0] == '\'' && v.last() == '\'')) {
        v.subrange(1, v.len() - 1)
    } else {
        v
    }
}

/// A `key = value` line applied to the entry being read.
pub open spec fn set_field(p: PartialView, key: Seq<char>, value: Seq<char>) -> PartialView {
    if key == "key"@ {
        PartialView { key: value, ..p }
    } else if key == "type"@ {
        PartialView { kind: value, ..p }
    } else if key == "command"@ {
        PartialView { command: value, ..p }
    } else if key == "description"@ {
        PartialView { description: value, ..p }
    } else {
        p
    }
}

/// One line of the config.
pub open spec fn line_step(st: ParseState, raw: Seq<char>) -> ParseState {
    let line = trim(spec_strip_comment(raw));
    if line.len() == 0 {
        st
    } else if starts_with(line, "[["@) {
        let e = flushed(st.entries, st.current);
        if starts_with(line, "[[keys.command]]"@) {
            ParseState {
                entries: e,
                current: Some(empty_partial()),
                section: Section::KeyCommand,
                ..st
            }
        } else {
            ParseState { entries: e, current: None, section: Section::Other, ..st }
        }
    } else if starts_with(line, "["@) {
        ParseState {
            entries: flushed(st.entries, st.current),
            current: None,
            section: if starts_with(line, "[keys]"@) {
                Section::Keys
            } else {
                Section::Other
            },
            ..st
        }
    } else {
        match find_char(line, '=') {
            None => st,
            Some(i) => {
                let key = trim(line.take(i));
                let value = spec_unquote(trim(line.skip(i + 1)));
                match st.section {
                    Section::Keys => if key == "prefix"@ && value.len() > 0 {
                        ParseState { prefix: Some(value), ..st }
                    } else {
                        st
                    },
                    Section::KeyCommand => match st.current {
                        Some(p) => ParseState { current: Some(set_field(p, key, value)), ..st },
                        None => st,
                    },
                    Section::Other => st,
                }
            },
        }
    }
}

pub open spec fn parse_lines(ls: Seq<Seq<char>>) -> ParseState
    decreases ls.len(),
{
    if ls.len() == 0 {
        ParseState { prefix: None, entries: Seq::empty(), section: Section::Other, current: None }
    } else {
        line_step(parse_lines(ls.drop_last()), ls.last())
    }
}

/// The configured prefix and the user entries of a config text.
pub open spec fn spec_parse_key_config(text: Seq<char>) -> (Option<Seq<char>>, Seq<EntryView>) {
    let st = parse_lines(lines(text));
    (st.prefix, flushed(st.entries, st.current))
}

pub open spec fn opt_view(o: Option<String>) -> Option<Seq<char>> {
    match o {
        Some(s) => Some(s@),
        None => None,
    }
}

fn strip_comment_len(v: &[char]) -> (n: usize)
    ensures
        v@.take(n as int) == spec_strip_comment(v@),
        n <= v@.len(),
{
    let mut quote: Option<char> = None;
    let mut i: usize = 0;
    while i < v.len()
        invariant
            0 <= i <= v@.len(),
            comment_scan(v@, 0, None) == comment_scan(v@, i as int, quote),
        decreases v.len() - i,
    {
        let c = v[i];
        match quote {
            Some(q) => {
                if c == q {
                    quote = None;
                }
            },
            None => {
                if c == '"' || c == '\'' {
                    quote = Some(c);
                } else if c == '#' {
                    return i;
                }
            },
        }
        i = i + 1;
    }
    assert(v@.take(v@.len() as int) == v@);
    v.len()
}

/// Drops a trailing `# comment`, ignoring `#` inside quotes.
pub fn strip_comment(line: &str) -> (r: &str)
    ensures
        r@ == spec_strip_comment(line@),
{
    let v = chars_of(line);
    let n = strip_comment_len(v.as_slice());
    line.substring_char(0, n)
}

fn unquote_chars(v: &[char]) -> (r: Vec<char>)
    ensures
        r@ == spec_unquote(v@),
{
    let n = v.len();
    if n >= 2 && ((v[0] == '"' && v[n - 1] == '"') || (v[0] == '\'' && v[n - 1] == '\'')) {
        slice_chars(v, 1, n - 1)
    } else {
        slice_chars(v, 0, n)
    }
}

/// Removes one pair of surrounding quotes.
pub fn unquote(value: &str) -> (r: String)
    ensures
        r@ == spec_unquote(value@),
{
    let u = unquote_chars(chars_of(value).as_slice());
    string_of(u.as_slice())
}

/// An entry being read, in exec form.
struct PartialEntry {
    key: String,
    kind: String,
    command: String,
    description: String,
}

spec fn partial_view(p: PartialEntry) -> PartialView {
    PartialView { key: p.key@, kind: p.kind@, command: p.command@, description: p.description@ }
}

spec fn opt_partial(o: Option<PartialEntry>) -> Option<PartialView> {
    match o {
        Some(p) => Some(partial_view(p)),
        None => None,
    }
}

fn flush(current: &mut Option<PartialEntry>, entries: &mut Vec<ShortcutEntry>)
    ensures
        (*final(current)) is None,
        entry_views(final(entries)@) == flushed(entry_views(old(entries)@), opt_partial(*old(current))),
{
    let mut taken: Option<PartialEntry> = None;
    std::mem::swap(&mut taken, current);
    match taken {
        Some(p) => {
            let klen = chars_of(p.key.as_str()).len();
            if klen > 0 {
                let kind = if chars_of(p.kind.as_str()).len() == 0 {
                    to_string("command")
                } else {
                    p.kind
                };
                let e = ShortcutEntry {
                    key: p.key,
                    kind,
                    command: p.command,
                    description: p.description,
                    source: ShortcutSource::User,
                };
                let ghost before = entries@;
                entries.push(e);
                assert(entry_views(entries@) == entry_views(before).push(entry_view(e)));
            }
        },
        None => {},
    }
}

/// Parses the `[keys]` and `[[keys.command]]` sections of a Herdr config:
/// the configured prefix and the user entries, in file order.
pub fn parse_key_config(text: &str) -> (r: (Option<String>, Vec<ShortcutEntry>))
    ensures
        (opt_view(r.0), entry_views(r.1@)) == spec_parse_key_config(text@),
{
    let all = lines_exec(chars_of(text).as_slice());
    let ghost ls = lines(text@);
    let mut prefix: Option<String> = None;
    let mut entries: Vec<ShortcutEntry> = Vec::new();
    let mut section = Section::Other;
    let mut current: Option<PartialEntry> = None;
    let mut i: usize = 0;
    assert(ls.take(0) =~= Seq::<Seq<char>>::empty());
    assert(entry_views(entries@) =~= Seq::<EntryView>::empty());
    while i < all.len()
        invariant
            0 <= i <= all@.len(),
            views(all@) == ls,
            parse_lines(ls.take(i as int)) == (ParseState {
                prefix: opt_view(prefix),
                entries: entry_views(entries@),
                section,
                current: opt_partial(current),
            }),
        decreases all.len() - i,
    {
        assert(ls.take(i + 1).drop_last() == ls.take(i as int));
        assert(ls.take(i + 1).last() == all@[i as int]@);
        let raw = &all[i];
        let n = strip_comment_len(raw.as_slice());
        let stripped = slice_chars(raw.as_slice(), 0, n);
        let line = trim_chars(stripped.as_slice());
        let line = line.as_slice();
        if line.len() == 0 {
        } else if starts_with_chars(line, chars_of("[[").as_slice()) {
            flush(&mut current, &mut entries);
            if starts_with_chars(line, chars_of("[[keys.command]]").as_slice()) {
                current = Some(
                    PartialEntry {
                        key: String::new(),
                        kind: String::new(),
                        command: String::new(),
                        description: String::new(),
                    },
                );
                section = Section::KeyCommand;
            } else {
                section = Section::Other;
            }
        } else if starts_with_chars(line, chars_of("[").as_slice()) {
            flush(&mut current, &mut entries);
            if starts_with_chars(line, chars_of("[keys]").as_slice()) {
                section = Section::Keys;
            } else {
                section = Section::Other;
            }
        } else {
            match find_char_exec(line, '=') {
                None => {},
                Some(eq) => {
                    let key = trim_chars(slice_chars(line, 0, eq).as_slice());
                    assert(key@ == trim(line@.take(eq as int)));
                    let after = slice_chars(line, eq + 1, line.len());
                    assert(after@ == line@.skip(eq + 1));
                    let value = unquote_chars(trim_chars(after.as_slice()).as_slice());
                    match section {
                        Section::Keys => {
                            if chars_eq(key.as_slice(), chars_of("prefix").as_slice())
                                && value.len() > 0 {
                                prefix = Some(string_of(value.as_slice()));
                            }
                        },
                        Section::KeyCommand => {
                            let mut taken: Option<PartialEntry> = None;
                            std::mem::swap(&mut taken, &mut current);
                            match taken {
                                Some(p) => {
                                    let v = string_of(value.as_slice());
                                    let k = key.as_slice();
                                    let p2 = if chars_eq(k, chars_of("key").as_slice()) {
                                        PartialEntry { key: v, ..p }
                                    } else if chars_eq(k, chars_of("type").as_slice()) {
                                        PartialEntry { kind: v, ..p }
                                    } else if chars_eq(k, chars_of("command").as_slice()) {
                                        PartialEntry { command: v, ..p }
                                    } else if chars_eq(k, chars_of("description").as_slice()) {
                                        PartialEntry { description: v, ..p }
                                    } else {
                                        p
                                    };
                                    current = Some(p2);
                                },
                                None => {},
                            }
                        },
                        Section::Other => {},
                    }
                },
            }
        }
        i = i + 1;
    }
    assert(ls.take(all@.len() as int) == ls);
    flush(&mut current, &mut entries);
    (prefix, entries)
}

// ---------------------------------------------------------------------------
// Merging
// ---------------------------------------------------------------------------

/// Where an entry goes among entries sorted by key: after every entry whose
/// key is not greater (so equal keys keep their order).
pub open spec fn insert_pos(s: Seq<EntryView>, e: EntryView) -> int
    decreases s.len(),
{
    if s.len() == 0 {
        0
    } else if lex_lt(e.key, s[0].key) {
        0
    } else {
        1 + insert_pos(s.drop_first(), e)
    }
}

/// Stable sort by key (insertion of each entry in turn).
pub open spec fn sort_by_key(s: Seq<EntryView>) -> Seq<EntryView>
    decreases s.len(),
{
    if s.len() == 0 {
        Seq::empty()
    } else {
        let r = sort_by_key(s.drop_last());
        r.insert(insert_pos(r, s.last()), s.last())
    }
}

proof fn lemma_insert_pos_bounds(s: Seq<EntryView>, e: EntryView)
    ensures
        0 <= insert_pos(s, e) <= s.len(),
    decreases s.len(),
{
    if s.len() > 0 && !lex_lt(e.key, s[0].key) {
        lemma_insert_pos_bounds(s.drop_first(), e);
    }
}

proof fn lemma_sort_len(s: Seq<EntryView>)
    ensures
        sort_by_key(s).len() == s.len(),
    decreases s.len(),
{
    if s.len() > 0 {
        lemma_sort_len(s.drop_last());
        lemma_insert_pos_bounds(sort_by_key(s.drop_last()), s.last());
    }
}

fn find_insert_pos(out: &Vec<ShortcutEntry>, key: &[char]) -> (j: usize)
    ensures
        j == insert_pos(entry_views(out@), key_probe(key@)),
        j <= out@.len(),
{
    let ghost ov = entry_views(out@);
    let ghost e = key_probe(key@);
    let mut j: usize = 0;
    assert(ov.skip(0) == ov);
    while j < out.len()
        invariant
            0 <= j <= out@.len(),
            ov == entry_views(out@),
            ov.len() == out@.len(),
            e == key_probe(key@),
            insert_pos(ov, e) == j + insert_pos(ov.skip(j as int), e),
        decreases out.len() - j,
    {
        let k = chars_of(out[j].key.as_str());
        assert(ov.skip(j as int)[0] == ov[j as int]);
        assert(ov[j as int].key == k@);
        if lex_less(key, k.as_slice()) {
            assert(lex_lt(e.key, ov.skip(j as int)[0].key));
            assert(insert_pos(ov.skip(j as int), e) == 0);
            return j;
        }
        assert(ov.skip(j as int).drop_first() == ov.skip(j + 1));
        j = j + 1;
    }
    j
}

/// An entry view with key `k` (only the key matters to `insert_pos`).
pub open spec fn key_probe(k: Seq<char>) -> EntryView {
    EntryView { key: k, ..arbitrary_view() }
}

/// Some entry view.
pub open spec fn arbitrary_view() -> EntryView {
    EntryView {
        key: Seq::empty(),
        kind: Seq::empty(),
        command: Seq::empty(),
        description: Seq::empty(),
        source: ShortcutSource::User,
    }
}

proof fn lemma_insert_pos_key_only(s: Seq<EntryView>, a: EntryView, b: EntryView)
    requires
        a.key == b.key,
    ensures
        insert_pos(s, a) == insert_pos(s, b),
    decreases s.len(),
{
    if s.len() > 0 {
        lemma_insert_pos_key_only(s.drop_first(), a, b);
    }
}

/// Entries sorted by key, equal keys in their original order.
pub fn sort_entries_by_key(v: Vec<ShortcutEntry>) -> (r: Vec<ShortcutEntry>)
    ensures
        entry_views(r@) == sort_by_key(entry_views(v@)),
{
    let ghost vv = entry_views(v@);
    let mut out: Vec<ShortcutEntry> = Vec::new();
    let mut rest = v;
    let ghost all = rest@;
    let total = rest.len();
    assert(all.len() == total);
    let mut i: usize = 0;
    assert(entry_views(out@) =~= Seq::<EntryView>::empty());
    assert(vv.take(0) =~= Seq::<EntryView>::empty());
    while rest.len() > 0
        invariant
            vv == entry_views(all),
            i + rest@.len() == all.len(),
            all.len() <= usize::MAX,
            rest@ == all.skip(i as int),
            entry_views(out@) == sort_by_key(vv.take(i as int)),
        decreases rest.len(),
    {
        let e = rest.remove(0);
        assert(e == all[i as int]);
        assert(rest@ == all.skip(i + 1));
        let k = chars_of(e.key.as_str());
        let j = find_insert_pos(&out, k.as_slice());
        let ghost ov = entry_views(out@);
        proof {
            lemma_insert_pos_key_only(ov, key_probe(k@), entry_view(e));
            assert(vv.take(i + 1).drop_last() == vv.take(i as int));
            assert(vv.take(i + 1).last() == entry_view(e));
        }
        out.insert(j, e);
        assert(entry_views(out@) == ov.insert(j as int, entry_view(e)));
        i = i + 1;
    }
    assert(vv.take(i as int) == vv);
    out
}

/// Some user chord is the same chord as `key`.
pub open spec fn is_shadowed(user: Seq<EntryView>, key: Seq<char>) -> bool {
    exists|j: int| 0 <= j < user.len() && spec_same_chord((#[trigger] user[j]).key, key)
}

/// The entries of `ds` that no user chord shadows, in order.
pub open spec fn unshadowed(ds: Seq<EntryView>, user: Seq<EntryView>) -> Seq<EntryView>
    decreases ds.len(),
{
    if ds.len() == 0 {
        Seq::empty()
    } else {
        let r = unshadowed(ds.drop_last(), user);
        if is_shadowed(user, ds.last().key) {
            r
        } else {
            r.push(ds.last())
        }
    }
}

/// The default entries that no user chord shadows.
pub open spec fn unshadowed_defaults(prefix: Seq<char>, user: Seq<EntryView>) -> Seq<EntryView> {
    unshadowed(spec_default_entries(prefix), user)
}

/// The key list shown on the Shortcuts tab for a config text: the user
/// entries (their `prefix` token resolved, sorted by chord), then the
/// suggestions for unbound plugin actions, then the defaults that no user
/// chord shadows.
pub open spec fn spec_key_config(text: Seq<char>) -> (Seq<char>, Seq<EntryView>) {
    let (configured, user) = spec_parse_key_config(text);
    let prefix = match configured {
        Some(p) => p,
        None => default_prefix(),
    };
    let resolved = user.map_values(
        |e: EntryView| EntryView { key: spec_resolve_prefix(e.key, prefix), ..e },
    );
    let sorted = sort_by_key(resolved);
    (
        prefix,
        sorted + spec_suggested_entries(prefix, sorted) + unshadowed_defaults(prefix, sorted),
    )
}

fn is_user_chord(user: &[ShortcutEntry], c: &[char]) -> (r: bool)
    ensures
        r == is_shadowed(entry_views(user@), c@),
{
    let ghost uv = entry_views(user@);
    let mut j: usize = 0;
    while j < user.len()
        invariant
            0 <= j <= user@.len(),
            uv == entry_views(user@),
            forall|k: int| 0 <= k < j ==> !spec_same_chord((#[trigger] uv[k]).key, c@),
        decreases user.len() - j,
    {
        assert(uv[j as int] == entry_view(user@[j as int]));
        if same_chord_chars(chars_of(user[j].key.as_str()).as_slice(), c) {
            return true;
        }
        j = j + 1;
    }
    false
}

/// Builds the key list from a config text (empty when no config was found)
/// and the path it was read from.
pub fn key_config_from(text: &str, config_path: Option<String>) -> (r: KeyConfig)
    ensures
        (r.prefix@, entry_views(r.entries@)) == spec_key_config(text@),
        r.config_path == config_path,
{
    let (configured, user) = parse_key_config(text);
    let prefix = match configured {
        Some(p) => p,
        None => to_string("ctrl+b"),
    };
    let ghost pv = prefix@;
    let ghost uv = entry_views(user@);
    let mut resolved: Vec<ShortcutEntry> = Vec::new();
    let mut i: usize = 0;
    let ghost target = uv.map_values(
        |e: EntryView| EntryView { key: spec_resolve_prefix(e.key, pv), ..e },
    );
    while i < user.len()
        invariant
            0 <= i <= user@.len(),
            uv == entry_views(user@),
            pv == prefix@,
            target == uv.map_values(
                |e: EntryView| EntryView { key: spec_resolve_prefix(e.key, pv), ..e },
            ),
            entry_views(resolved@) == target.take(i as int),
        decreases user.len() - i,
    {
        let e = &user[i];
        let k = resolve_prefix(e.key.as_str(), prefix.as_str());
        let ne = ShortcutEntry {
            key: k,
            kind: e.kind.clone(),
            command: e.command.clone(),
            description: e.description.clone(),
            source: e.source,
        };
        let ghost before = resolved@;
        resolved.push(ne);
        assert(entry_views(resolved@) == entry_views(before).push(entry_view(ne)));
        assert(target.take(i + 1) == target.take(i as int).push(target[i as int]));
        i = i + 1;
    }
    assert(target.take(i as int) == target);
    let sorted = sort_entries_by_key(resolved);
    let ghost sv = entry_views(sorted@);
    let suggestions = suggested_entries(prefix.as_str(), sorted.as_slice());
    let defaults = default_entries(prefix.as_str());
    let ghost dv = entry_views(defaults@);
    let mut entries: Vec<ShortcutEntry> = Vec::new();
    let mut out_sorted = sorted;
    let mut sug = suggestions;
    let ghost sgv = entry_views(sug@);
    let mut j: usize = 0;
    let mut kept: Vec<ShortcutEntry> = Vec::new();
    assert(entry_views(kept@) =~= Seq::<EntryView>::empty());
    while j < defaults.len()
        invariant
            0 <= j <= defaults@.len(),
            dv == entry_views(defaults@),
            sv == entry_views(out_sorted@),
            entry_views(kept@) == unshadowed(dv.take(j as int), sv),
        decreases defaults.len() - j,
    {
        let d = &defaults[j];
        assert(dv[j as int] == entry_view(*d));
        assert(dv.take(j + 1).drop_last() == dv.take(j as int));
        let shadowed = is_user_chord(out_sorted.as_slice(), chars_of(d.key.as_str()).as_slice());
        if !shadowed {
            let c = ShortcutEntry {
                key: d.key.clone(),
                kind: d.kind.clone(),
                command: d.command.clone(),
                description: d.description.clone(),
                source: d.source,
            };
            let ghost before = kept@;
            kept.push(c);
            assert(entry_views(kept@) == entry_views(before).push(entry_view(c)));
        }
        j = j + 1;
    }
    assert(dv.take(j as int) == dv);
    let ghost kv = entry_views(kept@);
    entries.append(&mut out_sorted);
    entries.append(&mut sug);
    entries.append(&mut kept);
    assert(entry_views(entries@) == sv + sgv + kv);
    KeyConfig { prefix, entries, config_path }
}

} // verus!

verus! {

/// A user chord hides every default with the same (case-insensitive) chord,
/// and every default that no user chord matches is listed, in table order.
pub proof fn lemma_user_bindings_shadow_defaults(ds: Seq<EntryView>, user: Seq<EntryView>)
    ensures
        forall|k: int|
            0 <= k < unshadowed(ds, user).len() ==> !is_shadowed(
                user,
                (#[trigger] unshadowed(ds, user)[k]).key,
            ) && ds.contains(unshadowed(ds, user)[k]),
        forall|i: int|
            0 <= i < ds.len() && !is_shadowed(user, (#[trigger] ds[i]).key) ==> unshadowed(
                ds,
                user,
            ).contains(ds[i]),
    decreases ds.len(),
{
    if ds.len() > 0 {
        let r = unshadowed(ds.drop_last(), user);
        lemma_user_bindings_shadow_defaults(ds.drop_last(), user);
        assert forall|k: int|
            0 <= k < unshadowed(ds, user).len() implies !is_shadowed(
            user,
            (#[trigger] unshadowed(ds, user)[k]).key,
        ) && ds.contains(unshadowed(ds, user)[k]) by {
            if k < r.len() {
                let x = r[k];
                let m = choose|m: int| 0 <= m < ds.drop_last().len() && ds.drop_last()[m] == x;
                assert(ds[m] == x);
            } else {
                assert(ds[ds.len() - 1] == ds.last());
            }
        }
        assert forall|i: int|
            0 <= i < ds.len() && !is_shadowed(user, (#[trigger] ds[i]).key) implies unshadowed(
            ds,
            user,
        ).contains(ds[i]) by {
            if i < ds.len() - 1 {
                assert(ds.drop_last()[i] == ds[i]);
                let m = choose|m: int| 0 <= m < r.len() && r[m] == ds[i];
                if !is_shadowed(user, ds.last().key) {
                    assert(r.push(ds.last())[m] == ds[i]);
                }
            } else {
                let n = r.len() as int;
                assert(r.push(ds.last())[n] == ds.last());
            }
        }
    }
}

/// A suggestion is never a plugin action that is bound already (by id or by
/// chord), and never takes a chord that Herdr uses by default.
pub proof fn lemma_suggestions_are_free(
    prefix: Seq<char>,
    user: Seq<EntryView>,
    actions: Seq<(Seq<char>, Seq<char>, Seq<char>)>,
)
    ensures
        forall|k: int|
            0 <= k < suggestions_from(prefix, user, actions).len() ==> {
                let e = #[trigger] suggestions_from(prefix, user, actions)[k];
                &&& !already_bound(user, e.command, e.key)
                &&& !clobbers_default(prefix, e.key)
                &&& e.source == ShortcutSource::Suggested
            },
    decreases actions.len(),
{
    if actions.len() > 0 {
        lemma_suggestions_are_free(prefix, user, actions.drop_last());
        let r = suggestions_from(prefix, user, actions.drop_last());
        assert forall|k: int| 0 <= k < suggestions_from(prefix, user, actions).len() implies {
            let e = #[trigger] suggestions_from(prefix, user, actions)[k];
            &&& !already_bound(user, e.command, e.key)
            &&& !clobbers_default(prefix, e.key)
            &&& e.source == ShortcutSource::Suggested
        } by {
            if k < r.len() {
                assert(suggestions_from(prefix, user, actions)[k] == r[k]);
            }
        }
    }
}

/// The environment values that say where Herdr's `config.toml` may be.
pub struct ConfigEnv {
    /// `HERDR_CONFIG`.
    pub herdr_config: Option<String>,
    /// `HERDR_CONFIG_PATH`.
    pub herdr_config_path: Option<String>,
    /// `APPDATA`, read on Windows only.
    pub appdata: Option<String>,
    /// `XDG_CONFIG_HOME`.
    pub xdg_config_home: Option<String>,
    /// The home directory.
    pub home: Option<String>,
}

/// The explicit paths: `HERDR_CONFIG`, then `HERDR_CONFIG_PATH`, each
/// when set and not empty.
pub open spec fn explicit_config_paths(env: ConfigEnv) -> Seq<Seq<char>> {
    (match env.herdr_config {
        Some(v) => if v@.len() > 0 {
            seq![v@]
        } else {
            Seq::empty()
        },
        None => Seq::empty(),
    }) + (match env.herdr_config_path {
        Some(v) => if v@.len() > 0 {
            seq![v@]
        } else {
            Seq::empty()
        },
        None => Seq::empty(),
    })
}

/// How many derived paths follow: `herdr/config.toml` under `APPDATA`,
/// under `XDG_CONFIG_HOME`, and under `~/.config`, each when its base is
/// known.
pub open spec fn derived_config_paths(env: ConfigEnv) -> int {
    (if env.appdata is Some {
        1int
    } else {
        0
    }) + (if env.xdg_config_home is Some {
        1int
    } else {
        0
    }) + (if env.home is Some {
        1int
    } else {
        0
    })
}

fn push_explicit(out: &mut Vec<String>, v: &Option<String>)
    ensures
        views_of(final(out)@) == views_of(old(out)@) + (match v {
            Some(x) => if x@.len() > 0 {
                seq![x@]
            } else {
                Seq::empty()
            },
            None => Seq::empty(),
        }),
{
    let ghost before = views_of(out@);
    match v {
        Some(x) => {
            if chars_of(x.as_str()).len() > 0 {
                out.push(to_string(x.as_str()));
            }
        },
        None => {},
    }
    assert(views_of(out@) =~= before + (match v {
        Some(x) => if x@.len() > 0 {
            seq![x@]
        } else {
            Seq::empty()
        },
        None => Seq::empty(),
    }));
}

pub open spec fn views_of(v: Seq<String>) -> Seq<Seq<char>> {
    v.map_values(|s: String| s@)
}

fn herdr_config_under(base: &str) -> String {
    let a = crate::paths::join_path(base, "herdr");
    crate::paths::join_path(a.as_str(), "config.toml")
}

/// Candidate `config.toml` locations, most specific first: the explicit
/// ones as they are set, then those derived from the base directories
/// (joined by the platform's path rules).
pub fn config_candidates(env: &ConfigEnv) -> (r: Vec<String>)
    ensures
        r@.len() == explicit_config_paths(*env).len() + derived_config_paths(*env),
        views_of(r@).take(explicit_config_paths(*env).len() as int) == explicit_config_paths(*env),
{
    let mut out: Vec<String> = Vec::new();
    push_explicit(&mut out, &env.herdr_config);
    push_explicit(&mut out, &env.herdr_config_path);
    let ghost ex = views_of(out@);
    assert(ex =~= explicit_config_paths(*env));
    match &env.appdata {
        Some(a) => out.push(herdr_config_under(a.as_str())),
        None => {},
    }
    match &env.xdg_config_home {
        Some(x) => out.push(herdr_config_under(x.as_str())),
        None => {},
    }
    match &env.home {
        Some(h) => {
            let c = crate::paths::join_path(h.as_str(), ".config");
            out.push(herdr_config_under(c.as_str()));
        },
        None => {},
    }
    assert(views_of(out@).take(ex.len() as int) =~= ex);
    out
}

} // verus!

verus! {

proof fn lemma_scan_plain(s: Seq<char>, i: int, j: int)
    requires
        0 <= i <= j <= s.len(),
        forall|m: int| i <= m < j ==> s[m] != '"' && s[m] != '\'' && s[m] != '#',
    ensures
        comment_scan(s, i, None) == comment_scan(s, j, None),
    decreases j - i,
{
    if i < j {
        lemma_scan_plain(s, i + 1, j);
    }
}

proof fn lemma_scan_quoted(s: Seq<char>, i: int, j: int, q: char)
    requires
        0 <= i <= j <= s.len(),
        forall|m: int| i <= m < j ==> s[m] != q,
    ensures
        comment_scan(s, i, Some(q)) == comment_scan(s, j, Some(q)),
    decreases j - i,
{
    if i < j {
        lemma_scan_quoted(s, i + 1, j, q);
    }
}

/// The line `name = "v"`.
pub open spec fn setting_line(name: Seq<char>, v: Seq<char>) -> Seq<char> {
    name + " = \""@ + v + "\""@
}

/// A setting name as the config writes it: a word of letters and `_`.
pub open spec fn plain_name(name: Seq<char>) -> bool {
    &&& name.len() > 0
    &&& forall|m: int| 0 <= m < name.len() ==> ('a' <= #[trigger] name[m] <= 'z' || name[m] == '_')
}

#[verifier::rlimit(40)]
proof fn lemma_setting_line_kept(name: Seq<char>, v: Seq<char>)
    requires
        plain_name(name),
        forall|m: int| 0 <= m < v.len() ==> v[m] != '"',
    ensures
        trim(spec_strip_comment(setting_line(name, v))) == setting_line(name, v),
        setting_line(name, v)[0] == name[0],
{
    reveal_strlit(" = \"");
    reveal_strlit("\"");
    let pre = name + " = \""@;
    let raw = setting_line(name, v);
    let n = raw.len() as int;
    let l = name.len() as int;
    assert forall|m: int| 0 <= m < l + 3 implies raw[m] != '"' && raw[m] != '\'' && raw[m] != '#' by {
        assert(raw[m] == pre[m]);
        if m < l {
            assert(pre[m] == name[m]);
        }
    }
    lemma_scan_plain(raw, 0, l + 3);
    assert(raw[l + 3] == '"');
    assert forall|m: int| l + 4 <= m < n - 1 implies raw[m] != '"' by {
        assert(raw[m] == v[m - l - 4]);
    }
    lemma_scan_quoted(raw, l + 4, n - 1, '"');
    assert(raw[n - 1] == '"');
    assert(comment_scan(raw, n, None) is None);
    assert(spec_strip_comment(raw) == raw);
    assert(raw[0] == name[0]);
    assert(raw.last() == '"');
    crate::text::lemma_trim_start_after_ws(Seq::empty(), raw);
    assert(Seq::<char>::empty() + raw == raw);
    crate::text::lemma_trim_end_before_ws(raw, Seq::empty());
    assert(raw + Seq::<char>::empty() == raw);
}

#[verifier::rlimit(40)]
proof fn lemma_setting_line_split(name: Seq<char>, v: Seq<char>)
    requires
        plain_name(name),
    ensures
        find_char(setting_line(name, v), '=') == Some(name.len() + 1 as int),
        trim(setting_line(name, v).take(name.len() + 1 as int)) == name,
        spec_unquote(trim(setting_line(name, v).skip(name.len() + 2 as int))) == v,
{
    reveal_strlit(" = \"");
    reveal_strlit("\"");
    reveal_strlit(" ");
    let pre = name + " = \""@;
    let raw = setting_line(name, v);
    let l = name.len() as int;
    assert(raw[l + 1] == '=');
    assert(raw.contains('='));
    let c = choose|i: int| 0 <= i < raw.len() && raw[i] == '=' && forall|j: int| 0 <= j < i ==> raw[j] != '=';
    assert forall|j: int| 0 <= j < l + 1 implies raw[j] != '=' by {
        assert(raw[j] == pre[j]);
        if j < l {
            assert(pre[j] == name[j]);
        }
    }
    assert(c == l + 1) by {
        if c > l + 1 {
            assert(raw[l + 1] != '=');
        }
    }
    assert(raw.take(l + 1) =~= name + " "@);
    assert(name.last() == name[l - 1]);
    assert(crate::text::is_ws(" "@[0]));
    crate::text::lemma_trim_end_before_ws(name, " "@);
    assert((name + " "@)[0] == name[0]);
    crate::text::lemma_trim_start_after_ws(Seq::empty(), name + " "@);
    assert(Seq::<char>::empty() + (name + " "@) == name + " "@);
    let q = "\""@ + v + "\""@;
    assert(raw.skip(l + 2) =~= " "@ + q);
    assert(q[0] == '"');
    assert(q.last() == '"');
    crate::text::lemma_trim_start_after_ws(" "@, q);
    crate::text::lemma_trim_end_before_ws(q, Seq::empty());
    assert(q + Seq::<char>::empty() == q);
    assert(q.subrange(1, q.len() - 1) =~= v);
}

/// What a `name = "v"` line does to the state: the section and the finished
/// entries stay; the line's name and quoted value are those written.
proof fn lemma_setting_line_step(st: ParseState, name: Seq<char>, v: Seq<char>)
    requires
        plain_name(name),
        forall|m: int| 0 <= m < v.len() ==> v[m] != '"',
    ensures
        line_step(st, setting_line(name, v)) == match st.section {
            Section::Keys => if name == "prefix"@ && v.len() > 0 {
                ParseState { prefix: Some(v), ..st }
            } else {
                st
            },
            Section::KeyCommand => match st.current {
                Some(p) => ParseState { current: Some(set_field(p, name, v)), ..st },
                None => st,
            },
            Section::Other => st,
        },
{
    reveal_strlit("[[");
    reveal_strlit("[");
    lemma_setting_line_kept(name, v);
    lemma_setting_line_split(name, v);
    let line = setting_line(name, v);
    assert('a' <= name[0] <= 'z' || name[0] == '_');
    assert(!starts_with(line, "[["@)) by {
        if starts_with(line, "[["@) {
            assert(line.take(2)[0] == line[0]);
        }
    }
    assert(!starts_with(line, "["@)) by {
        if starts_with(line, "["@) {
            assert(line.take(1)[0] == line[0]);
        }
    }
}

proof fn lemma_field_names()
    ensures
        plain_name("key"@),
        plain_name("type"@),
        plain_name("command"@),
        plain_name("description"@),
        plain_name("prefix"@),
        "key"@ != "type"@,
        "key"@ != "command"@,
        "key"@ != "description"@,
        "type"@ != "command"@,
        "type"@ != "description"@,
        "command"@ != "description"@,
{
    reveal_strlit("key");
    reveal_strlit("type");
    reveal_strlit("command");
    reveal_strlit("description");
    reveal_strlit("prefix");
    assert("key"@.len() != "type"@.len());
    assert("key"@.len() != "command"@.len());
    assert("key"@.len() != "description"@.len());
    assert("type"@.len() != "command"@.len());
    assert("type"@.len() != "description"@.len());
    assert("command"@.len() != "description"@.len());
}

/// Inside a `[[keys.command]]` entry, each `name = "v"` line sets the field
/// it names to the quoted text and leaves the other fields as they were:
/// `key`, `type`, `command` and `description`.
pub proof fn lemma_entry_lines_set_their_field(st: ParseState, p: PartialView, v: Seq<char>)
    requires
        st.section == Section::KeyCommand,
        st.current == Some(p),
        forall|m: int| 0 <= m < v.len() ==> v[m] != '"',
    ensures
        line_step(st, setting_line("key"@, v)).current == Some(PartialView { key: v, ..p }),
        line_step(st, setting_line("type"@, v)).current == Some(PartialView { kind: v, ..p }),
        line_step(st, setting_line("command"@, v)).current == Some(PartialView { command: v, ..p }),
        line_step(st, setting_line("description"@, v)).current == Some(
            PartialView { description: v, ..p },
        ),
        line_step(st, setting_line("description"@, v)).entries == st.entries,
{
    lemma_field_names();
    lemma_setting_line_step(st, "key"@, v);
    lemma_setting_line_step(st, "type"@, v);
    lemma_setting_line_step(st, "command"@, v);
    lemma_setting_line_step(st, "description"@, v);
}

/// In the `[keys]` table a non-empty `prefix = "v"` line sets the prefix.
pub proof fn lemma_prefix_line_sets_prefix(st: ParseState, v: Seq<char>)
    requires
        st.section == Section::Keys,
        v.len() > 0,
        forall|m: int| 0 <= m < v.len() ==> v[m] != '"',
    ensures
        line_step(st, setting_line("prefix"@, v)).prefix == Some(v),
        line_step(st, setting_line("prefix"@, v)).entries == st.entries,
{
    lemma_field_names();
    lemma_setting_line_step(st, "prefix"@, v);
}

} // verus!

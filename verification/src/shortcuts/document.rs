//! The usage overview document as plain styled text: one line per row,
//! nothing truncated but over-long names, rows never wrap. Each piece of
//! text carries a tone the renderer turns into a colour.
use crate::shortcuts::format::{format_count, spec_format_count, spec_truncate, truncate};
use crate::shortcuts::usage::model::{
    non_builtin, plugin_of, spec_plugin_of, Counted, PluginUsage, UsageStats,
};
use crate::shared::theme::{bar_cells, bar_fill, usage_bar};
use crate::text::{chars_of, concat_chars, dec_digits, decimal_chars, string_of};
use vstd::prelude::*;

verus! {

/// How a piece of the document is shown.
#[derive(Clone, Copy, PartialEq, Eq, Structural, Debug)]
pub enum Tone {
    /// The section marker.
    Accent,
    /// A section title.
    Heading,
    /// Hints and empty rows.
    Muted,
    /// An item's name.
    Name,
    /// An item's count.
    Count,
    /// A plugin's bar.
    PluginBar,
    /// A skill's bar.
    SkillBar,
    /// A command's bar.
    CommandBar,
}

/// A piece of text with its tone.
pub struct DocSpan {
    pub text: String,
    pub tone: Tone,
}

/// One row of the document.
pub struct DocLine {
    pub spans: Vec<DocSpan>,
}

/// Width of the proportional bars.
pub const BAR: usize = 12;
/// Width of the item-name column.
pub const NAME_W: usize = 22;

pub type LineView = Seq<(Seq<char>, Tone)>;

pub open spec fn line_view(l: DocLine) -> LineView {
    l.spans@.map_values(|s: DocSpan| (s.text@, s.tone))
}

pub open spec fn doc_view(d: Seq<DocLine>) -> Seq<LineView> {
    d.map_values(|l: DocLine| line_view(l))
}

pub open spec fn spaces(n: int) -> Seq<char> {
    Seq::new(if n > 0 { n as nat } else { 0 }, |i: int| ' ')
}

/// `s` padded with blanks on the right to `w` chars (`{:<w}`).
pub open spec fn pad_right(s: Seq<char>, w: int) -> Seq<char> {
    s + spaces(w - s.len())
}

/// `s` padded with blanks on the left to `w` chars (`{:>w}`).
pub open spec fn pad_left(s: Seq<char>, w: int) -> Seq<char> {
    spaces(w - s.len()) + s
}

/// The name column of a row.
pub open spec fn name_cell(name: Seq<char>) -> Seq<char> {
    "  "@ + pad_right(spec_truncate(name, NAME_W as int), NAME_W as int)
}

/// A section: a blank line before it (but at the top), then the marker
/// and its title.
pub open spec fn section_lines(first: bool, title: Seq<char>) -> Seq<LineView> {
    (if first {
        Seq::empty()
    } else {
        seq![Seq::empty()]
    }).push(seq![("▌ "@, Tone::Accent), (title, Tone::Heading)])
}

/// The row shown for an empty section.
pub open spec fn empty_lines(empty: bool) -> Seq<LineView> {
    if empty {
        seq![seq![("    (žádná data)"@, Tone::Muted)]]
    } else {
        Seq::empty()
    }
}

/// `name · bar · count · hint`: the bar is sized against `max`.
pub open spec fn bar_row(name: Seq<char>, count: u64, max: u64, tone: Tone, hint: Seq<char>) -> LineView {
    seq![
        (name_cell(name), Tone::Name),
        (bar_cells(bar_fill(count, max, BAR), BAR as int), tone),
        (" "@ + pad_left(spec_format_count(count as nat), 7), Tone::Count),
    ] + if hint.len() > 0 {
        seq![("  "@ + hint, Tone::Muted)]
    } else {
        Seq::empty()
    }
}

/// `name count` of a plugin's tool.
pub open spec fn tool_label(t: (String, u64)) -> Seq<char> {
    t.0@ + " "@ + spec_format_count(t.1 as nat)
}

/// Up to three most used tools of a plugin, joined by ` · `.
pub open spec fn tool_hint(p: PluginUsage) -> Seq<char> {
    crate::text::join(
        (if p.tools@.len() > 3 {
            p.tools@.take(3)
        } else {
            p.tools@
        }).map_values(|t: (String, u64)| tool_label(t)),
        " · "@,
    )
}

pub open spec fn plugin_rows(ps: Seq<PluginUsage>, max: u64) -> Seq<LineView> {
    ps.map_values(|p: PluginUsage| bar_row(p.plugin@, p.calls, max, Tone::PluginBar, tool_hint(p)))
}

pub open spec fn counted_rows(cs: Seq<Counted>, max: u64, tone: Tone) -> Seq<LineView> {
    cs.map_values(|c: Counted| bar_row(c.name@, c.count, max, tone, Seq::empty()))
}

/// A tool's row: name, count, and the plugin it belongs to.
pub open spec fn tool_row(c: Counted) -> LineView {
    seq![
        (name_cell(c.name@), Tone::Name),
        (pad_left(spec_format_count(c.count as nat), 8) + "  "@, Tone::Count),
        (spec_plugin_of(c.name@), Tone::Muted),
    ]
}

/// The largest count of a ranked list: its first.
pub open spec fn first_count(cs: Seq<Counted>) -> u64 {
    if cs.len() > 0 {
        cs[0].count
    } else {
        0
    }
}

pub open spec fn plugins_title(s: UsageStats) -> Seq<char> {
    "Pluginy ("@ + dec_digits(non_builtin(s.plugins@).len()) + ") · "@ + spec_format_count(
        (if s.tool_calls >= s.builtin_calls {
            s.tool_calls - s.builtin_calls
        } else {
            0
        }) as nat,
    ) + " volání"@
}

/// The whole document: plugins (builtins apart), skills, commands, then
/// every tool, each section headed by its count.
pub open spec fn spec_document(s: UsageStats) -> Seq<LineView> {
    let ps = non_builtin(s.plugins@);
    section_lines(true, plugins_title(s)) + empty_lines(ps.len() == 0) + plugin_rows(
        ps,
        if ps.len() > 0 {
            ps[0].calls
        } else {
            0
        },
    ) + section_lines(false, "Skilly ("@ + dec_digits(s.skills@.len()) + ") · čtení SKILL.md"@)
        + empty_lines(s.skills@.len() == 0) + counted_rows(s.skills@, first_count(s.skills@), Tone::SkillBar)
        + section_lines(false, "Příkazy ("@ + dec_digits(s.commands@.len()) + ")"@) + empty_lines(
        s.commands@.len() == 0,
    ) + counted_rows(s.commands@, first_count(s.commands@), Tone::CommandBar) + section_lines(
        false,
        "Nástroje ("@ + dec_digits(s.tools@.len()) + ") · vestavěné "@ + spec_format_count(
            s.builtin_calls as nat,
        ),
    ) + empty_lines(s.tools@.len() == 0) + s.tools@.map_values(|c: Counted| tool_row(c))
}

} // verus!

verus! {

proof fn lemma_doc_push(d: Seq<DocLine>, l: DocLine)
    ensures
        doc_view(d.push(l)) == doc_view(d).push(line_view(l)),
{
    assert(doc_view(d.push(l)) =~= doc_view(d).push(line_view(l)));
}

fn push_line(out: &mut Vec<DocLine>, l: DocLine)
    ensures
        doc_view(final(out)@) == doc_view(old(out)@).push(line_view(l)),
{
    proof {
        lemma_doc_push(out@, l);
    }
    out.push(l);
}

fn span(text: Vec<char>, tone: Tone) -> (r: DocSpan)
    ensures
        r.text@ == text@,
        r.tone == tone,
{
    DocSpan { text: string_of(text.as_slice()), tone }
}

fn spaces_exec(n: usize) -> (r: Vec<char>)
    ensures
        r@ == spaces(n as int),
{
    let mut out: Vec<char> = Vec::new();
    let mut i: usize = 0;
    while i < n
        invariant
            0 <= i <= n,
            out@ == spaces(i as int),
        decreases n - i,
    {
        out.push(' ');
        i = i + 1;
        assert(out@ =~= spaces(i as int));
    }
    out
}

pub(crate) fn pad_right_exec(v: &[char], w: usize) -> (r: Vec<char>)
    ensures
        r@ == pad_right(v@, w as int),
{
    let n: usize = if v.len() < w {
        w - v.len()
    } else {
        0
    };
    let s = spaces_exec(n);
    assert(s@ =~= spaces(w - v@.len()));
    concat_chars(v, s.as_slice())
}

fn pad_left_exec(v: &[char], w: usize) -> (r: Vec<char>)
    ensures
        r@ == pad_left(v@, w as int),
{
    let n: usize = if v.len() < w {
        w - v.len()
    } else {
        0
    };
    let s = spaces_exec(n);
    assert(s@ =~= spaces(w - v@.len()));
    concat_chars(s.as_slice(), v)
}

fn name_cell_exec(name: &str) -> (r: Vec<char>)
    ensures
        r@ == name_cell(name@),
{
    let t = truncate(name, NAME_W);
    let p = pad_right_exec(chars_of(t.as_str()).as_slice(), NAME_W);
    concat_chars(chars_of("  ").as_slice(), p.as_slice())
}

fn bar_row_exec(name: &str, count: u64, max: u64, tone: Tone, hint: Vec<char>) -> (r: DocLine)
    ensures
        line_view(r) == bar_row(name@, count, max, tone, hint@),
{
    let mut spans: Vec<DocSpan> = Vec::new();
    spans.push(span(name_cell_exec(name), Tone::Name));
    spans.push(span(chars_of(usage_bar(count, max, BAR).as_str()), tone));
    let c = pad_left_exec(chars_of(format_count(count).as_str()).as_slice(), 7);
    spans.push(span(concat_chars(chars_of(" ").as_slice(), c.as_slice()), Tone::Count));
    if hint.len() > 0 {
        spans.push(span(concat_chars(chars_of("  ").as_slice(), hint.as_slice()), Tone::Muted));
    }
    let r = DocLine { spans };
    assert(line_view(r) =~= bar_row(name@, count, max, tone, hint@));
    r
}

fn tool_hint_exec(p: &PluginUsage) -> (r: Vec<char>)
    ensures
        r@ == tool_hint(*p),
{
    let n: usize = if p.tools.len() > 3 {
        3
    } else {
        p.tools.len()
    };
    let ghost shown = if p.tools@.len() > 3 {
        p.tools@.take(3)
    } else {
        p.tools@
    };
    assert(shown =~= p.tools@.take(n as int));
    let mut labels: Vec<Vec<char>> = Vec::new();
    let mut i: usize = 0;
    while i < n
        invariant
            0 <= i <= n,
            n <= p.tools@.len(),
            crate::text::views(labels@) == p.tools@.take(i as int).map_values(
                |t: (String, u64)| tool_label(t),
            ),
        decreases n - i,
    {
        let a = concat_chars(chars_of(p.tools[i].0.as_str()).as_slice(), chars_of(" ").as_slice());
        let l = concat_chars(a.as_slice(), chars_of(format_count(p.tools[i].1).as_str()).as_slice());
        let ghost before = crate::text::views(labels@);
        labels.push(l);
        assert(crate::text::views(labels@) =~= before.push(l@));
        i = i + 1;
        assert(crate::text::views(labels@) =~= p.tools@.take(i as int).map_values(
            |t: (String, u64)| tool_label(t),
        ));
    }
    crate::text::join_exec(&labels, chars_of(" · ").as_slice())
}

fn push_section(out: &mut Vec<DocLine>, first: bool, title: Vec<char>)
    ensures
        doc_view(final(out)@) == doc_view(old(out)@) + section_lines(first, title@),
{
    let ghost before = doc_view(out@);
    let ghost t = title@;
    if !first {
        let blank = DocLine { spans: Vec::new() };
        assert(line_view(blank) =~= Seq::empty());
        push_line(out, blank);
    }
    let ghost mid = doc_view(out@);
    let mut spans: Vec<DocSpan> = Vec::new();
    spans.push(span(chars_of("▌ "), Tone::Accent));
    spans.push(span(title, Tone::Heading));
    let head = DocLine { spans };
    assert(line_view(head) =~= seq![("▌ "@, Tone::Accent), (t, Tone::Heading)]);
    push_line(out, head);
    assert(doc_view(out@) =~= before + section_lines(first, t));
}

fn push_empty(out: &mut Vec<DocLine>, empty: bool)
    ensures
        doc_view(final(out)@) == doc_view(old(out)@) + empty_lines(empty),
{
    let ghost before = doc_view(out@);
    if empty {
        let mut spans: Vec<DocSpan> = Vec::new();
        spans.push(span(chars_of("    (žádná data)"), Tone::Muted));
        let row = DocLine { spans };
        assert(line_view(row) =~= seq![("    (žádná data)"@, Tone::Muted)]);
        push_line(out, row);
    }
    assert(doc_view(out@) =~= before + empty_lines(empty));
}

fn push_counted(out: &mut Vec<DocLine>, cs: &Vec<Counted>, tone: Tone)
    ensures
        doc_view(final(out)@) == doc_view(old(out)@) + counted_rows(cs@, first_count(cs@), tone),
{
    let ghost before = doc_view(out@);
    let max: u64 = if cs.len() > 0 {
        cs[0].count
    } else {
        0
    };
    let mut i: usize = 0;
    while i < cs.len()
        invariant
            0 <= i <= cs@.len(),
            max == first_count(cs@),
            doc_view(out@) == before + counted_rows(cs@.take(i as int), max, tone),
        decreases cs.len() - i,
    {
        let ghost mid = doc_view(out@);
        let no_hint: Vec<char> = Vec::new();
        let row = bar_row_exec(cs[i].name.as_str(), cs[i].count, max, tone, no_hint);
        push_line(out, row);
        assert(cs@.take(i + 1) =~= cs@.take(i as int).push(cs@[i as int]));
        i = i + 1;
        assert(doc_view(out@) =~= before + counted_rows(cs@.take(i as int), max, tone));
    }
    assert(cs@.take(i as int) =~= cs@);
}

fn push_tools(out: &mut Vec<DocLine>, cs: &Vec<Counted>)
    ensures
        doc_view(final(out)@) == doc_view(old(out)@) + cs@.map_values(|c: Counted| tool_row(c)),
{
    let ghost before = doc_view(out@);
    let mut i: usize = 0;
    while i < cs.len()
        invariant
            0 <= i <= cs@.len(),
            doc_view(out@) == before + cs@.take(i as int).map_values(|c: Counted| tool_row(c)),
        decreases cs.len() - i,
    {
        let mut spans: Vec<DocSpan> = Vec::new();
        spans.push(span(name_cell_exec(cs[i].name.as_str()), Tone::Name));
        let c = pad_left_exec(chars_of(format_count(cs[i].count).as_str()).as_slice(), 8);
        spans.push(span(concat_chars(c.as_slice(), chars_of("  ").as_slice()), Tone::Count));
        spans.push(span(chars_of(plugin_of(cs[i].name.as_str())), Tone::Muted));
        let line = DocLine { spans };
        assert(line_view(line) =~= tool_row(cs@[i as int]));
        push_line(out, line);
        assert(cs@.take(i + 1) =~= cs@.take(i as int).push(cs@[i as int]));
        i = i + 1;
        assert(doc_view(out@) =~= before + cs@.take(i as int).map_values(|c: Counted| tool_row(c)));
    }
    assert(cs@.take(i as int) =~= cs@);
}

fn push_plugins(out: &mut Vec<DocLine>, stats: &UsageStats)
    ensures
        doc_view(final(out)@) == doc_view(old(out)@) + plugin_rows(
            non_builtin(stats.plugins@),
            if non_builtin(stats.plugins@).len() > 0 {
                non_builtin(stats.plugins@)[0].calls
            } else {
                0
            },
        ),
{
    let ghost before = doc_view(out@);
    let ps = stats.ranked_plugins();
    let ghost pv = ps@.map_values(|p: &PluginUsage| *p);
    assert(pv == non_builtin(stats.plugins@));
    let max: u64 = if ps.len() > 0 {
        ps[0].calls
    } else {
        0
    };
    let mut i: usize = 0;
    while i < ps.len()
        invariant
            0 <= i <= ps@.len(),
            pv == ps@.map_values(|p: &PluginUsage| *p),
            max == (if pv.len() > 0 {
                pv[0].calls
            } else {
                0
            }),
            doc_view(out@) == before + plugin_rows(pv.take(i as int), max),
        decreases ps.len() - i,
    {
        let p = ps[i];
        let row = bar_row_exec(p.plugin.as_str(), p.calls, max, Tone::PluginBar, tool_hint_exec(p));
        assert(pv[i as int] == *p);
        push_line(out, row);
        assert(pv.take(i + 1) =~= pv.take(i as int).push(pv[i as int]));
        i = i + 1;
        assert(doc_view(out@) =~= before + plugin_rows(pv.take(i as int), max));
    }
    assert(pv.take(i as int) =~= pv);
}

/// The usage overview document (see [`spec_document`]).
#[verifier::rlimit(40)]
pub fn document(stats: &UsageStats) -> (r: Vec<DocLine>)
    ensures
        doc_view(r@) == spec_document(*stats),
{
    let mut out: Vec<DocLine> = Vec::new();
    let ghost d0 = doc_view(out@);
    assert(d0 =~= Seq::<LineView>::empty());
    let ps_len = stats.ranked_plugins().len();
    let t1a = concat_chars(chars_of("Pluginy (").as_slice(), decimal_chars(ps_len as u128).as_slice());
    let t1b = concat_chars(t1a.as_slice(), chars_of(") · ").as_slice());
    let t1c = concat_chars(t1b.as_slice(), chars_of(format_count(stats.plugin_calls()).as_str()).as_slice());
    let t1 = concat_chars(t1c.as_slice(), chars_of(" volání").as_slice());
    assert(t1@ == plugins_title(*stats));
    push_section(&mut out, true, t1);
    push_empty(&mut out, ps_len == 0);
    push_plugins(&mut out, stats);
    let t2a = concat_chars(chars_of("Skilly (").as_slice(), decimal_chars(stats.skills.len() as u128).as_slice());
    let t2 = concat_chars(t2a.as_slice(), chars_of(") · čtení SKILL.md").as_slice());
    push_section(&mut out, false, t2);
    push_empty(&mut out, stats.skills.len() == 0);
    push_counted(&mut out, &stats.skills, Tone::SkillBar);
    let t3a = concat_chars(chars_of("Příkazy (").as_slice(), decimal_chars(stats.commands.len() as u128).as_slice());
    let t3 = concat_chars(t3a.as_slice(), chars_of(")").as_slice());
    push_section(&mut out, false, t3);
    push_empty(&mut out, stats.commands.len() == 0);
    push_counted(&mut out, &stats.commands, Tone::CommandBar);
    let t4a = concat_chars(chars_of("Nástroje (").as_slice(), decimal_chars(stats.tools.len() as u128).as_slice());
    let t4b = concat_chars(t4a.as_slice(), chars_of(") · vestavěné ").as_slice());
    let t4 = concat_chars(t4b.as_slice(), chars_of(format_count(stats.builtin_calls).as_str()).as_slice());
    push_section(&mut out, false, t4);
    push_empty(&mut out, stats.tools.len() == 0);
    push_tools(&mut out, &stats.tools);
    assert(doc_view(out@) =~= spec_document(*stats));
    out
}

/// The text of a row, its pieces run together.
pub fn line_text(l: &DocLine) -> (r: String)
    ensures
        r@ == crate::text::join(line_view(*l).map_values(|s: (Seq<char>, Tone)| s.0), Seq::empty()),
{
    let mut parts: Vec<Vec<char>> = Vec::new();
    let mut i: usize = 0;
    while i < l.spans.len()
        invariant
            0 <= i <= l.spans@.len(),
            crate::text::views(parts@) == line_view(*l).take(i as int).map_values(
                |s: (Seq<char>, Tone)| s.0,
            ),
        decreases l.spans.len() - i,
    {
        let ghost before = crate::text::views(parts@);
        let c = chars_of(l.spans[i].text.as_str());
        parts.push(c);
        assert(crate::text::views(parts@) =~= before.push(c@));
        i = i + 1;
        assert(crate::text::views(parts@) =~= line_view(*l).take(i as int).map_values(
            |s: (Seq<char>, Tone)| s.0,
        ));
    }
    assert(line_view(*l).take(i as int) =~= line_view(*l));
    let sep = chars_of("");
    proof {
        reveal_strlit("");
        assert(sep@ =~= Seq::<char>::empty());
    }
    string_of(crate::text::join_exec(&parts, sep.as_slice()).as_slice())
}

/// The footer's totals: files, messages, tool calls and scan time, or
/// that there is no data yet.
pub open spec fn spec_footer_totals(stats: Option<UsageStats>) -> Seq<char> {
    match stats {
        Some(s) => "  "@ + spec_format_count(s.files as nat) + " souborů · "@ + spec_format_count(
            s.messages as nat,
        ) + " zpráv · "@ + spec_format_count(s.tool_calls as nat) + " volání · "@
            + spec_format_count(s.elapsed_ms as nat) + " ms"@,
        None => "  žádná data"@,
    }
}

/// The footer's totals (see [`spec_footer_totals`]).
pub fn footer_totals(stats: Option<&UsageStats>) -> (r: String)
    ensures
        r@ == spec_footer_totals(
            match stats {
                Some(s) => Some(*s),
                None => None,
            },
        ),
{
    match stats {
        Some(s) => {
            let a = concat_chars(chars_of("  ").as_slice(), chars_of(format_count(s.files as u64).as_str()).as_slice());
            let b = concat_chars(a.as_slice(), chars_of(" souborů · ").as_slice());
            let c = concat_chars(b.as_slice(), chars_of(format_count(s.messages).as_str()).as_slice());
            let d = concat_chars(c.as_slice(), chars_of(" zpráv · ").as_slice());
            let e = concat_chars(d.as_slice(), chars_of(format_count(s.tool_calls).as_str()).as_slice());
            let f = concat_chars(e.as_slice(), chars_of(" volání · ").as_slice());
            let g = concat_chars(f.as_slice(), chars_of(format_count(s.elapsed_ms).as_str()).as_slice());
            let h = concat_chars(g.as_slice(), chars_of(" ms").as_slice());
            string_of(h.as_slice())
        },
        None => string_of(chars_of("  žádná data").as_slice()),
    }
}

/// The title's note of how many files were scanned (empty before a scan).
pub fn scanned_label(stats: Option<&UsageStats>) -> (r: String)
    ensures
        r@ == (match stats {
            Some(s) => " · "@ + spec_format_count(s.files as nat) + " souborů"@,
            None => Seq::empty(),
        }),
{
    match stats {
        Some(s) => {
            let a = concat_chars(chars_of(" · ").as_slice(), chars_of(format_count(s.files as u64).as_str()).as_slice());
            let b = concat_chars(a.as_slice(), chars_of(" souborů").as_slice());
            string_of(b.as_slice())
        },
        None => String::new(),
    }
}

/// Nothing is elided: a name that fits the name column is shown whole,
/// padded to the column.
pub proof fn lemma_names_shown_whole(name: Seq<char>)
    requires
        name.len() <= NAME_W,
    ensures
        name_cell(name) == "  "@ + name + spaces(NAME_W - name.len()),
{
}

/// The document ends with a row for every tool, in order: no list is cut
/// short.
pub proof fn lemma_document_lists_every_tool(s: UsageStats, i: int)
    requires
        0 <= i < s.tools@.len(),
    ensures
        spec_document(s).len() >= s.tools@.len(),
        spec_document(s)[spec_document(s).len() - s.tools@.len() + i] == tool_row(s.tools@[i]),
{
    let rows = s.tools@.map_values(|c: Counted| tool_row(c));
    let d = spec_document(s);
    let head = d.take(d.len() - rows.len());
    assert(d == head + rows) by {
        let ps = non_builtin(s.plugins@);
        let before = section_lines(true, plugins_title(s)) + empty_lines(ps.len() == 0) + plugin_rows(
            ps,
            if ps.len() > 0 {
                ps[0].calls
            } else {
                0
            },
        ) + section_lines(false, "Skilly ("@ + dec_digits(s.skills@.len()) + ") · čtení SKILL.md"@)
            + empty_lines(s.skills@.len() == 0) + counted_rows(s.skills@, first_count(s.skills@), Tone::SkillBar)
            + section_lines(false, "Příkazy ("@ + dec_digits(s.commands@.len()) + ")"@) + empty_lines(
            s.commands@.len() == 0,
        ) + counted_rows(s.commands@, first_count(s.commands@), Tone::CommandBar) + section_lines(
            false,
            "Nástroje ("@ + dec_digits(s.tools@.len()) + ") · vestavěné "@ + spec_format_count(
                s.builtin_calls as nat,
            ),
        ) + empty_lines(s.tools@.len() == 0);
        assert(d == before + rows);
        assert(head =~= before);
    }
    assert(d[head.len() + i] == rows[i]);
}

} // verus!

//! Reading a note back from the markdown it is stored as.
use crate::spai_notes::note::{SpaiFacets, SpaiNoteItem, SpaiStatus, SpaiType};
use crate::spai_notes::storage_format::{
    escape_quotes, facet_line, first_header, first_key, key_index, last_value, opt_trim, opt_view,
    yaml_keys, fm_start, header_id_title, header_text, md_facets, md_head, md_tags, md_tail, spec_body_part,
    parsed_note, spec_header, spec_markdown, spec_yaml_part, title_fold, yaml_kind, yaml_status,
    yaml_symbol, yaml_timestamp,
};
use crate::text::{
    ends_in_cr, find, find_char, free_of, is_ws, join, leading_ws, lemma_first_line,
    lemma_leading_ws, lemma_lines_join, lemma_trailing_ws, lemma_trim_end_before_ws,
    lemma_trim_padded, lemma_trim_start_after_ws, lines, occurs_at, starts_with, string_views,
    trailing_ws, trim, trim_char, trim_end_char, trim_start, trim_start_char, upper_seq,
    is_ascii_text, lower_seq,
};
use vstd::prelude::*;

verus! {

/// Each line followed by a line break.
pub open spec fn lined(ls: Seq<Seq<char>>) -> Seq<char>
    decreases ls.len(),
{
    if ls.len() == 0 {
        Seq::empty()
    } else {
        lined(ls.drop_last()) + ls.last() + "\n"@
    }
}

/// The optional `  key: value` line of a facet.
pub open spec fn facet_lines_of(key: Seq<char>, v: Option<String>) -> Seq<Seq<char>> {
    match v {
        Some(x) => seq!["  "@ + key + ": "@ + x@],
        None => Seq::empty(),
    }
}

/// The lines of the `facets:` block.
pub open spec fn facets_block(f: SpaiFacets) -> Seq<Seq<char>> {
    if f.priority is Some || f.deadline is Some || f.project is Some || f.project_path is Some {
        seq!["facets:"@] + facet_lines_of("priority"@, f.priority) + facet_lines_of(
            "deadline"@,
            f.deadline,
        ) + facet_lines_of("project"@, f.project) + facet_lines_of("project_path"@, f.project_path)
    } else {
        Seq::empty()
    }
}

/// The optional `tags:` line.
pub open spec fn tags_block(item: SpaiNoteItem) -> Seq<Seq<char>> {
    if item.tags@.len() > 0 {
        seq!["tags: ["@ + join(string_views(item.tags@), ", "@) + "]"@]
    } else {
        Seq::empty()
    }
}

/// The frontmatter lines every stored note has first.
pub open spec fn head_lines(item: SpaiNoteItem) -> Seq<Seq<char>> {
    seq![
        "type: "@ + item.kind.name(),
        "title: \""@ + escape_quotes(item.title@) + "\""@,
        "timestamp: "@ + item.timestamp@,
        "status: "@ + item.status.name(),
        "source: pi-spai"@,
    ]
}

/// The frontmatter line of the symbol, which every stored note has last.
pub open spec fn symbol_line(item: SpaiNoteItem) -> Seq<char> {
    "spai_symbol: '"@ + item.symbol@ + "'"@
}

/// The frontmatter lines of a stored note, between its two fences.
pub open spec fn frontmatter_lines(item: SpaiNoteItem) -> Seq<Seq<char>> {
    head_lines(item) + tags_block(item) + facets_block(item.facets) + seq![symbol_line(item)]
}

/// What follows the frontmatter lines: the closing fence, the header and
/// the trimmed body.
pub open spec fn after_frontmatter(item: SpaiNoteItem) -> Seq<char> {
    "---\n\n"@ + stored_body(item)
}

proof fn lemma_lined_append(a: Seq<Seq<char>>, b: Seq<Seq<char>>)
    ensures
        lined(a + b) == lined(a) + lined(b),
    decreases b.len(),
{
    if b.len() == 0 {
        assert(a + b == a);
        assert(lined(a) + Seq::<char>::empty() == lined(a));
    } else {
        lemma_lined_append(a, b.drop_last());
        assert((a + b).drop_last() == a + b.drop_last());
        assert((a + b).last() == b.last());
    }
}

proof fn lemma_lined_one(l: Seq<char>)
    ensures
        lined(seq![l]) == l + "\n"@,
{
    assert(seq![l].drop_last() == Seq::<Seq<char>>::empty());
    assert(lined(Seq::<Seq<char>>::empty()) == Seq::<char>::empty());
    assert(Seq::<char>::empty() + l == l);
}

proof fn lemma_lined_push(ls: Seq<Seq<char>>, l: Seq<char>)
    ensures
        lined(ls.push(l)) == lined(ls) + l + "\n"@,
{
    assert(ls.push(l).drop_last() == ls);
}

proof fn lemma_facet_block_line(key: Seq<char>, v: Option<String>)
    ensures
        lined(facet_lines_of(key, v)) == facet_line(key, v),
{
    reveal_strlit("\n");
    if let Some(x) = v {
        lemma_lined_one("  "@ + key + ": "@ + x@);
    } else {
        assert(lined(Seq::<Seq<char>>::empty()) == Seq::<char>::empty());
    }
}

#[verifier::rlimit(40)]
proof fn lemma_head_layout(item: SpaiNoteItem)
    ensures
        "---\n"@ + lined(head_lines(item)) == md_head(item),
{
    reveal_strlit("\n");
    reveal_strlit("\"\n");
    reveal_strlit("\"");
    reveal_strlit("source: pi-spai\n");
    reveal_strlit("source: pi-spai");
    let l0 = "type: "@ + item.kind.name();
    let l1 = "title: \""@ + escape_quotes(item.title@) + "\""@;
    let l2 = "timestamp: "@ + item.timestamp@;
    let l3 = "status: "@ + item.status.name();
    let l4 = "source: pi-spai"@;
    let nl = "\n"@;
    let p0 = "---\n"@;
    let s1 = Seq::<Seq<char>>::empty().push(l0);
    let s2 = s1.push(l1);
    let s3 = s2.push(l2);
    let s4 = s3.push(l3);
    let s5 = s4.push(l4);
    assert(head_lines(item) == s5);
    assert(lined(Seq::<Seq<char>>::empty()) == Seq::<char>::empty());
    lemma_lined_push(Seq::empty(), l0);
    lemma_lined_push(s1, l1);
    lemma_lined_push(s2, l2);
    lemma_lined_push(s3, l3);
    lemma_lined_push(s4, l4);
    assert("\"\n"@ == "\""@ + nl);
    assert("source: pi-spai\n"@ == l4 + nl);
    let a1 = p0 + "type: "@ + item.kind.name() + nl;
    assert(a1 =~= p0 + lined(s1));
    let a2 = a1 + "title: \""@ + escape_quotes(item.title@) + "\"\n"@;
    assert(a2 =~= a1 + l1 + nl);
    assert(p0 + lined(s2) =~= p0 + lined(s1) + l1 + nl);
    let a3 = a2 + "timestamp: "@ + item.timestamp@ + nl;
    assert(a3 =~= a2 + l2 + nl);
    assert(p0 + lined(s3) =~= p0 + lined(s2) + l2 + nl);
    let a4 = a3 + "status: "@ + item.status.name() + nl;
    assert(a4 =~= a3 + l3 + nl);
    assert(p0 + lined(s4) =~= p0 + lined(s3) + l3 + nl);
    let a5 = a4 + "source: pi-spai\n"@;
    assert(a5 =~= a4 + l4 + nl);
    assert(p0 + lined(s5) =~= p0 + lined(s4) + l4 + nl);
}

proof fn lemma_tags_layout(item: SpaiNoteItem)
    ensures
        lined(tags_block(item)) == md_tags(item),
{
    reveal_strlit("\n");
    reveal_strlit("]\n");
    reveal_strlit("]");
    if item.tags@.len() > 0 {
        let l = "tags: ["@ + join(string_views(item.tags@), ", "@) + "]"@;
        lemma_lined_one(l);
        assert("]\n"@ == "]"@ + "\n"@);
        assert(lined(tags_block(item)) =~= md_tags(item));
    } else {
        assert(lined(Seq::<Seq<char>>::empty()) == Seq::<char>::empty());
    }
}

#[verifier::rlimit(40)]
proof fn lemma_facets_layout(f: SpaiFacets)
    ensures
        lined(facets_block(f)) == md_facets(f),
{
    reveal_strlit("\n");
    reveal_strlit("facets:\n");
    reveal_strlit("facets:");
    if f.priority is Some || f.deadline is Some || f.project is Some || f.project_path is Some {
        assert(yaml_keys()[4] == "project:"@);
        assert(yaml_keys()[5] == "project_path:"@);
        assert(yaml_keys()[6] == "priority:"@);
        assert(yaml_keys()[7] == "deadline:"@);
        let a0 = seq!["facets:"@];
        let a1 = facet_lines_of("priority"@, f.priority);
        let a2 = facet_lines_of("deadline"@, f.deadline);
        let a3 = facet_lines_of("project"@, f.project);
        let a4 = facet_lines_of("project_path"@, f.project_path);
        lemma_lined_one("facets:"@);
        assert("facets:\n"@ == "facets:"@ + "\n"@);
        lemma_lined_append(a0, a1);
        lemma_lined_append(a0 + a1, a2);
        lemma_lined_append(a0 + a1 + a2, a3);
        lemma_lined_append(a0 + a1 + a2 + a3, a4);
        lemma_facet_block_line("priority"@, f.priority);
        lemma_facet_block_line("deadline"@, f.deadline);
        lemma_facet_block_line("project"@, f.project);
        lemma_facet_block_line("project_path"@, f.project_path);
        assert(facets_block(f) == a0 + a1 + a2 + a3 + a4);
        assert(lined(facets_block(f)) =~= md_facets(f));
    } else {
        assert(lined(Seq::<Seq<char>>::empty()) == Seq::<char>::empty());
    }
}

proof fn lemma_tail_layout(item: SpaiNoteItem)
    ensures
        lined(seq![symbol_line(item)]) + after_frontmatter(item) == md_tail(item),
{
    reveal_strlit("\n");
    reveal_strlit("'\n");
    reveal_strlit("'");
    reveal_strlit("---\n\n");
    lemma_lined_one(symbol_line(item));
    assert("'\n"@ == "'"@ + "\n"@);
    assert(lined(seq![symbol_line(item)]) + after_frontmatter(item) =~= md_tail(item));
}

/// The stored markdown is the opening fence, the frontmatter lines and what
/// follows them.
#[verifier::rlimit(40)]
#[verifier::spinoff_prover]
pub proof fn lemma_markdown_layout(item: SpaiNoteItem)
    ensures
        spec_markdown(item) == "---\n"@ + lined(frontmatter_lines(item)) + after_frontmatter(item),
{
    let hb = head_lines(item);
    let tb = tags_block(item);
    let fb = facets_block(item.facets);
    let sl = seq![symbol_line(item)];
    lemma_head_layout(item);
    lemma_tags_layout(item);
    lemma_facets_layout(item.facets);
    lemma_tail_layout(item);
    lemma_lined_append(hb, tb);
    lemma_lined_append(hb + tb, fb);
    lemma_lined_append(hb + tb + fb, sl);
    assert(spec_markdown(item) =~= "---\n"@ + lined(frontmatter_lines(item)) + after_frontmatter(item));
}

/// A field a markdown line holds as it is: no line break, and no white
/// space at either end.
pub open spec fn plain_field(s: Seq<char>) -> bool {
    &&& free_of(s, '\n')
    &&& s.len() > 0 ==> !is_ws(s[0]) && !is_ws(s[s.len() - 1])
}

/// `s` neither starts nor ends with `c`.
pub open spec fn not_wrapped_in(s: Seq<char>, c: char) -> bool {
    s.len() > 0 ==> s[0] != c && s[s.len() - 1] != c
}

pub open spec fn plain_facet(v: Option<String>) -> bool {
    match v {
        Some(x) => plain_field(x@),
        None => true,
    }
}

/// The notes whose fields the markdown holds exactly: a `SPAI-` id without
/// `:` and a title, both non-empty; a timestamp, a non-empty symbol, tags
/// and facet values on one line each, without white space at their ends;
/// the timestamp and symbol not wrapped in quotes.
pub open spec fn stored_exactly(item: SpaiNoteItem) -> bool {
    &&& item.id@.len() > 0 && plain_field(item.id@) && free_of(item.id@, ':')
    &&& starts_with(upper_seq(item.id@), "SPAI-"@)
    &&& item.title@.len() > 0 && plain_field(item.title@)
    &&& plain_field(item.timestamp@) && not_wrapped_in(item.timestamp@, '"')
    &&& item.symbol@.len() > 0 && plain_field(item.symbol@)
    &&& not_wrapped_in(item.symbol@, '\'') && not_wrapped_in(item.symbol@, '"')
    &&& forall|i: int| 0 <= i < item.tags@.len() ==> free_of(#[trigger] item.tags@[i]@, '\n')
    &&& plain_facet(item.facets.priority) && plain_facet(item.facets.deadline)
    &&& plain_facet(item.facets.project) && plain_facet(item.facets.project_path)
}

/// A frontmatter line as the reader needs it: not empty, on one line, not
/// starting with `-` and not ending in `\r`.
pub open spec fn good_line(l: Seq<char>) -> bool {
    l.len() > 0 && free_of(l, '\n') && l[0] != '-' && !ends_in_cr(l)
}

pub open spec fn good_lines(ls: Seq<Seq<char>>) -> bool {
    forall|i: int| 0 <= i < ls.len() ==> good_line(#[trigger] ls[i])
}

proof fn lemma_free_concat(a: Seq<char>, b: Seq<char>)
    requires
        free_of(a, '\n'),
        free_of(b, '\n'),
    ensures
        free_of(a + b, '\n'),
{
    assert forall|i: int| 0 <= i < (a + b).len() implies (a + b)[i] != '\n' by {
        if i < a.len() {
            assert((a + b)[i] == a[i]);
        } else {
            assert((a + b)[i] == b[i - a.len()]);
        }
    }
}

proof fn lemma_good_lines_append(a: Seq<Seq<char>>, b: Seq<Seq<char>>)
    requires
        good_lines(a),
        good_lines(b),
    ensures
        good_lines(a + b),
{
    assert forall|i: int| 0 <= i < (a + b).len() implies good_line(#[trigger] (a + b)[i]) by {
        if i < a.len() {
            assert((a + b)[i] == a[i]);
        } else {
            assert((a + b)[i] == b[i - a.len()]);
        }
    }
}

/// `key` (no line break, first char not `-`) followed by a plain value or
/// by a value closed by `close`, makes a good line.
proof fn lemma_key_line(key: Seq<char>, v: Seq<char>)
    requires
        key.len() > 0,
        free_of(key, '\n'),
        key[0] != '-',
        key.last() != '\r',
        plain_field(v),
    ensures
        good_line(key + v),
{
    lemma_free_concat(key, v);
    assert((key + v)[0] == key[0]);
    if v.len() > 0 {
        assert((key + v).last() == v[v.len() - 1]);
        assert(is_ws('\r'));
    } else {
        assert(key + v == key);
    }
}

proof fn lemma_escape_free(s: Seq<char>)
    requires
        free_of(s, '\n'),
    ensures
        free_of(escape_quotes(s), '\n'),
    decreases s.len(),
{
    if s.len() > 0 {
        assert(free_of(s.drop_last(), '\n')) by {
            assert forall|i: int| 0 <= i < s.drop_last().len() implies s.drop_last()[i] != '\n' by {
                assert(s.drop_last()[i] == s[i]);
            }
        }
        lemma_escape_free(s.drop_last());
        assert(s.last() == s[s.len() - 1]);
        if s.last() == '"' {
            lemma_free_concat(escape_quotes(s.drop_last()), seq!['\\', '"']);
        } else {
            lemma_free_concat(escape_quotes(s.drop_last()), seq![s.last()]);
            assert(escape_quotes(s.drop_last()).push(s.last()) == escape_quotes(s.drop_last())
                + seq![s.last()]);
        }
    }
}

proof fn lemma_join_free(parts: Seq<Seq<char>>, sep: Seq<char>)
    requires
        free_of(sep, '\n'),
        forall|i: int| 0 <= i < parts.len() ==> free_of(#[trigger] parts[i], '\n'),
    ensures
        free_of(join(parts, sep), '\n'),
    decreases parts.len(),
{
    if parts.len() == 1 {
        assert(free_of(parts[0], '\n'));
    } else if parts.len() > 1 {
        let dl = parts.drop_last();
        assert forall|i: int| 0 <= i < dl.len() implies free_of(#[trigger] dl[i], '\n') by {
            assert(dl[i] == parts[i]);
        }
        lemma_join_free(dl, sep);
        assert(free_of(parts[parts.len() - 1], '\n'));
        lemma_free_concat(join(dl, sep), sep);
        lemma_free_concat(join(dl, sep) + sep, parts.last());
    }
}

proof fn lemma_facet_lines_good(key: Seq<char>, v: Option<String>)
    requires
        key.len() > 0,
        free_of(key, '\n'),
        plain_facet(v),
    ensures
        good_lines(facet_lines_of(key, v)),
{
    reveal_strlit("  ");
    reveal_strlit(": ");
    if let Some(x) = v {
        let k = "  "@ + key + ": "@;
        lemma_free_concat("  "@, key);
        lemma_free_concat("  "@ + key, ": "@);
        assert(k[0] == ' ');
        assert(k.last() == ' ');
        lemma_key_line(k, x@);
        assert(facet_lines_of(key, v)[0] == k + x@);
    }
}

/// Every frontmatter line of a note stored exactly is a good line.
#[verifier::rlimit(40)]
#[verifier::spinoff_prover]
proof fn lemma_frontmatter_good(item: SpaiNoteItem)
    requires
        stored_exactly(item),
    ensures
        good_lines(frontmatter_lines(item)),
{
    reveal_strlit("type: ");
    reveal_strlit("title: \"");
    reveal_strlit("\"");
    reveal_strlit("timestamp: ");
    reveal_strlit("status: ");
    reveal_strlit("source: pi-spai");
    reveal_strlit("tags: [");
    reveal_strlit("]");
    reveal_strlit(", ");
    reveal_strlit("facets:");
    reveal_strlit("spai_symbol: '");
    reveal_strlit("'");
    reveal_strlit("priority");
    reveal_strlit("deadline");
    reveal_strlit("project");
    reveal_strlit("project_path");
    reveal_strlit("Todo");
    reveal_strlit("Idea");
    reveal_strlit("Note");
    reveal_strlit("todo");
    reveal_strlit("working");
    reveal_strlit("waiting");
    reveal_strlit("done");
    reveal_strlit("cancelled");
    reveal_strlit("idea");
    reveal_strlit("note");
    reveal_strlit("inbox");
    let k = item.kind.name();
    let st = item.status.name();
    assert(plain_field(k));
    assert(plain_field(st));
    lemma_key_line("type: "@, k);
    let e = escape_quotes(item.title@);
    lemma_escape_free(item.title@);
    lemma_free_concat("title: \""@, e);
    lemma_free_concat("title: \""@ + e, "\""@);
    let l1 = "title: \""@ + e + "\""@;
    assert(l1[0] == 't');
    assert(l1.last() == '"');
    lemma_key_line("timestamp: "@, item.timestamp@);
    lemma_key_line("status: "@, st);
    assert(good_line("source: pi-spai"@));
    let hb = head_lines(item);
    assert(good_lines(hb)) by {
        assert forall|i: int| 0 <= i < hb.len() implies good_line(#[trigger] hb[i]) by {
            if i == 1 {
                assert(hb[i] == l1);
            }
        }
    }
    let tb = tags_block(item);
    if item.tags@.len() > 0 {
        let j = join(string_views(item.tags@), ", "@);
        assert forall|i: int| 0 <= i < string_views(item.tags@).len() implies free_of(
            #[trigger] string_views(item.tags@)[i],
            '\n',
        ) by {
            assert(string_views(item.tags@)[i] == item.tags@[i]@);
        }
        lemma_join_free(string_views(item.tags@), ", "@);
        lemma_free_concat("tags: ["@, j);
        lemma_free_concat("tags: ["@ + j, "]"@);
        let l = "tags: ["@ + j + "]"@;
        assert(l[0] == 't');
        assert(l.last() == ']');
        assert(tb[0] == l);
    }
    assert(good_lines(tb));
    let f = item.facets;
    let fb = facets_block(f);
    if f.priority is Some || f.deadline is Some || f.project is Some || f.project_path is Some {
        assert(yaml_keys()[4] == "project:"@);
        assert(yaml_keys()[5] == "project_path:"@);
        assert(yaml_keys()[6] == "priority:"@);
        assert(yaml_keys()[7] == "deadline:"@);
        let a0 = seq!["facets:"@];
        let a1 = facet_lines_of("priority"@, f.priority);
        let a2 = facet_lines_of("deadline"@, f.deadline);
        let a3 = facet_lines_of("project"@, f.project);
        let a4 = facet_lines_of("project_path"@, f.project_path);
        assert(good_line("facets:"@));
        assert(good_lines(a0));
        lemma_facet_lines_good("priority"@, f.priority);
        lemma_facet_lines_good("deadline"@, f.deadline);
        lemma_facet_lines_good("project"@, f.project);
        lemma_facet_lines_good("project_path"@, f.project_path);
        lemma_good_lines_append(a0, a1);
        lemma_good_lines_append(a0 + a1, a2);
        lemma_good_lines_append(a0 + a1 + a2, a3);
        lemma_good_lines_append(a0 + a1 + a2 + a3, a4);
    }
    assert(good_lines(fb));
    let sy = symbol_line(item);
    lemma_free_concat("spai_symbol: '"@, item.symbol@);
    lemma_free_concat("spai_symbol: '"@ + item.symbol@, "'"@);
    assert(sy[0] == 's');
    assert(sy.last() == '\'');
    assert(good_lines(seq![sy]));
    lemma_good_lines_append(hb, tb);
    lemma_good_lines_append(hb + tb, fb);
    lemma_good_lines_append(hb + tb + fb, seq![sy]);
}

proof fn lemma_occurs_first_two(t: Seq<char>, p: Seq<char>, j: int)
    requires
        occurs_at(t, p, j),
        p.len() >= 2,
    ensures
        t[j] == p[0],
        t[j + 1] == p[1],
{
    assert(t.subrange(j, j + p.len())[0] == t[j]);
    assert(t.subrange(j, j + p.len())[1] == t[j + 1]);
}

/// No closing fence starts inside good lines (before their last break).
#[verifier::rlimit(40)]
proof fn lemma_no_fence(ls: Seq<Seq<char>>, x: Seq<char>)
    requires
        good_lines(ls),
    ensures
        forall|j: int| 0 <= j < lined(ls).len() - 1 ==> !occurs_at(lined(ls) + x, "\n---"@, j),
    decreases ls.len(),
{
    reveal_strlit("\n---");
    reveal_strlit("\n");
    if ls.len() > 0 {
        let dl = ls.drop_last();
        let l = ls.last();
        assert(good_line(ls[ls.len() - 1]));
        assert(good_lines(dl)) by {
            assert forall|i: int| 0 <= i < dl.len() implies good_line(#[trigger] dl[i]) by {
                assert(dl[i] == ls[i]);
                assert(good_line(ls[i]));
            }
        }
        let y = l + "\n"@ + x;
        lemma_no_fence(dl, y);
        let ll = lined(dl);
        assert(lined(ls) + x =~= ll + y);
        assert forall|j: int| 0 <= j < lined(ls).len() - 1 implies !occurs_at(
            lined(ls) + x,
            "\n---"@,
            j,
        ) by {
            if occurs_at(lined(ls) + x, "\n---"@, j) {
                lemma_occurs_first_two(ll + y, "\n---"@, j);
                if j < ll.len() - 1 {
                } else if j == ll.len() - 1 {
                    assert((ll + y)[j + 1] == y[0]);
                    assert(y[0] == l[0]);
                } else {
                    assert((ll + y)[j] == y[j - ll.len()]);
                    assert(y[j - ll.len()] == l[j - ll.len()]);
                }
            }
        }
    }
}

proof fn lemma_lined_join(ls: Seq<Seq<char>>)
    requires
        ls.len() > 0,
    ensures
        lined(ls) == join(ls, "\n"@) + "\n"@,
    decreases ls.len(),
{
    if ls.len() == 1 {
        assert(ls.drop_last() == Seq::<Seq<char>>::empty());
        assert(lined(Seq::<Seq<char>>::empty()) == Seq::<char>::empty());
        assert(Seq::<char>::empty() + ls[0] == ls[0]);
    } else {
        lemma_lined_join(ls.drop_last());
        assert(lined(ls) =~= join(ls, "\n"@) + "\n"@);
    }
}

/// The body the reader sees after the frontmatter: the header line and the
/// trimmed body.
pub open spec fn stored_body(item: SpaiNoteItem) -> Seq<char> {
    "# "@ + item.id@ + ": "@ + item.title@ + "\n\n"@ + trim(item.body@) + "\n"@
}

#[verifier::rlimit(40)]
proof fn lemma_opening_fence(item: SpaiNoteItem)
    ensures
        fm_start(spec_markdown(item)) == 4,
        spec_markdown(item).skip(4) == lined(frontmatter_lines(item)) + after_frontmatter(item),
{
    reveal_strlit("---\n");
    reveal_strlit("---\r\n");
    let md = spec_markdown(item);
    lemma_markdown_layout(item);
    assert(md[3] == '\n');
    if starts_with(md, "---\r\n"@) {
        assert(md.take(5)[3] == md[3]);
    }
    assert(md.take(4) =~= "---\n"@);
    assert(md.skip(4) =~= lined(frontmatter_lines(item)) + after_frontmatter(item));
}

#[verifier::rlimit(40)]
#[verifier::spinoff_prover]
proof fn lemma_closing_fence(item: SpaiNoteItem)
    requires
        stored_exactly(item),
    ensures
        find(lined(frontmatter_lines(item)) + after_frontmatter(item), "\n---"@) == Some(
            join(frontmatter_lines(item), "\n"@).len() as int,
        ),
{
    reveal_strlit("\n---");
    reveal_strlit("\n");
    reveal_strlit("---\n\n");
    let fl = frontmatter_lines(item);
    let after = after_frontmatter(item);
    lemma_frontmatter_good(item);
    lemma_lined_join(fl);
    let lf = lined(fl);
    let rest = lf + after;
    let jj = join(fl, "\n"@).len() as int;
    assert(after[0] == '-' && after[1] == '-' && after[2] == '-');
    assert(rest.subrange(jj, jj + 4) =~= "\n---"@) by {
        assert(rest[jj] == lf[jj]);
        assert(rest[jj + 1] == after[0]);
        assert(rest[jj + 2] == after[1]);
        assert(rest[jj + 3] == after[2]);
    }
    assert(occurs_at(rest, "\n---"@, jj));
    lemma_no_fence(fl, after);
    let c = choose|i: int|
        occurs_at(rest, "\n---"@, i) && forall|j: int| 0 <= j < i ==> !occurs_at(rest, "\n---"@, j);
    assert(c == jj) by {
        if c > jj {
            assert(!occurs_at(rest, "\n---"@, jj));
        }
    }
}

#[verifier::rlimit(40)]
#[verifier::spinoff_prover]
proof fn lemma_yaml_part(item: SpaiNoteItem)
    requires
        stored_exactly(item),
    ensures
        lines(spec_yaml_part(spec_markdown(item))) == frontmatter_lines(item),
{
    reveal_strlit("\n---");
    let md = spec_markdown(item);
    let fl = frontmatter_lines(item);
    lemma_opening_fence(item);
    lemma_closing_fence(item);
    lemma_frontmatter_good(item);
    lemma_lined_join(fl);
    let jn = join(fl, "\n"@);
    assert(spec_yaml_part(md) =~= jn);
    assert forall|i: int| 0 <= i < fl.len() implies free_of(#[trigger] fl[i], '\n') by {
        assert(good_line(fl[i]));
    }
    assert forall|i: int| 0 <= i < fl.len() - 1 implies !ends_in_cr(#[trigger] fl[i]) by {
        assert(good_line(fl[i]));
    }
    assert(good_line(fl[fl.len() - 1]));
    lemma_lines_join(fl);
}

#[verifier::rlimit(40)]
#[verifier::spinoff_prover]
proof fn lemma_body_part(item: SpaiNoteItem)
    requires
        stored_exactly(item),
    ensures
        spec_body_part(spec_markdown(item)) == stored_body(item),
{
    reveal_strlit("\n---");
    reveal_strlit("\n");
    reveal_strlit("\r\n");
    reveal_strlit("\n\n");
    reveal_strlit("---\n\n");
    reveal_strlit("# ");
    let md = spec_markdown(item);
    let fl = frontmatter_lines(item);
    lemma_opening_fence(item);
    lemma_closing_fence(item);
    lemma_lined_join(fl);
    let jj = join(fl, "\n"@).len() as int;
    let h = stored_body(item);
    let rest = md.skip(4);
    let after = after_frontmatter(item);
    assert(md.skip(4 + jj + 4) =~= rest.skip(jj + 4));
    assert(rest.skip(jj + 4) =~= after.skip(3));
    assert(after.skip(3) =~= "\n\n"@ + h);
    assert(h[0] == '#');
    assert(is_ws("\n\n"@[0]) && is_ws("\n\n"@[1]));
    lemma_trim_start_after_ws("\n\n"@, h);
    if starts_with(h, "\r\n"@) {
        assert(h.take(2)[0] == h[0]);
    }
    if starts_with(h, "\n"@) {
        assert(h.take(1)[0] == h[0]);
    }
}

/// The header line of a stored note.
pub open spec fn header_line(item: SpaiNoteItem) -> Seq<char> {
    "# "@ + item.id@ + ": "@ + item.title@
}

/// What the reader keeps as the body: the trimmed body and a line break,
/// nothing when the body is blank.
pub open spec fn read_body(body: Seq<char>) -> Seq<char> {
    if trim(body).len() == 0 {
        Seq::empty()
    } else {
        trim(body) + "\n"@
    }
}

/// A trimmed text that is not empty starts and ends with a char that is not
/// white space.
proof fn lemma_trim_ends(s: Seq<char>)
    ensures
        trim(s).len() > 0 ==> !is_ws(trim(s)[0]) && !is_ws(trim(s)[trim(s).len() - 1]),
{
    let t1 = trim_start(s);
    lemma_leading_ws(s);
    lemma_trailing_ws(t1);
    let t = trim(s);
    if t.len() > 0 {
        assert(t[0] == t1[0]);
        assert(t1[0] == s[leading_ws(s)]);
        assert(t[t.len() - 1] == t1[t1.len() - trailing_ws(t1) - 1]);
    }
}

#[verifier::rlimit(40)]
proof fn lemma_header_text(item: SpaiNoteItem)
    requires
        stored_exactly(item),
    ensures
        header_text(header_line(item)) == item.id@ + ": "@ + item.title@,
        trim(header_line(item)) == header_line(item),
        free_of(header_line(item), '\n'),
        !ends_in_cr(header_line(item)),
{
    reveal_strlit("# ");
    reveal_strlit(": ");
    reveal_strlit(" ");
    let id = item.id@;
    let ti = item.title@;
    let hl = header_line(item);
    let x = id + ": "@ + ti;
    assert(hl =~= "#"@ + (" "@ + x)) by {
        reveal_strlit("#");
    }
    assert(hl[0] == '#');
    assert(hl[hl.len() - 1] == ti[ti.len() - 1]);
    assert(x[0] == id[0]);
    assert(x[x.len() - 1] == ti[ti.len() - 1]);
    assert(x.last() == x[x.len() - 1]);
    assert(hl.last() == hl[hl.len() - 1]);
    lemma_trim_start_after_ws(Seq::empty(), hl);
    assert(Seq::<char>::empty() + hl == hl);
    lemma_trim_end_before_ws(hl, Seq::empty());
    assert(hl + Seq::<char>::empty() == hl);
    assert(trim_start_char(hl, '#') == trim_start_char(hl.drop_first(), '#'));
    assert(hl.drop_first() =~= " "@ + x);
    assert(trim_start_char(hl.drop_first(), '#') == hl.drop_first());
    lemma_trim_padded(x);
    lemma_free_concat("# "@, id);
    lemma_free_concat("# "@ + id, ": "@);
    lemma_free_concat("# "@ + id + ": "@, ti);
    assert(is_ws('\r'));
}

#[verifier::rlimit(40)]
proof fn lemma_id_title(item: SpaiNoteItem)
    requires
        stored_exactly(item),
    ensures
        header_id_title(item.id@ + ": "@ + item.title@) == (item.id@, item.title@),
{
    reveal_strlit(": ");
    reveal_strlit(" ");
    let id = item.id@;
    let ti = item.title@;
    let x = id + ": "@ + ti;
    let n = id.len() as int;
    assert(x[n] == ':');
    assert(x.contains(':'));
    let p = choose|i: int| 0 <= i < x.len() && x[i] == ':' && forall|j: int| 0 <= j < i ==> x[j] != ':';
    assert(p == n) by {
        if p < n {
            assert(x[p] == id[p]);
        }
        if p > n {
            assert(x[n] == ':');
        }
    }
    assert(find_char(x, ':') == Some(n));
    assert(x.take(n) =~= id);
    assert(id.last() == id[id.len() - 1]);
    lemma_trim_padded(id);
    assert(x.skip(n + 1) =~= " "@ + ti);
    assert(ti.last() == ti[ti.len() - 1]);
    lemma_trim_padded(ti);
}

#[verifier::rlimit(40)]
proof fn lemma_first_header(item: SpaiNoteItem)
    requires
        stored_exactly(item),
    ensures
        lines(stored_body(item)).len() > 0,
        lines(stored_body(item))[0] == header_line(item),
        first_header(lines(stored_body(item))) == Some(0int),
{
    reveal_strlit("\n\n");
    reveal_strlit("\n");
    reveal_strlit("#");
    reveal_strlit("# ");
    let h = stored_body(item);
    let hl = header_line(item);
    let r = "\n"@ + trim(item.body@) + "\n"@;
    assert(h =~= hl + "\n"@ + r);
    lemma_header_text(item);
    lemma_first_line(hl, r);
    let ls = lines(h);
    assert(starts_with(trim(ls[0]), "#"@)) by {
        assert(hl.take(1) =~= "#"@);
    }
    let c = choose|i: int|
        0 <= i < ls.len() && starts_with(trim(ls[i]), "#"@) && forall|j: int|
            0 <= j < i ==> !starts_with(trim(ls[j]), "#"@);
    assert(c == 0) by {
        if c > 0 {
            assert(!starts_with(trim(ls[0]), "#"@));
        }
    }
}

proof fn lemma_header_found(item: SpaiNoteItem)
    ensures
        find(stored_body(item), header_line(item)) == Some(0int),
{
    let h = stored_body(item);
    let hl = header_line(item);
    assert(h =~= hl + ("\n\n"@ + trim(item.body@) + "\n"@));
    assert(occurs_at(h, hl, 0)) by {
        assert(h.subrange(0, hl.len() as int) =~= hl);
    }
    let pos = choose|i: int| occurs_at(h, hl, i) && forall|j: int| 0 <= j < i ==> !occurs_at(h, hl, j);
    assert(pos == 0) by {
        if pos > 0 {
            assert(!occurs_at(h, hl, 0));
        }
    }
}

proof fn lemma_after_header(item: SpaiNoteItem)
    ensures
        trim_start(stored_body(item).skip(header_line(item).len() as int)) == read_body(item.body@),
{
    reveal_strlit("\n\n");
    reveal_strlit("\n");
    reveal_strlit("\n\n\n");
    let h = stored_body(item);
    let hl = header_line(item);
    let b = trim(item.body@);
    assert(h.skip(hl.len() as int) =~= "\n\n"@ + (b + "\n"@));
    lemma_trim_ends(item.body@);
    if b.len() > 0 {
        assert((b + "\n"@)[0] == b[0]);
        assert(is_ws("\n\n"@[0]) && is_ws("\n\n"@[1]));
        lemma_trim_start_after_ws("\n\n"@, b + "\n"@);
    } else {
        assert("\n\n"@ + (b + "\n"@) =~= "\n\n\n"@);
        assert(is_ws("\n\n\n"@[0]) && is_ws("\n\n\n"@[1]) && is_ws("\n\n\n"@[2]));
        lemma_trim_start_after_ws("\n\n\n"@, Seq::empty());
        assert("\n\n\n"@ + Seq::<char>::empty() == "\n\n\n"@);
    }
}

/// The reader takes the id and title from the header line of a stored body.
#[verifier::rlimit(80)]
#[verifier::spinoff_prover]
proof fn lemma_header(item: SpaiNoteItem)
    requires
        stored_exactly(item),
    ensures
        spec_header(stored_body(item)) == (item.id@, item.title@, header_line(item).len() as int),
{
    lemma_first_header(item);
    lemma_header_text(item);
    lemma_id_title(item);
    lemma_header_found(item);
    let h = stored_body(item);
    let ls = lines(h);
    let hl = header_line(item);
    assert(ls[0] == hl);
    let x = item.id@ + ": "@ + item.title@;
    assert(header_text(ls[0]) == x);
    assert(header_id_title(header_text(ls[0])) == (item.id@, item.title@));
    assert(find(h, ls[0]) == Some(0int));
}

proof fn lemma_not_starts_at(t: Seq<char>, q: Seq<char>, k: int)
    requires
        0 <= k < q.len(),
        k < t.len(),
        t[k] != q[k],
    ensures
        !starts_with(t, q),
{
    if starts_with(t, q) {
        assert(t.take(q.len() as int)[k] == t[k]);
    }
}

proof fn lemma_key_step(l: Seq<char>, i: int)
    requires
        0 <= i < 9,
    ensures
        first_key(l, yaml_keys().skip(i)) == if starts_with(l, yaml_keys()[i]) {
            0
        } else {
            1 + first_key(l, yaml_keys().skip(i + 1))
        },
{
    assert(yaml_keys().skip(i)[0] == yaml_keys()[i]);
    assert(yaml_keys().skip(i).drop_first() == yaml_keys().skip(i + 1));
}

proof fn lemma_key_index_0(x: Seq<char>)
    ensures
        key_index("type:"@ + x) == 0,
{
    reveal_strlit("type:");
    reveal_strlit("status:");
    reveal_strlit("timestamp:");
    reveal_strlit("spai_symbol:");
    reveal_strlit("project:");
    reveal_strlit("project_path:");
    reveal_strlit("priority:");
    reveal_strlit("deadline:");
    reveal_strlit("title:");
    reveal_strlit("type:");
    let l = "type:"@ + x;
    assert(yaml_keys().skip(0) == yaml_keys());
    assert(yaml_keys()[0] == "type:"@);
    assert(l.take(5) =~= "type:"@);
    lemma_key_step(l, 0);
}

proof fn lemma_key_index_1(x: Seq<char>)
    ensures
        key_index("status:"@ + x) == 1,
{
    reveal_strlit("type:");
    reveal_strlit("status:");
    reveal_strlit("timestamp:");
    reveal_strlit("spai_symbol:");
    reveal_strlit("project:");
    reveal_strlit("project_path:");
    reveal_strlit("priority:");
    reveal_strlit("deadline:");
    reveal_strlit("title:");
    reveal_strlit("status:");
    let l = "status:"@ + x;
    assert(yaml_keys().skip(0) == yaml_keys());
    assert(l[0] == 's');
    assert(yaml_keys()[0] == "type:"@);
    lemma_not_starts_at(l, yaml_keys()[0], 0);
    lemma_key_step(l, 0);
    assert(yaml_keys()[1] == "status:"@);
    assert(l.take(7) =~= "status:"@);
    lemma_key_step(l, 1);
}

proof fn lemma_key_index_2(x: Seq<char>)
    ensures
        key_index("timestamp:"@ + x) == 2,
{
    reveal_strlit("type:");
    reveal_strlit("status:");
    reveal_strlit("timestamp:");
    reveal_strlit("spai_symbol:");
    reveal_strlit("project:");
    reveal_strlit("project_path:");
    reveal_strlit("priority:");
    reveal_strlit("deadline:");
    reveal_strlit("title:");
    reveal_strlit("timestamp:");
    let l = "timestamp:"@ + x;
    assert(yaml_keys().skip(0) == yaml_keys());
    assert(l[0] == 't');
    assert(l[1] == 'i');
    assert(yaml_keys()[0] == "type:"@);
    lemma_not_starts_at(l, yaml_keys()[0], 1);
    lemma_key_step(l, 0);
    assert(yaml_keys()[1] == "status:"@);
    lemma_not_starts_at(l, yaml_keys()[1], 0);
    lemma_key_step(l, 1);
    assert(yaml_keys()[2] == "timestamp:"@);
    assert(l.take(10) =~= "timestamp:"@);
    lemma_key_step(l, 2);
}

proof fn lemma_key_index_3(x: Seq<char>)
    ensures
        key_index("spai_symbol:"@ + x) == 3,
{
    reveal_strlit("type:");
    reveal_strlit("status:");
    reveal_strlit("timestamp:");
    reveal_strlit("spai_symbol:");
    reveal_strlit("project:");
    reveal_strlit("project_path:");
    reveal_strlit("priority:");
    reveal_strlit("deadline:");
    reveal_strlit("title:");
    reveal_strlit("spai_symbol:");
    let l = "spai_symbol:"@ + x;
    assert(yaml_keys().skip(0) == yaml_keys());
    assert(l[0] == 's');
    assert(l[1] == 'p');
    assert(yaml_keys()[0] == "type:"@);
    lemma_not_starts_at(l, yaml_keys()[0], 0);
    lemma_key_step(l, 0);
    assert(yaml_keys()[1] == "status:"@);
    lemma_not_starts_at(l, yaml_keys()[1], 1);
    lemma_key_step(l, 1);
    assert(yaml_keys()[2] == "timestamp:"@);
    lemma_not_starts_at(l, yaml_keys()[2], 0);
    lemma_key_step(l, 2);
    assert(yaml_keys()[3] == "spai_symbol:"@);
    assert(l.take(12) =~= "spai_symbol:"@);
    lemma_key_step(l, 3);
}

proof fn lemma_key_index_4(x: Seq<char>)
    ensures
        key_index("project:"@ + x) == 4,
{
    reveal_strlit("type:");
    reveal_strlit("status:");
    reveal_strlit("timestamp:");
    reveal_strlit("spai_symbol:");
    reveal_strlit("project:");
    reveal_strlit("project_path:");
    reveal_strlit("priority:");
    reveal_strlit("deadline:");
    reveal_strlit("title:");
    reveal_strlit("project:");
    let l = "project:"@ + x;
    assert(yaml_keys().skip(0) == yaml_keys());
    assert(l[0] == 'p');
    assert(yaml_keys()[0] == "type:"@);
    lemma_not_starts_at(l, yaml_keys()[0], 0);
    lemma_key_step(l, 0);
    assert(yaml_keys()[1] == "status:"@);
    lemma_not_starts_at(l, yaml_keys()[1], 0);
    lemma_key_step(l, 1);
    assert(yaml_keys()[2] == "timestamp:"@);
    lemma_not_starts_at(l, yaml_keys()[2], 0);
    lemma_key_step(l, 2);
    assert(yaml_keys()[3] == "spai_symbol:"@);
    lemma_not_starts_at(l, yaml_keys()[3], 0);
    lemma_key_step(l, 3);
    assert(yaml_keys()[4] == "project:"@);
    assert(l.take(8) =~= "project:"@);
    lemma_key_step(l, 4);
}

proof fn lemma_key_index_5(x: Seq<char>)
    ensures
        key_index("project_path:"@ + x) == 5,
{
    reveal_strlit("type:");
    reveal_strlit("status:");
    reveal_strlit("timestamp:");
    reveal_strlit("spai_symbol:");
    reveal_strlit("project:");
    reveal_strlit("project_path:");
    reveal_strlit("priority:");
    reveal_strlit("deadline:");
    reveal_strlit("title:");
    reveal_strlit("project_path:");
    let l = "project_path:"@ + x;
    assert(yaml_keys().skip(0) == yaml_keys());
    assert(l[0] == 'p');
    assert(l[7] == '_');
    assert(yaml_keys()[0] == "type:"@);
    lemma_not_starts_at(l, yaml_keys()[0], 0);
    lemma_key_step(l, 0);
    assert(yaml_keys()[1] == "status:"@);
    lemma_not_starts_at(l, yaml_keys()[1], 0);
    lemma_key_step(l, 1);
    assert(yaml_keys()[2] == "timestamp:"@);
    lemma_not_starts_at(l, yaml_keys()[2], 0);
    lemma_key_step(l, 2);
    assert(yaml_keys()[3] == "spai_symbol:"@);
    lemma_not_starts_at(l, yaml_keys()[3], 0);
    lemma_key_step(l, 3);
    assert(yaml_keys()[4] == "project:"@);
    lemma_not_starts_at(l, yaml_keys()[4], 7);
    lemma_key_step(l, 4);
    assert(yaml_keys()[5] == "project_path:"@);
    assert(l.take(13) =~= "project_path:"@);
    lemma_key_step(l, 5);
}

proof fn lemma_key_index_6(x: Seq<char>)
    ensures
        key_index("priority:"@ + x) == 6,
{
    reveal_strlit("type:");
    reveal_strlit("status:");
    reveal_strlit("timestamp:");
    reveal_strlit("spai_symbol:");
    reveal_strlit("project:");
    reveal_strlit("project_path:");
    reveal_strlit("priority:");
    reveal_strlit("deadline:");
    reveal_strlit("title:");
    reveal_strlit("priority:");
    let l = "priority:"@ + x;
    assert(yaml_keys().skip(0) == yaml_keys());
    assert(l[0] == 'p');
    assert(l[2] == 'i');
    assert(yaml_keys()[0] == "type:"@);
    lemma_not_starts_at(l, yaml_keys()[0], 0);
    lemma_key_step(l, 0);
    assert(yaml_keys()[1] == "status:"@);
    lemma_not_starts_at(l, yaml_keys()[1], 0);
    lemma_key_step(l, 1);
    assert(yaml_keys()[2] == "timestamp:"@);
    lemma_not_starts_at(l, yaml_keys()[2], 0);
    lemma_key_step(l, 2);
    assert(yaml_keys()[3] == "spai_symbol:"@);
    lemma_not_starts_at(l, yaml_keys()[3], 0);
    lemma_key_step(l, 3);
    assert(yaml_keys()[4] == "project:"@);
    lemma_not_starts_at(l, yaml_keys()[4], 2);
    lemma_key_step(l, 4);
    assert(yaml_keys()[5] == "project_path:"@);
    lemma_not_starts_at(l, yaml_keys()[5], 2);
    lemma_key_step(l, 5);
    assert(yaml_keys()[6] == "priority:"@);
    assert(l.take(9) =~= "priority:"@);
    lemma_key_step(l, 6);
}

proof fn lemma_key_index_7(x: Seq<char>)
    ensures
        key_index("deadline:"@ + x) == 7,
{
    reveal_strlit("type:");
    reveal_strlit("status:");
    reveal_strlit("timestamp:");
    reveal_strlit("spai_symbol:");
    reveal_strlit("project:");
    reveal_strlit("project_path:");
    reveal_strlit("priority:");
    reveal_strlit("deadline:");
    reveal_strlit("title:");
    reveal_strlit("deadline:");
    let l = "deadline:"@ + x;
    assert(yaml_keys().skip(0) == yaml_keys());
    assert(l[0] == 'd');
    assert(yaml_keys()[0] == "type:"@);
    lemma_not_starts_at(l, yaml_keys()[0], 0);
    lemma_key_step(l, 0);
    assert(yaml_keys()[1] == "status:"@);
    lemma_not_starts_at(l, yaml_keys()[1], 0);
    lemma_key_step(l, 1);
    assert(yaml_keys()[2] == "timestamp:"@);
    lemma_not_starts_at(l, yaml_keys()[2], 0);
    lemma_key_step(l, 2);
    assert(yaml_keys()[3] == "spai_symbol:"@);
    lemma_not_starts_at(l, yaml_keys()[3], 0);
    lemma_key_step(l, 3);
    assert(yaml_keys()[4] == "project:"@);
    lemma_not_starts_at(l, yaml_keys()[4], 0);
    lemma_key_step(l, 4);
    assert(yaml_keys()[5] == "project_path:"@);
    lemma_not_starts_at(l, yaml_keys()[5], 0);
    lemma_key_step(l, 5);
    assert(yaml_keys()[6] == "priority:"@);
    lemma_not_starts_at(l, yaml_keys()[6], 0);
    lemma_key_step(l, 6);
    assert(yaml_keys()[7] == "deadline:"@);
    assert(l.take(9) =~= "deadline:"@);
    lemma_key_step(l, 7);
}

proof fn lemma_key_index_8(x: Seq<char>)
    ensures
        key_index("title:"@ + x) == 8,
{
    reveal_strlit("type:");
    reveal_strlit("status:");
    reveal_strlit("timestamp:");
    reveal_strlit("spai_symbol:");
    reveal_strlit("project:");
    reveal_strlit("project_path:");
    reveal_strlit("priority:");
    reveal_strlit("deadline:");
    reveal_strlit("title:");
    reveal_strlit("title:");
    let l = "title:"@ + x;
    assert(yaml_keys().skip(0) == yaml_keys());
    assert(l[0] == 't');
    assert(l[1] == 'i');
    assert(l[2] == 't');
    assert(yaml_keys()[0] == "type:"@);
    lemma_not_starts_at(l, yaml_keys()[0], 1);
    lemma_key_step(l, 0);
    assert(yaml_keys()[1] == "status:"@);
    lemma_not_starts_at(l, yaml_keys()[1], 0);
    lemma_key_step(l, 1);
    assert(yaml_keys()[2] == "timestamp:"@);
    lemma_not_starts_at(l, yaml_keys()[2], 2);
    lemma_key_step(l, 2);
    assert(yaml_keys()[3] == "spai_symbol:"@);
    lemma_not_starts_at(l, yaml_keys()[3], 0);
    lemma_key_step(l, 3);
    assert(yaml_keys()[4] == "project:"@);
    lemma_not_starts_at(l, yaml_keys()[4], 0);
    lemma_key_step(l, 4);
    assert(yaml_keys()[5] == "project_path:"@);
    lemma_not_starts_at(l, yaml_keys()[5], 0);
    lemma_key_step(l, 5);
    assert(yaml_keys()[6] == "priority:"@);
    lemma_not_starts_at(l, yaml_keys()[6], 0);
    lemma_key_step(l, 6);
    assert(yaml_keys()[7] == "deadline:"@);
    lemma_not_starts_at(l, yaml_keys()[7], 0);
    lemma_key_step(l, 7);
    assert(yaml_keys()[8] == "title:"@);
    assert(l.take(6) =~= "title:"@);
    lemma_key_step(l, 8);
}

proof fn lemma_no_key_source(x: Seq<char>)
    ensures
        key_index("source:"@ + x) == 9,
{
    reveal_strlit("type:");
    reveal_strlit("status:");
    reveal_strlit("timestamp:");
    reveal_strlit("spai_symbol:");
    reveal_strlit("project:");
    reveal_strlit("project_path:");
    reveal_strlit("priority:");
    reveal_strlit("deadline:");
    reveal_strlit("title:");
    reveal_strlit("source:");
    let l = "source:"@ + x;
    assert(yaml_keys().skip(0) == yaml_keys());
    assert(l[0] == 's');
    assert(l[1] == 'o');
    assert(yaml_keys()[0] == "type:"@);
    lemma_not_starts_at(l, yaml_keys()[0], 0);
    lemma_key_step(l, 0);
    assert(yaml_keys()[1] == "status:"@);
    lemma_not_starts_at(l, yaml_keys()[1], 1);
    lemma_key_step(l, 1);
    assert(yaml_keys()[2] == "timestamp:"@);
    lemma_not_starts_at(l, yaml_keys()[2], 0);
    lemma_key_step(l, 2);
    assert(yaml_keys()[3] == "spai_symbol:"@);
    lemma_not_starts_at(l, yaml_keys()[3], 1);
    lemma_key_step(l, 3);
    assert(yaml_keys()[4] == "project:"@);
    lemma_not_starts_at(l, yaml_keys()[4], 0);
    lemma_key_step(l, 4);
    assert(yaml_keys()[5] == "project_path:"@);
    lemma_not_starts_at(l, yaml_keys()[5], 0);
    lemma_key_step(l, 5);
    assert(yaml_keys()[6] == "priority:"@);
    lemma_not_starts_at(l, yaml_keys()[6], 0);
    lemma_key_step(l, 6);
    assert(yaml_keys()[7] == "deadline:"@);
    lemma_not_starts_at(l, yaml_keys()[7], 0);
    lemma_key_step(l, 7);
    assert(yaml_keys()[8] == "title:"@);
    lemma_not_starts_at(l, yaml_keys()[8], 0);
    lemma_key_step(l, 8);
    assert(yaml_keys().skip(9).len() == 0);
}

proof fn lemma_no_key_tags(x: Seq<char>)
    ensures
        key_index("tags: ["@ + x) == 9,
{
    reveal_strlit("type:");
    reveal_strlit("status:");
    reveal_strlit("timestamp:");
    reveal_strlit("spai_symbol:");
    reveal_strlit("project:");
    reveal_strlit("project_path:");
    reveal_strlit("priority:");
    reveal_strlit("deadline:");
    reveal_strlit("title:");
    reveal_strlit("tags: [");
    let l = "tags: ["@ + x;
    assert(yaml_keys().skip(0) == yaml_keys());
    assert(l[0] == 't');
    assert(l[1] == 'a');
    assert(yaml_keys()[0] == "type:"@);
    lemma_not_starts_at(l, yaml_keys()[0], 1);
    lemma_key_step(l, 0);
    assert(yaml_keys()[1] == "status:"@);
    lemma_not_starts_at(l, yaml_keys()[1], 0);
    lemma_key_step(l, 1);
    assert(yaml_keys()[2] == "timestamp:"@);
    lemma_not_starts_at(l, yaml_keys()[2], 1);
    lemma_key_step(l, 2);
    assert(yaml_keys()[3] == "spai_symbol:"@);
    lemma_not_starts_at(l, yaml_keys()[3], 0);
    lemma_key_step(l, 3);
    assert(yaml_keys()[4] == "project:"@);
    lemma_not_starts_at(l, yaml_keys()[4], 0);
    lemma_key_step(l, 4);
    assert(yaml_keys()[5] == "project_path:"@);
    lemma_not_starts_at(l, yaml_keys()[5], 0);
    lemma_key_step(l, 5);
    assert(yaml_keys()[6] == "priority:"@);
    lemma_not_starts_at(l, yaml_keys()[6], 0);
    lemma_key_step(l, 6);
    assert(yaml_keys()[7] == "deadline:"@);
    lemma_not_starts_at(l, yaml_keys()[7], 0);
    lemma_key_step(l, 7);
    assert(yaml_keys()[8] == "title:"@);
    lemma_not_starts_at(l, yaml_keys()[8], 1);
    lemma_key_step(l, 8);
    assert(yaml_keys().skip(9).len() == 0);
}

proof fn lemma_no_key_facets(x: Seq<char>)
    ensures
        key_index("facets:"@ + x) == 9,
{
    reveal_strlit("type:");
    reveal_strlit("status:");
    reveal_strlit("timestamp:");
    reveal_strlit("spai_symbol:");
    reveal_strlit("project:");
    reveal_strlit("project_path:");
    reveal_strlit("priority:");
    reveal_strlit("deadline:");
    reveal_strlit("title:");
    reveal_strlit("facets:");
    let l = "facets:"@ + x;
    assert(yaml_keys().skip(0) == yaml_keys());
    assert(l[0] == 'f');
    assert(yaml_keys()[0] == "type:"@);
    lemma_not_starts_at(l, yaml_keys()[0], 0);
    lemma_key_step(l, 0);
    assert(yaml_keys()[1] == "status:"@);
    lemma_not_starts_at(l, yaml_keys()[1], 0);
    lemma_key_step(l, 1);
    assert(yaml_keys()[2] == "timestamp:"@);
    lemma_not_starts_at(l, yaml_keys()[2], 0);
    lemma_key_step(l, 2);
    assert(yaml_keys()[3] == "spai_symbol:"@);
    lemma_not_starts_at(l, yaml_keys()[3], 0);
    lemma_key_step(l, 3);
    assert(yaml_keys()[4] == "project:"@);
    lemma_not_starts_at(l, yaml_keys()[4], 0);
    lemma_key_step(l, 4);
    assert(yaml_keys()[5] == "project_path:"@);
    lemma_not_starts_at(l, yaml_keys()[5], 0);
    lemma_key_step(l, 5);
    assert(yaml_keys()[6] == "priority:"@);
    lemma_not_starts_at(l, yaml_keys()[6], 0);
    lemma_key_step(l, 6);
    assert(yaml_keys()[7] == "deadline:"@);
    lemma_not_starts_at(l, yaml_keys()[7], 0);
    lemma_key_step(l, 7);
    assert(yaml_keys()[8] == "title:"@);
    lemma_not_starts_at(l, yaml_keys()[8], 0);
    lemma_key_step(l, 8);
    assert(yaml_keys().skip(9).len() == 0);
}

/// The key a frontmatter line carries (9 for none).
pub open spec fn key_of(l: Seq<char>) -> int {
    key_index(trim(l))
}

proof fn lemma_kv(pre: Seq<char>, key: Seq<char>, m: int, v: Seq<char>)
    requires
        forall|i: int| 0 <= i < pre.len() ==> is_ws(#[trigger] pre[i]),
        key.len() > 0,
        !is_ws(key[0]),
        !is_ws(key[key.len() - 1]),
        forall|x: Seq<char>| #[trigger] key_index(key + x) == m,
        plain_field(v),
    ensures
        key_of(pre + key + " "@ + v) == m,
        trim(trim(pre + key + " "@ + v).skip(key.len() as int)) == v,
{
    reveal_strlit(" ");
    let xx = key + (" "@ + v);
    assert(pre + key + " "@ + v =~= pre + xx);
    assert(xx[0] == key[0]);
    lemma_trim_start_after_ws(pre, xx);
    assert(key_index(key + (" "@ + v)) == m);
    if v.len() > 0 {
        assert(xx.last() == v[v.len() - 1]);
        lemma_trim_end_before_ws(xx, Seq::empty());
        assert(xx + Seq::<char>::empty() == xx);
        assert(xx.skip(key.len() as int) =~= " "@ + v);
        assert(v.last() == v[v.len() - 1]);
        lemma_trim_padded(v);
    } else {
        assert(xx =~= key + " "@);
        assert(key.last() == key[key.len() - 1]);
        assert(is_ws(" "@[0]));
        lemma_trim_end_before_ws(key, " "@);
        assert(key_index(key + Seq::<char>::empty()) == m);
        assert(key + Seq::<char>::empty() == key);
        assert(key.skip(key.len() as int) =~= Seq::<char>::empty());
        assert(trim(Seq::<char>::empty()) == Seq::<char>::empty());
    }
}

proof fn lemma_last_value_append(a: Seq<Seq<char>>, b: Seq<Seq<char>>, k: int)
    ensures
        last_value(a + b, k) == match last_value(b, k) {
            Some(v) => Some(v),
            None => last_value(a, k),
        },
    decreases b.len(),
{
    if b.len() == 0 {
        assert(a + b == a);
    } else {
        lemma_last_value_append(a, b.drop_last(), k);
        assert((a + b).drop_last() == a + b.drop_last());
        assert((a + b).last() == b.last());
    }
}

/// One line read for a key: its value when it carries that key, nothing
/// otherwise.
proof fn lemma_lv_single(l: Seq<char>, m: int, v: Seq<char>, k: int)
    requires
        key_of(l) == m,
        0 <= m <= 9,
        m < 9 ==> trim(trim(l).skip(yaml_keys()[m].len() as int)) == v,
        0 <= k < 9,
    ensures
        k != m ==> last_value(seq![l], k) is None,
        k == m ==> opt_trim(last_value(seq![l], k)) == Some(v),
{
    assert(seq![l].drop_last() == Seq::<Seq<char>>::empty());
    assert(seq![l].last() == l);
    assert(last_value(Seq::<Seq<char>>::empty(), k) is None);
}

/// What the head lines give for keys below the title's.
pub open spec fn head_expect(item: SpaiNoteItem, k: int) -> Option<Seq<char>> {
    if k == 0 {
        Some(item.kind.name())
    } else if k == 1 {
        Some(item.status.name())
    } else if k == 2 {
        Some(item.timestamp@)
    } else {
        None
    }
}

/// What the facets block gives for keys below the title's.
pub open spec fn facets_expect(f: SpaiFacets, k: int) -> Option<Seq<char>> {
    if k == 4 {
        opt_view(f.project)
    } else if k == 5 {
        opt_view(f.project_path)
    } else if k == 6 {
        opt_view(f.priority)
    } else if k == 7 {
        opt_view(f.deadline)
    } else {
        None
    }
}

#[verifier::rlimit(40)]
#[verifier::spinoff_prover]
proof fn lemma_head_values(item: SpaiNoteItem, k: int)
    requires
        stored_exactly(item),
        0 <= k < 8,
    ensures
        opt_trim(last_value(head_lines(item), k)) == head_expect(item, k),
{
    reveal_strlit(" ");
    reveal_strlit("type: ");
    reveal_strlit("type:");
    reveal_strlit("title: \"");
    reveal_strlit("title:");
    reveal_strlit("\"");
    reveal_strlit("timestamp: ");
    reveal_strlit("timestamp:");
    reveal_strlit("status: ");
    reveal_strlit("status:");
    reveal_strlit("source: pi-spai");
    reveal_strlit("source:");
    reveal_strlit(" pi-spai");
    reveal_strlit("Todo");
    reveal_strlit("Idea");
    reveal_strlit("Note");
    reveal_strlit("todo");
    reveal_strlit("working");
    reveal_strlit("waiting");
    reveal_strlit("done");
    reveal_strlit("cancelled");
    reveal_strlit("idea");
    reveal_strlit("note");
    reveal_strlit("inbox");
    let e = Seq::<char>::empty();
    let kn = item.kind.name();
    let sn = item.status.name();
    assert(plain_field(kn));
    assert(plain_field(sn));
    let l0 = "type: "@ + kn;
    let tv = "\""@ + escape_quotes(item.title@) + "\""@;
    let l1 = "title: \""@ + escape_quotes(item.title@) + "\""@;
    let l2 = "timestamp: "@ + item.timestamp@;
    let l3 = "status: "@ + sn;
    let l4 = "source: pi-spai"@;
    assert forall|x: Seq<char>| #[trigger] key_index("type:"@ + x) == 0 by {
        lemma_key_index_0(x);
    }
    assert forall|x: Seq<char>| #[trigger] key_index("status:"@ + x) == 1 by {
        lemma_key_index_1(x);
    }
    assert forall|x: Seq<char>| #[trigger] key_index("timestamp:"@ + x) == 2 by {
        lemma_key_index_2(x);
    }
    assert forall|x: Seq<char>| #[trigger] key_index("title:"@ + x) == 8 by {
        lemma_key_index_8(x);
    }
    assert(l0 =~= e + "type:"@ + " "@ + kn);
    lemma_kv(e, "type:"@, 0, kn);
    lemma_escape_free(item.title@);
    lemma_free_concat("\""@, escape_quotes(item.title@));
    lemma_free_concat("\""@ + escape_quotes(item.title@), "\""@);
    assert(tv[0] == '"');
    assert(tv[tv.len() - 1] == '"');
    assert(plain_field(tv));
    assert(l1 =~= e + "title:"@ + " "@ + tv);
    lemma_kv(e, "title:"@, 8, tv);
    assert(l2 =~= e + "timestamp:"@ + " "@ + item.timestamp@);
    lemma_kv(e, "timestamp:"@, 2, item.timestamp@);
    assert(l3 =~= e + "status:"@ + " "@ + sn);
    lemma_kv(e, "status:"@, 1, sn);
    assert(l4 =~= "source:"@ + " pi-spai"@);
    lemma_no_key_source(" pi-spai"@);
    assert(l4.last() == l4[l4.len() - 1]);
    lemma_trim_padded(l4);
    assert(key_of(l4) == 9);
    lemma_lv_single(l0, 0, kn, k);
    lemma_lv_single(l1, 8, tv, k);
    lemma_lv_single(l2, 2, item.timestamp@, k);
    lemma_lv_single(l3, 1, sn, k);
    lemma_lv_single(l4, 9, e, k);
    let s1 = seq![l0];
    let s2 = s1 + seq![l1];
    let s3 = s2 + seq![l2];
    let s4 = s3 + seq![l3];
    let s5 = s4 + seq![l4];
    assert(head_lines(item) =~= s5);
    lemma_last_value_append(s1, seq![l1], k);
    lemma_last_value_append(s2, seq![l2], k);
    lemma_last_value_append(s3, seq![l3], k);
    lemma_last_value_append(s4, seq![l4], k);
}

proof fn lemma_facet_value(key: Seq<char>, keyc: Seq<char>, m: int, v: Option<String>, k: int)
    requires
        keyc == key + ":"@,
        yaml_keys()[m] == keyc,
        key.len() > 0,
        !is_ws(key[0]),
        forall|x: Seq<char>| #[trigger] key_index(keyc + x) == m,
        0 <= m < 8,
        0 <= k < 8,
        plain_facet(v),
    ensures
        k != m ==> last_value(facet_lines_of(key, v), k) is None,
        k == m ==> opt_trim(last_value(facet_lines_of(key, v), k)) == opt_view(v),
{
    reveal_strlit("  ");
    reveal_strlit(": ");
    reveal_strlit(":");
    reveal_strlit(" ");
    if let Some(x) = v {
        let l = "  "@ + key + ": "@ + x@;
        assert(l =~= "  "@ + keyc + " "@ + x@);
        assert(keyc[0] == key[0]);
        assert(keyc[keyc.len() - 1] == ':');
        assert(is_ws("  "@[0]) && is_ws("  "@[1]));
        lemma_kv("  "@, keyc, m, x@);
        lemma_lv_single(l, m, x@, k);
    } else {
        assert(last_value(Seq::<Seq<char>>::empty(), k) is None);
    }
}

#[verifier::rlimit(40)]
#[verifier::spinoff_prover]
proof fn lemma_facets_values(f: SpaiFacets, k: int)
    requires
        plain_facet(f.priority) && plain_facet(f.deadline) && plain_facet(f.project)
            && plain_facet(f.project_path),
        0 <= k < 8,
    ensures
        opt_trim(last_value(facets_block(f), k)) == facets_expect(f, k),
{
    reveal_strlit("priority");
    reveal_strlit("deadline");
    reveal_strlit("project");
    reveal_strlit("project_path");
    reveal_strlit("priority:");
    reveal_strlit("deadline:");
    reveal_strlit("project:");
    reveal_strlit("project_path:");
    reveal_strlit(":");
    reveal_strlit("facets:");
    reveal_strlit("facets");
    if f.priority is Some || f.deadline is Some || f.project is Some || f.project_path is Some {
        assert forall|x: Seq<char>| #[trigger] key_index("priority:"@ + x) == 6 by {
            lemma_key_index_6(x);
        }
        assert forall|x: Seq<char>| #[trigger] key_index("deadline:"@ + x) == 7 by {
            lemma_key_index_7(x);
        }
        assert forall|x: Seq<char>| #[trigger] key_index("project:"@ + x) == 4 by {
            lemma_key_index_4(x);
        }
        assert forall|x: Seq<char>| #[trigger] key_index("project_path:"@ + x) == 5 by {
            lemma_key_index_5(x);
        }
        assert("priority:"@ == "priority"@ + ":"@);
        assert("deadline:"@ == "deadline"@ + ":"@);
        assert("project:"@ == "project"@ + ":"@);
        assert("project_path:"@ == "project_path"@ + ":"@);
        assert(yaml_keys()[4] == "project:"@);
        assert(yaml_keys()[5] == "project_path:"@);
        assert(yaml_keys()[6] == "priority:"@);
        assert(yaml_keys()[7] == "deadline:"@);
        let a0 = seq!["facets:"@];
        let a1 = facet_lines_of("priority"@, f.priority);
        let a2 = facet_lines_of("deadline"@, f.deadline);
        let a3 = facet_lines_of("project"@, f.project);
        let a4 = facet_lines_of("project_path"@, f.project_path);
        lemma_facet_value("priority"@, "priority:"@, 6, f.priority, k);
        lemma_facet_value("deadline"@, "deadline:"@, 7, f.deadline, k);
        lemma_facet_value("project"@, "project:"@, 4, f.project, k);
        lemma_facet_value("project_path"@, "project_path:"@, 5, f.project_path, k);
        assert("facets:"@ =~= "facets:"@ + Seq::<char>::empty());
        lemma_no_key_facets(Seq::empty());
        assert("facets:"@.last() == ':');
        lemma_trim_padded("facets:"@);
        lemma_lv_single("facets:"@, 9, Seq::empty(), k);
        lemma_last_value_append(a0, a1, k);
        lemma_last_value_append(a0 + a1, a2, k);
        lemma_last_value_append(a0 + a1 + a2, a3, k);
        lemma_last_value_append(a0 + a1 + a2 + a3, a4, k);
    } else {
        assert(last_value(Seq::<Seq<char>>::empty(), k) is None);
    }
}

proof fn lemma_tags_values(item: SpaiNoteItem, k: int)
    requires
        0 <= k < 8,
    ensures
        last_value(tags_block(item), k) is None,
{
    reveal_strlit("tags: [");
    reveal_strlit("]");
    if item.tags@.len() > 0 {
        let j = join(string_views(item.tags@), ", "@);
        let l = "tags: ["@ + j + "]"@;
        assert(l =~= "tags: ["@ + (j + "]"@));
        lemma_no_key_tags(j + "]"@);
        assert(l[0] == 't');
        assert(l.last() == ']');
        lemma_trim_padded(l);
        lemma_lv_single(l, 9, Seq::empty(), k);
    } else {
        assert(last_value(Seq::<Seq<char>>::empty(), k) is None);
    }
}

/// The symbol as the frontmatter writes it, in single quotes.
pub open spec fn quoted_symbol(item: SpaiNoteItem) -> Seq<char> {
    "'"@ + item.symbol@ + "'"@
}

proof fn lemma_symbol_value(item: SpaiNoteItem, k: int)
    requires
        stored_exactly(item),
        0 <= k < 8,
    ensures
        k != 3 ==> last_value(seq![symbol_line(item)], k) is None,
        k == 3 ==> opt_trim(last_value(seq![symbol_line(item)], k)) == Some(quoted_symbol(item)),
{
    reveal_strlit("spai_symbol: '");
    reveal_strlit("spai_symbol:");
    reveal_strlit("'");
    reveal_strlit(" ");
    let q = quoted_symbol(item);
    let e = Seq::<char>::empty();
    assert(symbol_line(item) =~= e + "spai_symbol:"@ + " "@ + q);
    lemma_free_concat("'"@, item.symbol@);
    lemma_free_concat("'"@ + item.symbol@, "'"@);
    assert(q[0] == '\'');
    assert(q[q.len() - 1] == '\'');
    assert forall|x: Seq<char>| #[trigger] key_index("spai_symbol:"@ + x) == 3 by {
        lemma_key_index_3(x);
    }
    lemma_kv(e, "spai_symbol:"@, 3, q);
    lemma_lv_single(symbol_line(item), 3, q, k);
}

/// What the whole frontmatter gives for keys below the title's.
pub open spec fn frontmatter_expect(item: SpaiNoteItem, k: int) -> Option<Seq<char>> {
    if k == 3 {
        Some(quoted_symbol(item))
    } else if 4 <= k < 8 {
        facets_expect(item.facets, k)
    } else {
        head_expect(item, k)
    }
}

#[verifier::rlimit(40)]
proof fn lemma_frontmatter_values(item: SpaiNoteItem, k: int)
    requires
        stored_exactly(item),
        0 <= k < 8,
    ensures
        opt_trim(last_value(frontmatter_lines(item), k)) == frontmatter_expect(item, k),
{
    let hb = head_lines(item);
    let tb = tags_block(item);
    let fb = facets_block(item.facets);
    let sb = seq![symbol_line(item)];
    lemma_head_values(item, k);
    lemma_tags_values(item, k);
    lemma_facets_values(item.facets, k);
    lemma_symbol_value(item, k);
    lemma_last_value_append(hb, tb, k);
    lemma_last_value_append(hb + tb, fb, k);
    lemma_last_value_append(hb + tb + fb, sb, k);
}

proof fn lemma_title_fold_keeps(t0: Seq<char>, ys: Seq<Seq<char>>)
    requires
        t0.len() > 0,
    ensures
        title_fold(t0, ys) == t0,
    decreases ys.len(),
{
    if ys.len() > 0 {
        lemma_title_fold_keeps(t0, ys.drop_last());
    }
}

proof fn lemma_unwrapped(t: Seq<char>, c: char)
    requires
        not_wrapped_in(t, c),
    ensures
        trim_char(t, c) == t,
{
    if t.len() > 0 {
        assert(trim_start_char(t, c) == t);
        assert(t.last() == t[t.len() - 1]);
    } else {
        assert(trim_start_char(t, c) == t);
    }
}

proof fn lemma_kind_read(k: SpaiType, v: Seq<char>)
    requires
        trim(v) == k.name(),
    ensures
        SpaiType::parse(v) == k,
{
    reveal_strlit("Todo");
    reveal_strlit("Idea");
    reveal_strlit("Note");
    reveal_strlit("todo");
    reveal_strlit("idea");
    reveal_strlit("note");
    let n = k.name();
    assert(is_ascii_text(n));
    match k {
        SpaiType::Todo => {
            assert(lower_seq(n) =~= "todo"@);
            assert("todo"@ != "idea"@) by {
                assert("todo"@[0] != "idea"@[0]);
            }
            assert("todo"@ != "note"@) by {
                assert("todo"@[0] != "note"@[0]);
            }
        },
        SpaiType::Idea => {
            assert(lower_seq(n) =~= "idea"@);
        },
        SpaiType::Note => {
            assert(lower_seq(n) =~= "note"@);
            assert("note"@ != "idea"@) by {
                assert("note"@[0] != "idea"@[0]);
            }
        },
    }
}

proof fn lemma_status_read(x: SpaiStatus, v: Seq<char>)
    requires
        trim(v) == x.name(),
    ensures
        SpaiStatus::parse(v) == x,
{
    reveal_strlit("todo");
    reveal_strlit("working");
    reveal_strlit("waiting");
    reveal_strlit("done");
    reveal_strlit("cancelled");
    reveal_strlit("idea");
    reveal_strlit("note");
    reveal_strlit("inbox");
    let n = x.name();
    crate::spai_notes::note::lemma_status_names_read_back(x);
    assert(n.last() == n[n.len() - 1]);
    lemma_trim_padded(n);
}

proof fn lemma_symbol_read(sym: Seq<char>)
    requires
        sym.len() > 0,
        not_wrapped_in(sym, '\''),
        not_wrapped_in(sym, '"'),
    ensures
        trim_char(trim_char("'"@ + sym + "'"@, '\''), '"') == sym,
{
    reveal_strlit("'");
    let q = "'"@ + sym + "'"@;
    assert(q.drop_first() =~= sym + "'"@);
    assert(trim_start_char(q, '\'') == trim_start_char(q.drop_first(), '\''));
    assert((sym + "'"@)[0] == sym[0]);
    assert(trim_start_char(sym + "'"@, '\'') == sym + "'"@);
    assert((sym + "'"@).drop_last() =~= sym);
    assert(sym.last() == sym[sym.len() - 1]);
    assert(trim_end_char(sym + "'"@, '\'') == trim_end_char(sym, '\''));
    assert(trim_end_char(sym, '\'') == sym);
    lemma_unwrapped(sym, '"');
}

/// Reading back the markdown a note is stored as gives the note again: its
/// id, title, kind, status, symbol, timestamp and facets, no tags, and the
/// trimmed body with a final line break (nothing for a blank body), for
/// notes whose fields the markdown holds exactly.
#[verifier::rlimit(40)]
#[verifier::spinoff_prover]
pub proof fn lemma_markdown_round_trip(item: SpaiNoteItem, r: SpaiNoteItem, file_name: Seq<char>)
    requires
        stored_exactly(item),
        parsed_note(r, spec_markdown(item), file_name),
    ensures
        r.id@ == item.id@,
        r.title@ == item.title@,
        r.kind == item.kind,
        r.status == item.status,
        r.symbol@ == item.symbol@,
        r.timestamp@ == item.timestamp@,
        r.tags@.len() == 0,
        opt_view(r.facets.project) == opt_view(item.facets.project),
        opt_view(r.facets.project_path) == opt_view(item.facets.project_path),
        opt_view(r.facets.priority) == opt_view(item.facets.priority),
        opt_view(r.facets.deadline) == opt_view(item.facets.deadline),
        r.body@ == read_body(item.body@),
{
    let md = spec_markdown(item);
    let ys = frontmatter_lines(item);
    lemma_yaml_part(item);
    lemma_body_part(item);
    lemma_header(item);
    lemma_after_header(item);
    lemma_title_fold_keeps(item.title@, ys);
    lemma_frontmatter_values(item, 0);
    lemma_frontmatter_values(item, 1);
    lemma_frontmatter_values(item, 2);
    lemma_frontmatter_values(item, 3);
    lemma_frontmatter_values(item, 4);
    lemma_frontmatter_values(item, 5);
    lemma_frontmatter_values(item, 6);
    lemma_frontmatter_values(item, 7);
    let v0 = last_value(ys, 0)->0;
    lemma_kind_read(item.kind, v0);
    let v1 = last_value(ys, 1)->0;
    lemma_status_read(item.status, v1);
    lemma_unwrapped(item.timestamp@, '"');
    lemma_symbol_read(item.symbol@);
    assert(header_line(item).len() > 0) by {
        reveal_strlit("# ");
    }
}

} // verus!

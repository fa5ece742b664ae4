//! Per-line reading of pi session JSONL records: skill paths, slash
//! commands, and the running counters of a scan.
use crate::shortcuts::usage::model::{plugin_of, spec_plugin_of};
use crate::text::{
    chars_eq, chars_of, find_char, find_char_exec, find_from, is_ascii_alnum, is_ascii_alphanumeric,
    is_white_space, is_ws, occurs_at, occurs_at_exec, rfind, rfind_chars, slice_chars, starts_with,
    starts_with_chars, string_of, to_string, trim, trim_chars,
};
use vstd::prelude::*;

verus! {

/// `s` names a skill path's folder: the text between the last `/skills/`
/// before the `/SKILL.md` at `at` and that marker, up to its first `/`,
/// trimmed, non-empty and free of `<`, `>`, `"` and `\`.
pub open spec fn skill_candidate(s: Seq<char>, at: int) -> Option<Seq<char>> {
    match rfind(s.take(at), "/skills/"@) {
        Some(sk) => {
            let seg = s.subrange(sk + 8, at);
            let piece = match find_char(seg, '/') {
                Some(i) => seg.take(i),
                None => seg,
            };
            let name = trim(piece);
            if name.len() > 0 && !name.contains('<') && !name.contains('>') && !name.contains('"')
                && !name.contains('\\') {
                Some(name)
            } else {
                None
            }
        },
        None => None,
    }
}

/// The first skill named by a `/SKILL.md` marker at or after `i`.
pub open spec fn skill_scan(s: Seq<char>, i: int) -> Option<Seq<char>>
    decreases s.len() - i,
{
    if i < 0 || i + 9 > s.len() {
        None
    } else if occurs_at(s, "/SKILL.md"@, i) {
        match skill_candidate(s, i) {
            Some(n) => Some(n),
            None => skill_scan(s, i + 9),
        }
    } else {
        skill_scan(s, i + 1)
    }
}

/// The skill of the first `.../skills/<name>/SKILL.md` path in a raw line.
pub open spec fn spec_skill_from_raw_line(s: Seq<char>) -> Option<Seq<char>> {
    skill_scan(s, 0)
}

proof fn lemma_skip_to(s: Seq<char>, from: int, at: int)
    requires
        0 <= from <= at,
        forall|j: int| from <= j < at ==> !occurs_at(s, "/SKILL.md"@, j),
        at + 9 <= s.len(),
    ensures
        skill_scan(s, from) == skill_scan(s, at),
    decreases at - from,
{
    if from < at {
        lemma_skip_to(s, from + 1, at);
    }
}

proof fn lemma_none_after(s: Seq<char>, from: int)
    requires
        0 <= from,
        forall|j: int| from <= j ==> !occurs_at(s, "/SKILL.md"@, j),
    ensures
        skill_scan(s, from) is None,
    decreases s.len() - from,
{
    if from + 9 <= s.len() {
        lemma_none_after(s, from + 1);
    }
}

fn skill_at(v: &[char], at: usize) -> (r: Option<String>)
    requires
        at <= v@.len(),
    ensures
        match (r, skill_candidate(v@, at as int)) {
            (Some(a), Some(b)) => a@ == b,
            (None, None) => true,
            _ => false,
        },
{
    let head = slice_chars(v, 0, at);
    assert(head@ == v@.take(at as int));
    match rfind_chars(head.as_slice(), chars_of("/skills/").as_slice()) {
        Some(sk) => {
            proof {
                assert("/skills/"@.len() == 8) by {
                    reveal_strlit("/skills/");
                }
            }
            let seg = slice_chars(v, sk + 8, at);
            let piece = match find_char_exec(seg.as_slice(), '/') {
                Some(i) => slice_chars(seg.as_slice(), 0, i),
                None => seg,
            };
            let name = trim_chars(piece.as_slice());
            let mut ok = name.len() > 0;
            let mut k: usize = 0;
            while k < name.len()
                invariant
                    0 <= k <= name@.len(),
                    ok == (name@.len() > 0 && forall|j: int|
                        0 <= j < k ==> name@[j] != '<' && name@[j] != '>' && name@[j] != '"'
                            && name@[j] != '\\'),
                decreases name.len() - k,
            {
                let c = name[k];
                if c == '<' || c == '>' || c == '"' || c == '\\' {
                    ok = false;
                }
                k = k + 1;
            }
            proof {
                let n = name@;
                if !(n.contains('<') || n.contains('>') || n.contains('"') || n.contains('\\')) {
                } else {
                    if n.contains('<') {
                        let j = choose|j: int| 0 <= j < n.len() && n[j] == '<';
                        assert(n[j] == '<');
                    } else if n.contains('>') {
                        let j = choose|j: int| 0 <= j < n.len() && n[j] == '>';
                        assert(n[j] == '>');
                    } else if n.contains('"') {
                        let j = choose|j: int| 0 <= j < n.len() && n[j] == '"';
                        assert(n[j] == '"');
                    } else {
                        let j = choose|j: int| 0 <= j < n.len() && n[j] == '\\';
                        assert(n[j] == '\\');
                    }
                }
                if ok {
                    assert forall|j: int| 0 <= j < n.len() implies n[j] != '<' && n[j] != '>'
                        && n[j] != '"' && n[j] != '\\' by {}
                    assert(!n.contains('<'));
                    assert(!n.contains('>'));
                    assert(!n.contains('"'));
                    assert(!n.contains('\\'));
                }
            }
            if ok {
                Some(string_of(name.as_slice()))
            } else {
                None
            }
        },
        None => None,
    }
}

/// Extracts the skill name from the first `.../skills/<name>/SKILL.md` path
/// appearing in a raw line.
pub fn skill_from_raw_line(line: &str) -> (r: Option<String>)
    ensures
        match (r, spec_skill_from_raw_line(line@)) {
            (Some(a), Some(b)) => a@ == b,
            (None, None) => true,
            _ => false,
        },
{
    let v = chars_of(line);
    let marker = chars_of("/SKILL.md");
    proof {
        assert("/SKILL.md"@.len() == 9) by {
            reveal_strlit("/SKILL.md");
        }
    }
    let mut search: usize = 0;
    let vlen = v.len();
    loop
        invariant
            v@ == line@,
            vlen == v@.len(),
            marker@ == "/SKILL.md"@,
            marker@.len() == 9,
            search <= v@.len() + 9,
            skill_scan(v@, 0) == skill_scan(v@, search as int),
        decreases v@.len() + 9 - search,
    {
        match find_from(v.as_slice(), marker.as_slice(), search) {
            None => {
                proof {
                    lemma_none_after(v@, search as int);
                }
                return None;
            },
            Some(at) => {
                proof {
                    lemma_skip_to(v@, search as int, at as int);
                }
                match skill_at(v.as_slice(), at) {
                    Some(n) => {
                        return Some(n);
                    },
                    None => {},
                }
                assert(occurs_at(v@, marker@, at as int));
                search = at + 9;
            },
        }
    }
}

/// The first word of a text (after leading white space), up to white space.
pub open spec fn first_token(t: Seq<char>) -> Seq<char> {
    let s = trim(t);
    if exists|i: int| 0 <= i < s.len() && is_ws(s[i]) {
        s.take(choose|i: int| 0 <= i < s.len() && is_ws(s[i]) && forall|j: int| 0 <= j < i ==> !is_ws(s[j]))
    } else {
        s
    }
}

/// A slash command typed by the user: `/` and 1 to 39 ASCII letters,
/// digits, `_`, `-` or `:`.
pub open spec fn spec_command(t: Seq<char>) -> Option<Seq<char>> {
    let tok = first_token(t);
    if tok.len() >= 2 && tok.len() <= 40 && tok[0] == '/' && forall|i: int|
        1 <= i < tok.len() ==> is_ascii_alnum(tok[i]) || tok[i] == '_' || tok[i] == '-' || tok[i]
            == ':' {
        Some(tok)
    } else {
        None
    }
}

/// Recognises a slash command typed by the user (`/goal`, `/skill:foo`, ...).
pub fn command_from_text(text: &str) -> (r: Option<String>)
    ensures
        match (r, spec_command(text@)) {
            (Some(a), Some(b)) => a@ == b,
            (None, None) => true,
            _ => false,
        },
{
    let v = chars_of(text);
    let s = trim_chars(v.as_slice());
    let mut i: usize = 0;
    while i < s.len() && !is_white_space(s[i])
        invariant
            0 <= i <= s@.len(),
            forall|j: int| 0 <= j < i ==> !is_ws(s@[j]),
        decreases s.len() - i,
    {
        i = i + 1;
    }
    let tok = slice_chars(s.as_slice(), 0, i);
    proof {
        if i < s.len() {
            let c = choose|c: int|
                0 <= c < s@.len() && is_ws(s@[c]) && forall|j: int| 0 <= j < c ==> !is_ws(s@[j]);
            assert(c == i) by {
                if c < i {
                } else if c > i {
                }
            }
        }
        assert(tok@ == first_token(text@));
    }
    if tok.len() < 2 || tok.len() > 40 || tok[0] != '/' {
        return None;
    }
    let mut k: usize = 1;
    while k < tok.len()
        invariant
            1 <= k <= tok@.len(),
            tok@ == first_token(text@),
            forall|j: int|
                1 <= j < k ==> is_ascii_alnum(tok@[j]) || tok@[j] == '_' || tok@[j] == '-' || tok@[j]
                    == ':',
        decreases tok.len() - k,
    {
        let c = tok[k];
        if !(is_ascii_alphanumeric(c) || c == '_' || c == '-' || c == ':') {
            assert(!(is_ascii_alnum(tok@[k as int]) || tok@[k as int] == '_' || tok@[k as int] == '-'
                || tok@[k as int] == ':'));
            assert(spec_command(text@) is None);
            return None;
        }
        k = k + 1;
    }
    Some(string_of(tok.as_slice()))
}

/// The skill a `/skill:<name>` command runs: the text after the prefix up
/// to the first `:` or space, when not empty.
pub open spec fn spec_skill_from_command(c: Seq<char>) -> Option<Seq<char>> {
    if starts_with(c, "/skill:"@) {
        let rest = c.skip(7);
        let name = if exists|i: int| 0 <= i < rest.len() && (rest[i] == ':' || rest[i] == ' ') {
            rest.take(
                choose|i: int|
                    0 <= i < rest.len() && (rest[i] == ':' || rest[i] == ' ') && forall|j: int|
                        0 <= j < i ==> rest[j] != ':' && rest[j] != ' ',
            )
        } else {
            rest
        };
        if name.len() > 0 {
            Some(name)
        } else {
            None
        }
    } else {
        None
    }
}

/// The skill a `/skill:<name>` command runs.
pub fn skill_from_command(command: &str) -> (r: Option<String>)
    ensures
        match (r, spec_skill_from_command(command@)) {
            (Some(a), Some(b)) => a@ == b,
            (None, None) => true,
            _ => false,
        },
{
    let v = chars_of(command);
    if !starts_with_chars(v.as_slice(), chars_of("/skill:").as_slice()) {
        return None;
    }
    proof {
        assert("/skill:"@.len() == 7) by {
            reveal_strlit("/skill:");
        }
    }
    let rest = slice_chars(v.as_slice(), 7, v.len());
    assert(rest@ == command@.skip(7));
    let mut i: usize = 0;
    while i < rest.len() && rest[i] != ':' && rest[i] != ' '
        invariant
            0 <= i <= rest@.len(),
            forall|j: int| 0 <= j < i ==> rest@[j] != ':' && rest@[j] != ' ',
        decreases rest.len() - i,
    {
        i = i + 1;
    }
    proof {
        let r = rest@;
        if i < r.len() {
            let c = choose|c: int|
                0 <= c < r.len() && (r[c] == ':' || r[c] == ' ') && forall|j: int|
                    0 <= j < c ==> r[j] != ':' && r[j] != ' ';
            assert(c == i) by {
                if c < i {
                } else if c > i {
                }
            }
        }
    }
    if i == 0 {
        return None;
    }
    Some(string_of(slice_chars(rest.as_slice(), 0, i).as_slice()))
}

} // verus!

verus! {

/// A tally as plain values: `(name, count)` pairs.
pub open spec fn tally_view(v: Seq<(String, u64)>) -> Seq<(Seq<char>, u64)> {
    v.map_values(|p: (String, u64)| (p.0@, p.1))
}

/// No name occurs twice.
pub open spec fn distinct_names(t: Seq<(Seq<char>, u64)>) -> bool {
    forall|i: int, j: int| 0 <= i < j < t.len() ==> (#[trigger] t[i]).0 != (#[trigger] t[j]).0
}

/// The count of `name` (0 when it is not counted).
pub open spec fn count_of(t: Seq<(Seq<char>, u64)>, name: Seq<char>) -> int
    decreases t.len(),
{
    if t.len() == 0 {
        0
    } else {
        count_of(t.drop_last(), name) + if t.last().0 == name {
            t.last().1 as int
        } else {
            0
        }
    }
}

/// The tally after counting `name` once more: its entry goes up by one, or
/// a new entry with 1 is appended.
pub open spec fn bumped(t: Seq<(Seq<char>, u64)>, name: Seq<char>) -> Seq<(Seq<char>, u64)> {
    if exists|i: int| 0 <= i < t.len() && (#[trigger] t[i]).0 == name {
        let i = choose|i: int| 0 <= i < t.len() && (#[trigger] t[i]).0 == name;
        t.update(i, (name, (t[i].1 + 1) as u64))
    } else {
        t.push((name, 1u64))
    }
}

/// Counts `name` once more in a tally without repeated names.
pub fn bump(v: &mut Vec<(String, u64)>, name: &str)
    requires
        distinct_names(tally_view(old(v)@)),
        count_of(tally_view(old(v)@), name@) < u64::MAX,
    ensures
        tally_view(final(v)@) == bumped(tally_view(old(v)@), name@),
        distinct_names(tally_view(final(v)@)),
{
    let ghost t = tally_view(v@);
    let key = chars_of(name);
    let mut i: usize = 0;
    while i < v.len()
        invariant
            0 <= i <= v@.len(),
            t == tally_view(v@),
            v@ == old(v)@,
            distinct_names(t),
            count_of(t, name@) < u64::MAX,
            key@ == name@,
            forall|j: int| 0 <= j < i ==> (#[trigger] t[j]).0 != name@,
        decreases v.len() - i,
    {
        if chars_eq(chars_of(v[i].0.as_str()).as_slice(), key.as_slice()) {
            assert(t[i as int].0 == name@);
            proof {
                lemma_count_single(t, name@, i as int);
            }
            let (n, c) = v.remove(i);
            assert(c == t[i as int].1);
            v.insert(i, (n, c + 1));
            proof {
                let c2 = choose|k: int| 0 <= k < t.len() && (#[trigger] t[k]).0 == name@;
                assert(c2 == i) by {
                    if c2 != i {
                        if c2 < i {
                        } else {
                            assert(t[i as int].0 != t[c2].0);
                        }
                    }
                }
                assert(tally_view(v@) =~= t.update(i as int, (name@, (t[i as int].1 + 1) as u64)));
                assert(exists|k: int| 0 <= k < t.len() && (#[trigger] t[k]).0 == name@);
                assert(bumped(t, name@) == t.update(c2, (name@, (t[c2].1 + 1) as u64)));
            }
            return ;
        }
        i = i + 1;
    }
    v.push((to_string(name), 1));
    assert(tally_view(v@) =~= t.push((name@, 1u64)));
}

/// With no repeated names, the count of a listed name is its entry's count.
pub proof fn lemma_count_single(t: Seq<(Seq<char>, u64)>, name: Seq<char>, i: int)
    requires
        distinct_names(t),
        0 <= i < t.len(),
        t[i].0 == name,
    ensures
        count_of(t, name) == t[i].1,
    decreases t.len(),
{
    if i < t.len() - 1 {
        let d = t.drop_last();
        assert(distinct_names(d)) by {
            assert forall|a: int, b: int| 0 <= a < b < d.len() implies (#[trigger] d[a]).0 != (
            #[trigger] d[b]).0 by {
                assert(d[a] == t[a] && d[b] == t[b]);
            }
        }
        assert(d[i] == t[i]);
        lemma_count_single(d, name, i);
        assert(t[i].0 != t[t.len() - 1].0);
    } else {
        lemma_count_absent(t.drop_last(), name, t);
    }
}

proof fn lemma_count_absent(d: Seq<(Seq<char>, u64)>, name: Seq<char>, t: Seq<(Seq<char>, u64)>)
    requires
        distinct_names(t),
        t.len() > 0,
        d == t.drop_last(),
        t.last().0 == name,
    ensures
        count_of(d, name) == 0,
{
    lemma_count_zero(d, name);
    assert forall|j: int| 0 <= j < d.len() implies (#[trigger] d[j]).0 != name by {
        assert(d[j] == t[j]);
        assert(t[j].0 != t[t.len() - 1].0);
    }
}

proof fn lemma_count_zero(d: Seq<(Seq<char>, u64)>, name: Seq<char>)
    ensures
        (forall|j: int| 0 <= j < d.len() ==> (#[trigger] d[j]).0 != name) ==> count_of(d, name) == 0,
    decreases d.len(),
{
    if d.len() > 0 {
        lemma_count_zero(d.drop_last(), name);
        if forall|j: int| 0 <= j < d.len() ==> (#[trigger] d[j]).0 != name {
            assert forall|j: int| 0 <= j < d.drop_last().len() implies (
            #[trigger] d.drop_last()[j]).0 != name by {
                assert(d.drop_last()[j] == d[j]);
            }
            assert(d[d.len() - 1].0 != name);
        }
    }
}

/// Calls of the tools that `plugin_of` gives to the agent itself.
pub open spec fn builtin_sum(t: Seq<(Seq<char>, u64)>) -> int
    decreases t.len(),
{
    if t.len() == 0 {
        0
    } else {
        builtin_sum(t.drop_last()) + if spec_plugin_of(t.last().0) == "builtin"@ {
            t.last().1 as int
        } else {
            0
        }
    }
}

/// Running totals for one scan pass. Each tally lists a name once.
#[derive(Debug)]
pub struct Counters {
    pub tools: Vec<(String, u64)>,
    pub skills: Vec<(String, u64)>,
    pub commands: Vec<(String, u64)>,
    pub messages: u64,
}

impl Counters {
    pub open spec fn wf(self) -> bool {
        &&& distinct_names(tally_view(self.tools@))
        &&& distinct_names(tally_view(self.skills@))
        &&& distinct_names(tally_view(self.commands@))
    }

    /// Empty tallies.
    pub fn new() -> (r: Self)
        ensures
            r.wf(),
            r.tools@.len() == 0,
            r.skills@.len() == 0,
            r.commands@.len() == 0,
            r.messages == 0,
    {
        Counters { tools: Vec::new(), skills: Vec::new(), commands: Vec::new(), messages: 0 }
    }

    /// Records one tool name.
    pub fn add_tool(&mut self, name: &str)
        requires
            old(self).wf(),
            count_of(tally_view(old(self).tools@), name@) < u64::MAX,
        ensures
            final(self).wf(),
            tally_view(final(self).tools@) == bumped(tally_view(old(self).tools@), name@),
            final(self).skills == old(self).skills,
            final(self).commands == old(self).commands,
            final(self).messages == old(self).messages,
    {
        bump(&mut self.tools, name);
    }

    /// Calls served by the agent's own tools rather than a plugin.
    pub fn builtin_calls(&self) -> (n: u64)
        requires
            builtin_sum(tally_view(self.tools@)) <= u64::MAX,
        ensures
            n == builtin_sum(tally_view(self.tools@)),
    {
        let ghost t = tally_view(self.tools@);
        let mut n: u64 = 0;
        let mut i: usize = 0;
        while i < self.tools.len()
            invariant
                0 <= i <= self.tools@.len(),
                t == tally_view(self.tools@),
                builtin_sum(t) <= u64::MAX,
                n == builtin_sum(t.take(i as int)),
            decreases self.tools.len() - i,
        {
            assert(t.take(i + 1).drop_last() == t.take(i as int));
            proof {
                lemma_builtin_sum_prefix(t, i + 1);
            }
            if same_name(plugin_of(self.tools[i].0.as_str()), "builtin") {
                n = n + self.tools[i].1;
            }
            i = i + 1;
        }
        assert(t.take(i as int) == t);
        n
    }
}

fn same_name(a: &str, b: &str) -> (r: bool)
    ensures
        r == (a@ == b@),
{
    chars_eq(chars_of(a).as_slice(), chars_of(b).as_slice())
}

proof fn lemma_builtin_sum_prefix(t: Seq<(Seq<char>, u64)>, k: int)
    requires
        0 <= k <= t.len(),
    ensures
        builtin_sum(t.take(k)) <= builtin_sum(t),
        builtin_sum(t.take(k)) >= 0,
    decreases t.len() - k,
{
    if k < t.len() {
        lemma_builtin_sum_prefix(t, k + 1);
        assert(t.take(k + 1).drop_last() == t.take(k));
    } else {
        assert(t.take(k) == t);
    }
    lemma_builtin_sum_nonneg(t.take(k));
}

proof fn lemma_builtin_sum_nonneg(t: Seq<(Seq<char>, u64)>)
    ensures
        builtin_sum(t) >= 0,
    decreases t.len(),
{
    if t.len() > 0 {
        lemma_builtin_sum_nonneg(t.drop_last());
    }
}

} // verus!

verus! {

// ---------------------------------------------------------------------------
// One line of a session log
// ---------------------------------------------------------------------------

/// Bytes `c` takes in UTF-8.
pub open spec fn utf8_width(c: char) -> int {
    if (c as u32) < 0x80 {
        1
    } else if (c as u32) < 0x800 {
        2
    } else if (c as u32) < 0x10000 {
        3
    } else {
        4
    }
}

/// Bytes a text takes in UTF-8.
pub open spec fn utf8_len(s: Seq<char>) -> int
    decreases s.len(),
{
    if s.len() == 0 {
        0
    } else {
        utf8_len(s.drop_last()) + utf8_width(s.last())
    }
}

/// A content part reads: an object whose `type`, `name` and `text` are
/// absent, `null` or strings.
pub open spec fn part_reads(p: crate::json::Json) -> bool {
    &&& p is Object
    &&& crate::telemetry::session_log::opt_text_member(p, "type"@) is Some
    &&& crate::telemetry::session_log::opt_text_member(p, "name"@) is Some
    &&& crate::telemetry::session_log::opt_text_member(p, "text"@) is Some
}

/// A message content reads: absent, `null`, a string, or an array of parts.
pub open spec fn content_reads(o: Option<crate::json::Json>) -> bool {
    match o {
        None => true,
        Some(crate::json::Json::Null) => true,
        Some(crate::json::Json::Str(_)) => true,
        Some(crate::json::Json::Array(ps)) => forall|i: int|
            0 <= i < ps@.len() ==> part_reads(#[trigger] ps@[i]),
        Some(_) => false,
    }
}

/// A log line's document reads: an object whose `type` is absent, `null`
/// or a string, and whose `message`, if any, has a readable `role` and
/// content.
pub open spec fn line_doc_reads(v: crate::json::Json) -> bool {
    &&& v is Object
    &&& crate::telemetry::session_log::opt_text_member(v, "type"@) is Some
    &&& match crate::json::field(v, "message"@) {
        None => true,
        Some(crate::json::Json::Null) => true,
        Some(m) => m is Object && crate::telemetry::session_log::opt_text_member(m, "role"@) is Some
            && content_reads(crate::json::field(m, "content"@)),
    }
}

/// The message content of a line document, if any.
pub open spec fn line_content(v: crate::json::Json) -> Option<crate::json::Json> {
    match crate::json::field(v, "message"@) {
        Some(m) => crate::telemetry::session_log::opt_value_member(m, "content"@),
        None => None,
    }
}

/// Names of the `toolCall` parts that have one, in order.
pub open spec fn tool_names(ps: Seq<crate::json::Json>) -> Seq<Seq<char>>
    decreases ps.len(),
{
    if ps.len() == 0 {
        Seq::empty()
    } else {
        let rest = tool_names(ps.drop_last());
        let p = ps.last();
        if crate::json::str_of(crate::json::field(p, "type"@)) == Some("toolCall"@) {
            match crate::json::str_of(crate::json::field(p, "name"@)) {
                Some(n) => rest.push(n),
                None => rest,
            }
        } else {
            rest
        }
    }
}

/// The first text of a message: a string content, or the text of the first
/// part whose type is `text` (none when that part has no text).
pub open spec fn first_text(c: Option<crate::json::Json>) -> Option<Seq<char>> {
    match c {
        Some(crate::json::Json::Str(s)) => Some(s@),
        Some(crate::json::Json::Array(ps)) => match first_text_part(ps@) {
            Some(i) => crate::json::str_of(crate::json::field(ps@[i], "text"@)),
            None => None,
        },
        _ => None,
    }
}

/// Index of the first part whose type is `text`.
pub open spec fn first_text_part(ps: Seq<crate::json::Json>) -> Option<int>
    decreases ps.len(),
{
    if ps.len() == 0 {
        None
    } else {
        match first_text_part(ps.drop_last()) {
            Some(i) => Some(i),
            None => if crate::json::str_of(crate::json::field(ps.last(), "type"@)) == Some(
                "text"@,
            ) {
                Some(ps.len() - 1)
            } else {
                None
            },
        }
    }
}

/// What one line adds: whether it is a message, the tools it calls, the
/// skill its raw text names, and the slash command a user typed (with the
/// skill it runs).
pub struct LineEvents {
    pub message: bool,
    pub tools: Seq<Seq<char>>,
    pub raw_skill: Option<Seq<char>>,
    pub command: Option<Seq<char>>,
    pub command_skill: Option<Seq<char>>,
}

/// The events of one log line. Substring gates decide first: a message
/// line counts as a message; only lines with a `"toolCall"` or short ones
/// with `"user"` are parsed.
pub open spec fn line_events(line: Seq<char>) -> LineEvents {
    let message = crate::text::contains(line, "\"type\": \"message\""@) || crate::text::contains(
        line,
        "\"type\":\"message\""@,
    );
    let has_tool = crate::text::contains(line, "\"toolCall\""@);
    let is_user = utf8_len(line) < 4096 && crate::text::contains(line, "\"user\""@);
    let none = LineEvents {
        message,
        tools: Seq::empty(),
        raw_skill: None,
        command: None,
        command_skill: None,
    };
    if !has_tool && !is_user {
        none
    } else {
        match crate::json::parsed_json(line) {
            None => none,
            Some(v) => if !line_doc_reads(v) {
                none
            } else {
                let tools = if has_tool {
                    match line_content(v) {
                        Some(crate::json::Json::Array(ps)) => tool_names(ps@),
                        _ => Seq::empty(),
                    }
                } else {
                    Seq::empty()
                };
                let raw_skill = if has_tool {
                    spec_skill_from_raw_line(line)
                } else {
                    None
                };
                let user_role = match crate::json::field(v, "message"@) {
                    Some(m) => crate::json::str_of(crate::json::field(m, "role"@)) == Some("user"@),
                    None => false,
                };
                let command = if is_user && user_role {
                    match first_text(line_content(v)) {
                        Some(t) => spec_command(t),
                        None => None,
                    }
                } else {
                    None
                };
                LineEvents {
                    message,
                    tools,
                    raw_skill,
                    command,
                    command_skill: match command {
                        Some(c) => spec_skill_from_command(c),
                        None => None,
                    },
                }
            },
        }
    }
}

/// A tally after counting each name in turn.
pub open spec fn bump_all(t: Seq<(Seq<char>, u64)>, names: Seq<Seq<char>>) -> Seq<(Seq<char>, u64)>
    decreases names.len(),
{
    if names.len() == 0 {
        t
    } else {
        bumped(bump_all(t, names.drop_last()), names.last())
    }
}

/// Counting each name in turn stays within `u64`.
pub open spec fn bump_all_fits(t: Seq<(Seq<char>, u64)>, names: Seq<Seq<char>>) -> bool
    decreases names.len(),
{
    if names.len() == 0 {
        true
    } else {
        bump_all_fits(t, names.drop_last()) && count_of(bump_all(t, names.drop_last()), names.last())
            < u64::MAX
    }
}

pub open spec fn opt_names(o: Option<Seq<char>>) -> Seq<Seq<char>> {
    match o {
        Some(n) => seq![n],
        None => Seq::empty(),
    }
}

/// The skills a line counts: the raw skill, then the command's.
pub open spec fn skill_names(e: LineEvents) -> Seq<Seq<char>> {
    opt_names(e.raw_skill) + opt_names(e.command_skill)
}

/// The counters after one line, as plain values: messages, tools, skills,
/// commands.
pub open spec fn counted_line(
    c: (int, Seq<(Seq<char>, u64)>, Seq<(Seq<char>, u64)>, Seq<(Seq<char>, u64)>),
    line: Seq<char>,
) -> (int, Seq<(Seq<char>, u64)>, Seq<(Seq<char>, u64)>, Seq<(Seq<char>, u64)>) {
    let e = line_events(line);
    (
        c.0 + if e.message {
            1int
        } else {
            0int
        },
        bump_all(c.1, e.tools),
        bump_all(c.2, skill_names(e)),
        bump_all(c.3, opt_names(e.command)),
    )
}

/// Counting the line stays within `u64`.
pub open spec fn line_fits(
    c: (int, Seq<(Seq<char>, u64)>, Seq<(Seq<char>, u64)>, Seq<(Seq<char>, u64)>),
    line: Seq<char>,
) -> bool {
    let e = line_events(line);
    &&& (e.message ==> c.0 < u64::MAX)
    &&& bump_all_fits(c.1, e.tools)
    &&& bump_all_fits(c.2, skill_names(e))
    &&& bump_all_fits(c.3, opt_names(e.command))
}

impl Counters {
    pub open spec fn counts(self) -> (int, Seq<(Seq<char>, u64)>, Seq<(Seq<char>, u64)>, Seq<(Seq<char>, u64)>) {
        (
            self.messages as int,
            tally_view(self.tools@),
            tally_view(self.skills@),
            tally_view(self.commands@),
        )
    }
}

fn utf8_len_exec(cs: &[char]) -> (r: usize)
    ensures
        r == if utf8_len(cs@) > usize::MAX { usize::MAX as int } else { utf8_len(cs@) },
{
    let mut n: usize = 0;
    let mut i: usize = 0;
    let mut capped = false;
    assert(cs@.take(0) =~= Seq::<char>::empty());
    while i < cs.len()
        invariant
            0 <= i <= cs@.len(),
            !capped ==> n == utf8_len(cs@.take(i as int)),
            capped ==> n == usize::MAX && utf8_len(cs@.take(i as int)) > usize::MAX,
        decreases cs.len() - i,
    {
        assert(cs@.take(i + 1).drop_last() =~= cs@.take(i as int));
        assert(cs@.take(i + 1).last() == cs@[i as int]);
        let c = cs[i] as u32;
        let w: usize = if c < 0x80 {
            1
        } else if c < 0x800 {
            2
        } else if c < 0x10000 {
            3
        } else {
            4
        };
        if !capped {
            if n > usize::MAX - w {
                capped = true;
                n = usize::MAX;
            } else {
                n = n + w;
            }
        }
        i = i + 1;
    }
    assert(cs@.take(i as int) =~= cs@);
    proof {
        if capped {
        } else {
            lemma_utf8_nonneg(cs@);
        }
    }
    n
}

proof fn lemma_utf8_nonneg(s: Seq<char>)
    ensures
        utf8_len(s) >= 0,
    decreases s.len(),
{
    if s.len() > 0 {
        lemma_utf8_nonneg(s.drop_last());
    }
}

} // verus!

verus! {

fn part_reads_exec(p: &crate::json::Json) -> (r: bool)
    ensures
        r == part_reads(*p),
{
    match p {
        crate::json::Json::Object(_, _) => {},
        _ => {
            return false;
        },
    }
    crate::telemetry::session_log::text_member(p, "type").is_some()
        && crate::telemetry::session_log::text_member(p, "name").is_some()
        && crate::telemetry::session_log::text_member(p, "text").is_some()
}

fn content_reads_exec(o: Option<&crate::json::Json>) -> (r: bool)
    ensures
        r == content_reads(crate::telemetry::session_log::deref_json(o)),
{
    match o {
        None => true,
        Some(crate::json::Json::Null) => true,
        Some(crate::json::Json::Str(_)) => true,
        Some(crate::json::Json::Array(ps)) => {
            let mut i: usize = 0;
            while i < ps.len()
                invariant
                    0 <= i <= ps@.len(),
                    o == Some(&crate::json::Json::Array(*ps)),
                    forall|j: int| 0 <= j < i ==> part_reads(#[trigger] ps@[j]),
                decreases ps.len() - i,
            {
                if !part_reads_exec(&ps[i]) {
                    assert(!part_reads(ps@[i as int]));
                    assert(crate::telemetry::session_log::deref_json(o) == Some(
                        crate::json::Json::Array(*ps),
                    ));
                    proof {
                        lemma_content_not_reads(*ps, i as int);
                    }
                    return false;
                }
                i = i + 1;
            }
            true
        },
        Some(_) => false,
    }
}

fn line_doc_reads_exec(v: &crate::json::Json) -> (r: bool)
    ensures
        r == line_doc_reads(*v),
{
    match v {
        crate::json::Json::Object(_, _) => {},
        _ => {
            return false;
        },
    }
    if crate::telemetry::session_log::text_member(v, "type").is_none() {
        return false;
    }
    match crate::json::get(v, "message") {
        None => true,
        Some(crate::json::Json::Null) => true,
        Some(m) => {
            let is_obj = match m {
                crate::json::Json::Object(_, _) => true,
                _ => false,
            };
            is_obj && crate::telemetry::session_log::text_member(m, "role").is_some()
                && content_reads_exec(crate::json::get(m, "content"))
        },
    }
}

fn line_content_exec(v: &crate::json::Json) -> (r: Option<&crate::json::Json>)
    ensures
        crate::telemetry::session_log::deref_json(r) == line_content(*v),
{
    match crate::json::get(v, "message") {
        Some(m) => match crate::json::get(m, "content") {
            Some(crate::json::Json::Null) => None,
            Some(c) => Some(c),
            None => None,
        },
        None => None,
    }
}

fn tool_names_exec(ps: &Vec<crate::json::Json>) -> (r: Vec<String>)
    ensures
        crate::text::string_views(r@) == tool_names(ps@),
{
    let mut out: Vec<String> = Vec::new();
    let mut i: usize = 0;
    assert(ps@.take(0) =~= Seq::<crate::json::Json>::empty());
    assert(crate::text::string_views(out@) =~= Seq::<Seq<char>>::empty());
    while i < ps.len()
        invariant
            0 <= i <= ps@.len(),
            crate::text::string_views(out@) == tool_names(ps@.take(i as int)),
        decreases ps.len() - i,
    {
        assert(ps@.take(i + 1).drop_last() =~= ps@.take(i as int));
        assert(ps@.take(i + 1).last() == ps@[i as int]);
        let is_call = match crate::json::get_str(&ps[i], "type") {
            Some(t) => chars_eq(chars_of(t.as_str()).as_slice(), chars_of("toolCall").as_slice()),
            None => false,
        };
        if is_call {
            match crate::json::get_str(&ps[i], "name") {
                Some(n) => {
                    let ghost before = out@;
                    out.push(n.clone());
                    assert(crate::text::string_views(out@) =~= crate::text::string_views(before).push(
                        n@,
                    ));
                },
                None => {},
            }
        }
        i = i + 1;
    }
    assert(ps@.take(i as int) =~= ps@);
    out
}

fn first_text_exec(c: Option<&crate::json::Json>) -> (r: Option<String>)
    ensures
        crate::telemetry::session_log::text_view(r) == first_text(
            crate::telemetry::session_log::deref_json(c),
        ),
{
    match c {
        Some(crate::json::Json::Str(s)) => Some(s.clone()),
        Some(crate::json::Json::Array(ps)) => {
            let mut i: usize = 0;
            assert(ps@.take(0) =~= Seq::<crate::json::Json>::empty());
            while i < ps.len()
                invariant
                    0 <= i <= ps@.len(),
                    c == Some(&crate::json::Json::Array(*ps)),
                    first_text_part(ps@.take(i as int)) is None,
                decreases ps.len() - i,
            {
                assert(ps@.take(i + 1).drop_last() =~= ps@.take(i as int));
                assert(ps@.take(i + 1).last() == ps@[i as int]);
                let is_text = match crate::json::get_str(&ps[i], "type") {
                    Some(t) => chars_eq(chars_of(t.as_str()).as_slice(), chars_of("text").as_slice()),
                    None => false,
                };
                if is_text {
                    proof {
                        lemma_first_text_part_prefix(ps@, i + 1);
                    }
                    return match crate::json::get_str(&ps[i], "text") {
                        Some(t) => Some(t.clone()),
                        None => None,
                    };
                }
                i = i + 1;
            }
            assert(ps@.take(i as int) =~= ps@);
            None
        },
        _ => None,
    }
}

proof fn lemma_first_text_part_prefix(ps: Seq<crate::json::Json>, k: int)
    requires
        0 <= k <= ps.len(),
        first_text_part(ps.take(k)) is Some,
    ensures
        first_text_part(ps) == first_text_part(ps.take(k)),
    decreases ps.len() - k,
{
    if k < ps.len() {
        assert(ps.take(k + 1).drop_last() =~= ps.take(k));
        lemma_first_text_part_prefix(ps, k + 1);
    } else {
        assert(ps.take(k) =~= ps);
    }
}

/// Counts `name` once more unless its count is already `u64::MAX`
/// (`false`, nothing changed).
fn bump_checked(v: &mut Vec<(String, u64)>, name: &str) -> (ok: bool)
    requires
        distinct_names(tally_view(old(v)@)),
    ensures
        distinct_names(tally_view(final(v)@)),
        ok == (count_of(tally_view(old(v)@), name@) < u64::MAX),
        ok ==> tally_view(final(v)@) == bumped(tally_view(old(v)@), name@),
        !ok ==> final(v)@ == old(v)@,
{
    let ghost t = tally_view(v@);
    let mut i: usize = 0;
    while i < v.len()
        invariant
            0 <= i <= v@.len(),
            t == tally_view(v@),
            v@ == old(v)@,
            distinct_names(t),
            forall|j: int| 0 <= j < i ==> (#[trigger] t[j]).0 != name@,
        decreases v.len() - i,
    {
        if chars_eq(chars_of(v[i].0.as_str()).as_slice(), chars_of(name).as_slice()) {
            proof {
                lemma_count_single(t, name@, i as int);
            }
            if v[i].1 == u64::MAX {
                return false;
            }
            bump(v, name);
            return true;
        }
        i = i + 1;
    }
    proof {
        lemma_count_zero(t, name@);
    }
    bump(v, name);
    true
}

proof fn lemma_bump_all_step(t: Seq<(Seq<char>, u64)>, names: Seq<Seq<char>>, k: int)
    requires
        0 <= k < names.len(),
    ensures
        bump_all(t, names.take(k + 1)) == bumped(bump_all(t, names.take(k)), names[k]),
        bump_all_fits(t, names.take(k + 1)) == (bump_all_fits(t, names.take(k)) && count_of(
            bump_all(t, names.take(k)),
            names[k],
        ) < u64::MAX),
{
    assert(names.take(k + 1).drop_last() =~= names.take(k));
    assert(names.take(k + 1).last() == names[k]);
}

proof fn lemma_fits_prefix(t: Seq<(Seq<char>, u64)>, names: Seq<Seq<char>>, k: int)
    requires
        0 <= k <= names.len(),
        !bump_all_fits(t, names.take(k)),
    ensures
        !bump_all_fits(t, names),
    decreases names.len() - k,
{
    if k < names.len() {
        lemma_bump_all_step(t, names, k);
        lemma_fits_prefix(t, names, k + 1);
    } else {
        assert(names.take(k) =~= names);
    }
}

/// Counts each name in turn; `false` as soon as a count would pass
/// `u64::MAX`.
fn bump_names(v: &mut Vec<(String, u64)>, names: &Vec<String>) -> (ok: bool)
    requires
        distinct_names(tally_view(old(v)@)),
    ensures
        distinct_names(tally_view(final(v)@)),
        ok == bump_all_fits(tally_view(old(v)@), crate::text::string_views(names@)),
        ok ==> tally_view(final(v)@) == bump_all(tally_view(old(v)@), crate::text::string_views(names@)),
{
    let ghost t0 = tally_view(v@);
    let ghost ns = crate::text::string_views(names@);
    let mut i: usize = 0;
    assert(ns.take(0) =~= Seq::<Seq<char>>::empty());
    while i < names.len()
        invariant
            0 <= i <= names@.len(),
            ns == crate::text::string_views(names@),
            t0 == tally_view(old(v)@),
            distinct_names(tally_view(v@)),
            bump_all_fits(t0, ns.take(i as int)),
            tally_view(v@) == bump_all(t0, ns.take(i as int)),
        decreases names.len() - i,
    {
        proof {
            lemma_bump_all_step(t0, ns, i as int);
        }
        assert(ns[i as int] == names@[i as int]@);
        if !bump_checked(v, names[i].as_str()) {
            proof {
                lemma_fits_prefix(t0, ns, i + 1);
            }
            return false;
        }
        i = i + 1;
    }
    assert(ns.take(i as int) =~= ns);
    true
}

fn opt_list(o: Option<String>) -> (r: Vec<String>)
    ensures
        crate::text::string_views(r@) == opt_names(crate::telemetry::session_log::text_view(o)),
{
    let mut v: Vec<String> = Vec::new();
    match o {
        Some(s) => {
            v.push(s);
            assert(crate::text::string_views(v@) =~= seq![v@[0]@]);
        },
        None => {
            assert(crate::text::string_views(v@) =~= Seq::<Seq<char>>::empty());
        },
    }
    v
}

/// The events of one log line (see [`line_events`]), as values.
#[verifier::rlimit(40)]
fn line_events_exec(line: &str) -> (r: (bool, Vec<String>, Option<String>, Option<String>, Option<String>))
    ensures
        r.0 == line_events(line@).message,
        crate::text::string_views(r.1@) == line_events(line@).tools,
        crate::telemetry::session_log::text_view(r.2) == line_events(line@).raw_skill,
        crate::telemetry::session_log::text_view(r.3) == line_events(line@).command,
        crate::telemetry::session_log::text_view(r.4) == line_events(line@).command_skill,
{
    let cs = chars_of(line);
    let message = crate::text::contains_chars(cs.as_slice(), chars_of("\"type\": \"message\"").as_slice())
        || crate::text::contains_chars(cs.as_slice(), chars_of("\"type\":\"message\"").as_slice());
    let has_tool = crate::text::contains_chars(cs.as_slice(), chars_of("\"toolCall\"").as_slice());
    let is_user = utf8_len_exec(cs.as_slice()) < 4096 && crate::text::contains_chars(
        cs.as_slice(),
        chars_of("\"user\"").as_slice(),
    );
    let ghost empty_names = Seq::<Seq<char>>::empty();
    if !has_tool && !is_user {
        let v: Vec<String> = Vec::new();
        assert(crate::text::string_views(v@) =~= empty_names);
        return (message, v, None, None, None);
    }
    let doc = match crate::json::parse_json(line) {
        Some(d) => d,
        None => {
            let v: Vec<String> = Vec::new();
            assert(crate::text::string_views(v@) =~= empty_names);
            return (message, v, None, None, None);
        },
    };
    if !line_doc_reads_exec(&doc) {
        let v: Vec<String> = Vec::new();
        assert(crate::text::string_views(v@) =~= empty_names);
        return (message, v, None, None, None);
    }
    let content = line_content_exec(&doc);
    let tools = if has_tool {
        match content {
            Some(crate::json::Json::Array(ps)) => tool_names_exec(ps),
            _ => {
                let v: Vec<String> = Vec::new();
                assert(crate::text::string_views(v@) =~= empty_names);
                v
            },
        }
    } else {
        let v: Vec<String> = Vec::new();
        assert(crate::text::string_views(v@) =~= empty_names);
        v
    };
    let raw_skill = if has_tool {
        skill_from_raw_line(line)
    } else {
        None
    };
    let user_role = match crate::json::get(&doc, "message") {
        Some(m) => match crate::json::get_str(m, "role") {
            Some(r) => chars_eq(chars_of(r.as_str()).as_slice(), chars_of("user").as_slice()),
            None => false,
        },
        None => false,
    };
    let command = if is_user && user_role {
        match first_text_exec(content) {
            Some(t) => command_from_text(t.as_str()),
            None => None,
        }
    } else {
        None
    };
    let command_skill = match &command {
        Some(c) => skill_from_command(c.as_str()),
        None => None,
    };
    (message, tools, raw_skill, command, command_skill)
}

impl Counters {
    /// Counts one line of a session log (see [`line_events`]): `false`
    /// where a count would pass `u64::MAX`.
    pub fn count_line(&mut self, line: &str) -> (ok: bool)
        requires
            old(self).wf(),
        ensures
            final(self).wf(),
            ok == line_fits(old(self).counts(), line@),
            ok ==> final(self).counts() == counted_line(old(self).counts(), line@),
    {
        let (message, tools, raw_skill, command, command_skill) = line_events_exec(line);
        let ghost e = line_events(line@);
        let ghost c0 = self.counts();
        let mut fits = true;
        if message {
            if self.messages == u64::MAX {
                fits = false;
            } else {
                self.messages = self.messages + 1;
            }
        }
        let t_ok = bump_names(&mut self.tools, &tools);
        let mut skills = opt_list(raw_skill);
        let extra = opt_list(command_skill);
        let ghost s1 = crate::text::string_views(skills@);
        let ghost s2 = crate::text::string_views(extra@);
        let mut k: usize = 0;
        while k < extra.len()
            invariant
                0 <= k <= extra@.len(),
                crate::text::string_views(skills@) == s1 + s2.take(k as int),
                s2 == crate::text::string_views(extra@),
            decreases extra.len() - k,
        {
            let ghost before = crate::text::string_views(skills@);
            skills.push(extra[k].clone());
            assert(crate::text::string_views(skills@) =~= before.push(extra@[k as int]@));
            assert(s2.take(k + 1) =~= s2.take(k as int).push(s2[k as int]));
            k = k + 1;
            assert(crate::text::string_views(skills@) =~= s1 + s2.take(k as int));
        }
        assert(s2.take(k as int) =~= s2);
        assert(crate::text::string_views(skills@) == skill_names(e));
        let s_ok = bump_names(&mut self.skills, &skills);
        let commands = opt_list(command);
        let c_ok = bump_names(&mut self.commands, &commands);
        fits && t_ok && s_ok && c_ok
    }
}

} // verus!
verus! {

/// A content array with a part that does not read does not read.
proof fn lemma_content_not_reads(ps: Vec<crate::json::Json>, i: int)
    requires
        0 <= i < ps@.len(),
        !part_reads(ps@[i]),
    ensures
        !content_reads(Some(crate::json::Json::Array(ps))),
{
    let c = Some(crate::json::Json::Array(ps));
    assert(c matches Some(crate::json::Json::Array(q)) && q == ps);
    assert(content_reads(c) == (forall|j: int| 0 <= j < ps@.len() ==> part_reads(#[trigger] ps@[j])));
}
} // verus!

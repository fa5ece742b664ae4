//! Autocomplete suggestions for @project insertion (compatible with pi-spai).
use crate::spai_notes::discovery::SpaiProjectSummary;
use crate::text::{
    chars_of, concat_chars, contains, contains_chars, is_white_space, is_ws, rfind_char,
    rfind_char_exec, slice_chars, string_of, unicode_lower_chars, text_lowercase,
};
use vstd::prelude::*;
use vstd::string::StrSliceExecFns;

verus! {

/// One `@project` completion.
#[derive(Debug, Clone)]
pub struct ProjectSuggestion {
    pub name: String,
    pub path: String,
    pub insert_text: String,
}

/// The `@` query the input ends with: the text after its last `@`, when that
/// text holds no white space.
pub open spec fn spec_at_query(input: Seq<char>) -> Option<Seq<char>> {
    match rfind_char(input, '@') {
        Some(i) => {
            let after = input.skip(i + 1);
            if exists|j: int| 0 <= j < after.len() && is_ws(after[j]) {
                None
            } else {
                Some(after)
            }
        },
        None => None,
    }
}

/// Detects if input ends with `@...` trigger and returns query if active.
pub fn extract_at_query(input: &str) -> (r: Option<&str>)
    ensures
        match (r, spec_at_query(input@)) {
            (Some(q), Some(s)) => q@ == s,
            (None, None) => true,
            _ => false,
        },
{
    let v = chars_of(input);
    match rfind_char_exec(v.as_slice(), '@') {
        Some(idx) => {
            let mut j: usize = idx + 1;
            while j < v.len()
                invariant
                    idx + 1 <= j <= v.len(),
                    v@ == input@,
                    rfind_char(input@, '@') == Some(idx as int),
                    forall|k: int| idx + 1 <= k < j ==> !is_ws(v@[k]),
                decreases v.len() - j,
            {
                if is_white_space(v[j]) {
                    assert(input@.skip(idx + 1)[j - idx - 1] == v@[j as int]);
                    let ghost after = input@.skip(idx + 1);
                    assert(is_ws(after[j - idx - 1]));
                    assert(exists|m: int| 0 <= m < after.len() && is_ws(#[trigger] after[m]));
                    assert(rfind_char(input@, '@') == Some(idx as int));
                    assert(spec_at_query(input@) is None);
                    return None;
                }
                j = j + 1;
            }
            assert forall|k: int| 0 <= k < input@.skip(idx + 1).len() implies !is_ws(
                #[trigger] input@.skip(idx + 1)[k],
            ) by {
                assert(input@.skip(idx + 1)[k] == v@[idx + 1 + k]);
            }
            Some(input.substring_char(idx + 1, v.len()))
        },
        None => None,
    }
}

/// A project matches the query by name or path, case-insensitively (an
/// empty query matches everything).
pub open spec fn project_matches(p: SpaiProjectSummary, q: Seq<char>) -> bool {
    q.len() == 0 || contains(text_lowercase(p.name@), text_lowercase(q)) || contains(
        text_lowercase(p.path@),
        text_lowercase(q),
    )
}

/// Text inserted for a project: `@name`, quoted when the name has a space.
pub open spec fn insert_text_for(name: Seq<char>) -> Seq<char> {
    if name.contains(' ') {
        "@\""@ + name + "\""@
    } else {
        "@"@ + name
    }
}

/// `(name, path, insert text)` of every matching project, in order.
pub open spec fn matching_projects(ps: Seq<SpaiProjectSummary>, q: Seq<char>) -> Seq<
    (Seq<char>, Seq<char>, Seq<char>),
>
    decreases ps.len(),
{
    if ps.len() == 0 {
        Seq::empty()
    } else {
        let r = matching_projects(ps.drop_last(), q);
        let p = ps.last();
        if project_matches(p, q) {
            r.push((p.name@, p.path@, insert_text_for(p.name@)))
        } else {
            r
        }
    }
}

/// The first eight matches.
pub open spec fn spec_suggestions(ps: Seq<SpaiProjectSummary>, q: Seq<char>) -> Seq<
    (Seq<char>, Seq<char>, Seq<char>),
> {
    let all = matching_projects(ps, q);
    if all.len() > 8 {
        all.take(8)
    } else {
        all
    }
}

pub open spec fn suggestion_views(v: Seq<ProjectSuggestion>) -> Seq<(Seq<char>, Seq<char>, Seq<char>)> {
    v.map_values(|s: ProjectSuggestion| (s.name@, s.path@, s.insert_text@))
}

fn insert_text_exec(name: &[char]) -> (r: Vec<char>)
    ensures
        r@ == insert_text_for(name@),
{
    let mut has_space = false;
    let mut i: usize = 0;
    while i < name.len()
        invariant
            0 <= i <= name.len(),
            has_space == name@.take(i as int).contains(' '),
        decreases name.len() - i,
    {
        let ghost pre = name@.take(i as int);
        assert(name@.take(i + 1) == pre.push(name@[i as int]));
        if name[i] == ' ' {
            has_space = true;
            assert(name@.take(i + 1)[i as int] == ' ');
        } else {
            assert(pre.push(name@[i as int]).contains(' ') ==> pre.contains(' ')) by {
                if pre.push(name@[i as int]).contains(' ') {
                    let k = choose|k: int| 0 <= k < pre.len() + 1 && #[trigger] pre.push(name@[i as int])[k] == ' ';
                    assert(pre[k] == ' ');
                }
            }
            assert(pre.contains(' ') ==> pre.push(name@[i as int]).contains(' ')) by {
                if pre.contains(' ') {
                    let k = choose|k: int| 0 <= k < pre.len() && #[trigger] pre[k] == ' ';
                    assert(pre.push(name@[i as int])[k] == ' ');
                }
            }
        }
        i = i + 1;
    }
    assert(name@.take(name.len() as int) == name@);
    if has_space {
        let a = concat_chars(chars_of("@\"").as_slice(), name);
        concat_chars(a.as_slice(), chars_of("\"").as_slice())
    } else {
        concat_chars(chars_of("@").as_slice(), name)
    }
}

/// Filters available projects matching the `@query`.
pub fn get_project_suggestions(projects: &[SpaiProjectSummary], query: &str) -> (r: Vec<
    ProjectSuggestion,
>)
    ensures
        suggestion_views(r@) == spec_suggestions(projects@, query@),
{
    let q = chars_of(query);
    let lower_q = unicode_lower_chars(q.as_slice());
    let mut matches: Vec<ProjectSuggestion> = Vec::new();
    let mut i: usize = 0;
    while i < projects.len()
        invariant
            0 <= i <= projects.len(),
            q@ == query@,
            lower_q@ == text_lowercase(query@),
            suggestion_views(matches@) == matching_projects(projects@.take(i as int), query@),
        decreases projects.len() - i,
    {
        let p = &projects[i];
        assert(projects@.take(i + 1).drop_last() == projects@.take(i as int));
        assert(projects@.take(i + 1).last() == *p);
        let name = chars_of(p.name.as_str());
        let path = chars_of(p.path.as_str());
        let name_lower = unicode_lower_chars(name.as_slice());
        let path_lower = unicode_lower_chars(path.as_slice());
        if q.len() == 0 || contains_chars(name_lower.as_slice(), lower_q.as_slice())
            || contains_chars(path_lower.as_slice(), lower_q.as_slice()) {
            let ins = insert_text_exec(name.as_slice());
            let s = ProjectSuggestion {
                name: string_of(name.as_slice()),
                path: string_of(path.as_slice()),
                insert_text: string_of(ins.as_slice()),
            };
            let ghost before = matches@;
            matches.push(s);
            assert(suggestion_views(matches@) == suggestion_views(before).push(
                (s.name@, s.path@, s.insert_text@),
            ));
        }
        i = i + 1;
    }
    assert(projects@.take(projects.len() as int) == projects@);
    let ghost all = matches@;
    matches.truncate(8);
    assert(suggestion_views(matches@) == spec_suggestions(projects@, query@)) by {
        if all.len() > 8 {
            assert(matches@ == all.take(8));
        }
    }
    matches
}

/// Applies completion of selected suggestion into input string: the text
/// from the last `@` on is replaced by the insert text and a space.
pub open spec fn spec_apply_completion(input: Seq<char>, insert: Seq<char>) -> Seq<char> {
    match rfind_char(input, '@') {
        Some(i) => input.take(i) + insert + " "@,
        None => input,
    }
}

/// Applies completion of selected suggestion into input string.
pub fn apply_at_completion(input: &mut String, suggestion: &ProjectSuggestion)
    ensures
        final(input)@ == spec_apply_completion(old(input)@, suggestion.insert_text@),
{
    let v = chars_of(input.as_str());
    match rfind_char_exec(v.as_slice(), '@') {
        Some(idx) => {
            let head = slice_chars(v.as_slice(), 0, idx);
            let ins = chars_of(suggestion.insert_text.as_str());
            let a = concat_chars(head.as_slice(), ins.as_slice());
            let b = concat_chars(a.as_slice(), chars_of(" ").as_slice());
            *input = string_of(b.as_slice());
        },
        None => {},
    }
}

} // verus!

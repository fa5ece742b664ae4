//! Git telemetry: the working tree status and recent commits as git prints
//! them, the files a session edited, and the nested repositories of a
//! monorepo ranked by how many of those files each holds.
use crate::json::{field, get, get_array, get_str, parse_json, str_of, Json};
use crate::sorting::insertion_sort;
use crate::text::{
    chars_eq, chars_of, is_white_space, is_ws, lines, slice_chars, string_of, trim, trim_chars,
    trim_start, trim_start_chars,
};
use vstd::prelude::*;

verus! {

/// One commit of `git log --format=%h|%cr|%s`.
#[derive(Debug, Clone)]
pub struct GitCommitLog {
    pub hash: String,
    pub age: String,
    pub message: String,
}

/// A nested git repository found through the session's edits.
#[derive(Debug, Clone)]
pub struct RepoTelemetry {
    /// Repository directory name.
    pub name: String,
    /// Path of the repository root.
    pub root: String,
    /// Number of session-edited files inside this repository.
    pub touched_files: u32,
    pub recent_commits: Vec<GitCommitLog>,
}

/// Git state of the working directory.
#[derive(Debug, Clone)]
pub struct GitTelemetry {
    pub branch: String,
    pub ahead: u32,
    pub behind: u32,
    pub staged: u32,
    pub unstaged: u32,
    pub untracked: u32,
    pub recent_commits: Vec<GitCommitLog>,
    /// Repositories discovered from the session's edit trail (monorepo
    /// mode); empty when the working directory is a repository itself.
    pub touched_repos: Vec<RepoTelemetry>,
}

// ---------------------------------------------------------------------------
// git log
// ---------------------------------------------------------------------------

/// Index of the first `c` in `s`.
pub open spec fn index_of(s: Seq<char>, c: char) -> Option<int> {
    crate::text::find_char(s, c)
}

/// A trimmed `git log` line split at its first two `|`: hash, age and
/// message (which may hold more `|`); `None` with fewer than two.
pub open spec fn commit_parts(line: Seq<char>) -> Option<(Seq<char>, Seq<char>, Seq<char>)> {
    let t = trim(line);
    match index_of(t, '|') {
        None => None,
        Some(i) => {
            let rest = t.skip(i + 1);
            match index_of(rest, '|') {
                None => None,
                Some(j) => Some((t.take(i), rest.take(j), rest.skip(j + 1))),
            }
        },
    }
}

/// The commits of `git log` output, one per line that has all three parts.
pub open spec fn commits_of(ls: Seq<Seq<char>>) -> Seq<(Seq<char>, Seq<char>, Seq<char>)>
    decreases ls.len(),
{
    if ls.len() == 0 {
        Seq::empty()
    } else {
        match commit_parts(ls.last()) {
            Some(c) => commits_of(ls.drop_last()).push(c),
            None => commits_of(ls.drop_last()),
        }
    }
}

pub open spec fn commit_view(c: GitCommitLog) -> (Seq<char>, Seq<char>, Seq<char>) {
    (c.hash@, c.age@, c.message@)
}

pub open spec fn commit_views(v: Seq<GitCommitLog>) -> Seq<(Seq<char>, Seq<char>, Seq<char>)> {
    v.map_values(|c: GitCommitLog| commit_view(c))
}

fn commit_parts_exec(line: &[char]) -> (r: Option<GitCommitLog>)
    ensures
        match r {
            Some(c) => commit_parts(line@) == Some(commit_view(c)),
            None => commit_parts(line@) is None,
        },
{
    let t = trim_chars(line);
    match crate::text::find_char_exec(t.as_slice(), '|') {
        None => None,
        Some(i) => {
            let rest = slice_chars(t.as_slice(), i + 1, t.len());
            assert(rest@ == t@.skip(i + 1));
            match crate::text::find_char_exec(rest.as_slice(), '|') {
                None => None,
                Some(j) => {
                    let hash = slice_chars(t.as_slice(), 0, i);
                    let age = slice_chars(rest.as_slice(), 0, j);
                    let message = slice_chars(rest.as_slice(), j + 1, rest.len());
                    assert(hash@ == t@.take(i as int));
                    assert(age@ == rest@.take(j as int));
                    assert(message@ == rest@.skip(j + 1));
                    Some(
                        GitCommitLog {
                            hash: string_of(hash.as_slice()),
                            age: string_of(age.as_slice()),
                            message: string_of(message.as_slice()),
                        },
                    )
                },
            }
        },
    }
}

/// The commits of `git log --format=%h|%cr|%s` output.
pub fn parse_commit_lines(text: &str) -> (r: Vec<GitCommitLog>)
    ensures
        commit_views(r@) == commits_of(lines(text@)),
{
    let ls = crate::text::lines_exec(chars_of(text).as_slice());
    let ghost lv = crate::text::views(ls@);
    let mut out: Vec<GitCommitLog> = Vec::new();
    let mut i: usize = 0;
    assert(lv.take(0) =~= Seq::<Seq<char>>::empty());
    assert(commit_views(out@) =~= Seq::<(Seq<char>, Seq<char>, Seq<char>)>::empty());
    while i < ls.len()
        invariant
            0 <= i <= ls@.len(),
            lv == crate::text::views(ls@),
            lv == lines(text@),
            commit_views(out@) == commits_of(lv.take(i as int)),
        decreases ls.len() - i,
    {
        assert(lv.take(i + 1).drop_last() =~= lv.take(i as int));
        assert(lv.take(i + 1).last() == ls@[i as int]@);
        match commit_parts_exec(ls[i].as_slice()) {
            Some(c) => {
                let ghost before = out@;
                out.push(c);
                assert(commit_views(out@) =~= commit_views(before).push(commit_view(c)));
            },
            None => {},
        }
        i = i + 1;
    }
    assert(lv.take(i as int) =~= lv);
    out
}

// ---------------------------------------------------------------------------
// git status --porcelain=v2 --branch
// ---------------------------------------------------------------------------

/// Index of the first white space in `s`, or its length.
pub open spec fn ws_index(s: Seq<char>) -> int
    decreases s.len(),
{
    if s.len() == 0 {
        0
    } else if is_ws(s[0]) {
        0
    } else {
        1 + ws_index(s.drop_first())
    }
}

/// The first white-space separated word of `s` and the text after it.
pub open spec fn first_word(s: Seq<char>) -> Option<(Seq<char>, Seq<char>)> {
    let t = trim_start(s);
    if t.len() == 0 {
        None
    } else {
        Some((t.take(ws_index(t)), t.skip(ws_index(t))))
    }
}

/// `u32::from_str`: an optional `+`, one or more ASCII digits, and a value
/// that fits.
pub open spec fn parse_u32(t: Seq<char>) -> Option<u32> {
    let d = if t.len() > 0 && t[0] == '+' {
        t.skip(1)
    } else {
        t
    };
    match crate::json::digits_u64_spec(d) {
        Some(v) => if v <= u32::MAX {
            Some(v as u32)
        } else {
            None
        },
        None => None,
    }
}

/// A count after a sign: `+3` for `+`, `-2` for `-`.
pub open spec fn signed_count(word: Seq<char>, sign: char) -> Option<u32> {
    if word.len() > 0 && word[0] == sign {
        parse_u32(word.skip(1))
    } else {
        None
    }
}

/// The status counts as plain values.
pub struct StatusView {
    pub branch: Seq<char>,
    pub ahead: int,
    pub behind: int,
    pub staged: int,
    pub unstaged: int,
    pub untracked: int,
}

pub open spec fn starts_with(s: Seq<char>, p: Seq<char>) -> bool {
    crate::text::starts_with(s, p)
}

/// One line of porcelain v2 status output: the branch head, ahead/behind
/// counts, changed entries (`1`/`2`: index column `X` staged, worktree
/// column `Y` unstaged, `.` meaning unchanged, read byte by byte), untracked
/// entries (`?`) and unmerged ones (`u`, both staged and unstaged).
pub open spec fn status_step(s: StatusView, line: Seq<char>) -> StatusView {
    if starts_with(line, "# branch.head "@) {
        StatusView { branch: trim(line.skip(14)), ..s }
    } else if starts_with(line, "# branch.ab "@) {
        let rest = line.skip(12);
        match first_word(rest) {
            None => s,
            Some((w1, after)) => {
                let s1 = match signed_count(w1, '+') {
                    Some(n) => StatusView { ahead: n as int, ..s },
                    None => s,
                };
                match first_word(after) {
                    None => s1,
                    Some((w2, _)) => match signed_count(w2, '-') {
                        Some(n) => StatusView { behind: n as int, ..s1 },
                        None => s1,
                    },
                }
            },
        }
    } else if starts_with(line, "1 "@) || starts_with(line, "2 "@) {
        if line.len() >= 4 || (line.len() == 3 && line[2] as u32 >= 0x80) {
            StatusView {
                staged: s.staged + if line[2] != '.' {
                    1int
                } else {
                    0int
                },
                unstaged: s.unstaged + if (line[2] as u32) >= 0x80 || line[3] != '.' {
                    1int
                } else {
                    0int
                },
                ..s
            }
        } else {
            s
        }
    } else if starts_with(line, "? "@) {
        StatusView { untracked: s.untracked + 1, ..s }
    } else if starts_with(line, "u "@) {
        StatusView { staged: s.staged + 1, unstaged: s.unstaged + 1, ..s }
    } else {
        s
    }
}

pub open spec fn status_fold(ls: Seq<Seq<char>>) -> StatusView
    decreases ls.len(),
{
    if ls.len() == 0 {
        StatusView { branch: Seq::empty(), ahead: 0, behind: 0, staged: 0, unstaged: 0, untracked: 0 }
    } else {
        status_step(status_fold(ls.drop_last()), ls.last())
    }
}

} // verus!

verus! {

proof fn lemma_ws_index(t: Seq<char>, i: int)
    requires
        0 <= i <= t.len(),
        forall|j: int| 0 <= j < i ==> !is_ws(#[trigger] t[j]),
        i == t.len() || is_ws(t[i]),
    ensures
        ws_index(t) == i,
    decreases i,
{
    if i > 0 {
        assert forall|j: int| 0 <= j < i - 1 implies !is_ws(#[trigger] t.drop_first()[j]) by {
            assert(t.drop_first()[j] == t[j + 1]);
        }
        if i < t.len() {
            assert(t.drop_first()[i - 1] == t[i]);
        }
        lemma_ws_index(t.drop_first(), i - 1);
    }
}

fn first_word_exec(s: &[char]) -> (r: Option<(Vec<char>, Vec<char>)>)
    ensures
        match r {
            Some((w, a)) => first_word(s@) == Some((w@, a@)),
            None => first_word(s@) is None,
        },
{
    let t = trim_start_chars(s);
    if t.len() == 0 {
        return None;
    }
    let mut i: usize = 0;
    while i < t.len() && !is_white_space(t[i])
        invariant
            0 <= i <= t@.len(),
            forall|j: int| 0 <= j < i ==> !is_ws(#[trigger] t@[j]),
        decreases t.len() - i,
    {
        i = i + 1;
    }
    proof {
        lemma_ws_index(t@, i as int);
    }
    let w = slice_chars(t.as_slice(), 0, i);
    let a = slice_chars(t.as_slice(), i, t.len());
    assert(w@ == t@.take(i as int));
    assert(a@ == t@.skip(i as int));
    Some((w, a))
}

pub fn parse_u32_exec(t: &[char]) -> (r: Option<u32>)
    ensures
        r == parse_u32(t@),
{
    let d = if t.len() > 0 && t[0] == '+' {
        slice_chars(t, 1, t.len())
    } else {
        crate::text::copy_chars(t)
    };
    assert(d@ == (if t@.len() > 0 && t@[0] == '+' {
        t@.skip(1)
    } else {
        t@
    }));
    match crate::json::digits_u64(d.as_slice()) {
        Some(v) => if v <= u32::MAX as u64 {
            Some(v as u32)
        } else {
            None
        },
        None => None,
    }
}

fn signed_count_exec(word: &[char], sign: char) -> (r: Option<u32>)
    ensures
        r == signed_count(word@, sign),
{
    if word.len() > 0 && word[0] == sign {
        let rest = slice_chars(word, 1, word.len());
        assert(rest@ == word@.skip(1));
        parse_u32_exec(rest.as_slice())
    } else {
        None
    }
}

pub open spec fn status_of(g: GitTelemetry, v: StatusView) -> bool {
    &&& g.branch@ == v.branch
    &&& g.ahead == v.ahead
    &&& g.behind == v.behind
    &&& g.staged == v.staged
    &&& g.unstaged == v.unstaged
    &&& g.untracked == v.untracked
    &&& g.recent_commits@.len() == 0
    &&& g.touched_repos@.len() == 0
}

proof fn lemma_step_bounds(s: StatusView, line: Seq<char>)
    ensures
        status_step(s, line).staged <= s.staged + 1,
        status_step(s, line).unstaged <= s.unstaged + 1,
        status_step(s, line).untracked <= s.untracked + 1,
        status_step(s, line).staged >= s.staged,
        status_step(s, line).unstaged >= s.unstaged,
        status_step(s, line).untracked >= s.untracked,
{
}

/// The branch and the counts of `git status --porcelain=v2 --branch`
/// output (no commits or repositories).
#[verifier::rlimit(40)]
pub fn parse_git_status(text: &str) -> (r: GitTelemetry)
    requires
        lines(text@).len() <= u32::MAX,
    ensures
        status_of(r, status_fold(lines(text@))),
{
    let ls = crate::text::lines_exec(chars_of(text).as_slice());
    let ghost lv = crate::text::views(ls@);
    let mut branch: Vec<char> = Vec::new();
    let mut ahead: u32 = 0;
    let mut behind: u32 = 0;
    let mut staged: u32 = 0;
    let mut unstaged: u32 = 0;
    let mut untracked: u32 = 0;
    let mut i: usize = 0;
    assert(lv.take(0) =~= Seq::<Seq<char>>::empty());
    while i < ls.len()
        invariant
            0 <= i <= ls@.len(),
            lv == crate::text::views(ls@),
            lv == lines(text@),
            ls@.len() <= u32::MAX,
            staged <= i && unstaged <= i && untracked <= i,
            status_fold(lv.take(i as int)) == (StatusView {
                branch: branch@,
                ahead: ahead as int,
                behind: behind as int,
                staged: staged as int,
                unstaged: unstaged as int,
                untracked: untracked as int,
            }),
        decreases ls.len() - i,
    {
        assert(lv.take(i + 1).drop_last() =~= lv.take(i as int));
        assert(lv.take(i + 1).last() == ls@[i as int]@);
        proof {
            lemma_step_bounds(status_fold(lv.take(i as int)), ls@[i as int]@);
        }
        let line = &ls[i];
        if crate::text::starts_with_chars(line.as_slice(), chars_of("# branch.head ").as_slice()) {
            proof {
                reveal_strlit("# branch.head ");
            }
            let rest = slice_chars(line.as_slice(), 14, line.len());
            assert(rest@ == line@.skip(14));
            branch = trim_chars(rest.as_slice());
        } else if crate::text::starts_with_chars(line.as_slice(), chars_of("# branch.ab ").as_slice()) {
            proof {
                reveal_strlit("# branch.ab ");
            }
            let rest = slice_chars(line.as_slice(), 12, line.len());
            assert(rest@ == line@.skip(12));
            match first_word_exec(rest.as_slice()) {
                None => {},
                Some((w1, after)) => {
                    match signed_count_exec(w1.as_slice(), '+') {
                        Some(n) => {
                            ahead = n;
                        },
                        None => {},
                    }
                    match first_word_exec(after.as_slice()) {
                        None => {},
                        Some((w2, _)) => match signed_count_exec(w2.as_slice(), '-') {
                            Some(n) => {
                                behind = n;
                            },
                            None => {},
                        },
                    }
                },
            }
        } else if crate::text::starts_with_chars(line.as_slice(), chars_of("1 ").as_slice())
            || crate::text::starts_with_chars(line.as_slice(), chars_of("2 ").as_slice()) {
            let n = line.len();
            if n >= 4 || (n == 3 && line[2] as u32 >= 0x80) {
                if line[2] != '.' {
                    staged = staged + 1;
                }
                if line[2] as u32 >= 0x80 || line[3] != '.' {
                    unstaged = unstaged + 1;
                }
            }
        } else if crate::text::starts_with_chars(line.as_slice(), chars_of("? ").as_slice()) {
            untracked = untracked + 1;
        } else if crate::text::starts_with_chars(line.as_slice(), chars_of("u ").as_slice()) {
            staged = staged + 1;
            unstaged = unstaged + 1;
        }
        i = i + 1;
    }
    assert(lv.take(i as int) =~= lv);
    GitTelemetry {
        branch: string_of(branch.as_slice()),
        ahead,
        behind,
        staged,
        unstaged,
        untracked,
        recent_commits: Vec::new(),
        touched_repos: Vec::new(),
    }
}

} // verus!

verus! {

// ---------------------------------------------------------------------------
// Session edit trail
// ---------------------------------------------------------------------------

/// The file an `edit` or `write` tool call block names: its `path`
/// argument, or `file_path` when there is no `path` member.
pub open spec fn edit_path(b: Json) -> Option<Seq<char>> {
    if str_of(field(b, "type"@)) != Some("toolCall"@) {
        None
    } else {
        let name = match str_of(field(b, "name"@)) {
            Some(n) => n,
            None => Seq::empty(),
        };
        if name != "edit"@ && name != "write"@ {
            None
        } else {
            match field(b, "arguments"@) {
                None => None,
                Some(a) => match field(a, "path"@) {
                    Some(p) => str_of(Some(p)),
                    None => str_of(field(a, "file_path"@)),
                },
            }
        }
    }
}

pub open spec fn blocks_paths(bs: Seq<Json>) -> Seq<Seq<char>>
    decreases bs.len(),
{
    if bs.len() == 0 {
        Seq::empty()
    } else {
        match edit_path(bs.last()) {
            Some(p) => blocks_paths(bs.drop_last()).push(p),
            None => blocks_paths(bs.drop_last()),
        }
    }
}

/// The files one log line's message edits.
pub open spec fn line_paths(line: Seq<char>) -> Seq<Seq<char>> {
    match crate::json::parsed_json(line) {
        None => Seq::empty(),
        Some(v) => if str_of(field(v, "type"@)) != Some("message"@) {
            Seq::empty()
        } else {
            match field(v, "message"@) {
                Some(m) => match field(m, "content"@) {
                    Some(Json::Array(bs)) => blocks_paths(bs@),
                    _ => Seq::empty(),
                },
                None => Seq::empty(),
            }
        },
    }
}

/// The files a session log's edit and write tool calls name, in order.
pub open spec fn edited_paths(ls: Seq<Seq<char>>) -> Seq<Seq<char>>
    decreases ls.len(),
{
    if ls.len() == 0 {
        Seq::empty()
    } else {
        edited_paths(ls.drop_last()) + line_paths(ls.last())
    }
}

fn str_is(s: &String, t: &str) -> (r: bool)
    ensures
        r == (s@ == t@),
{
    chars_eq(chars_of(s.as_str()).as_slice(), chars_of(t).as_slice())
}

fn edit_path_exec(b: &Json) -> (r: Option<String>)
    ensures
        match r {
            Some(p) => edit_path(*b) == Some(p@),
            None => edit_path(*b) is None,
        },
{
    let is_call = match get_str(b, "type") {
        Some(t) => str_is(t, "toolCall"),
        None => false,
    };
    if !is_call {
        return None;
    }
    let name = match get_str(b, "name") {
        Some(n) => n.clone(),
        None => String::new(),
    };
    if !str_is(&name, "edit") && !str_is(&name, "write") {
        return None;
    }
    match get(b, "arguments") {
        None => None,
        Some(a) => match get(a, "path") {
            Some(p) => match crate::json::as_str(p) {
                Some(s) => Some(s.clone()),
                None => None,
            },
            None => match get_str(a, "file_path") {
                Some(s) => Some(s.clone()),
                None => None,
            },
        },
    }
}

fn push_block_paths(bs: &Vec<Json>, out: &mut Vec<String>)
    ensures
        crate::text::string_views(final(out)@) == crate::text::string_views(old(out)@) + blocks_paths(bs@),
{
    let ghost start = crate::text::string_views(out@);
    let mut i: usize = 0;
    assert(bs@.take(0) =~= Seq::<Json>::empty());
    assert(start + blocks_paths(bs@.take(0)) =~= start);
    while i < bs.len()
        invariant
            0 <= i <= bs@.len(),
            crate::text::string_views(out@) == start + blocks_paths(bs@.take(i as int)),
        decreases bs.len() - i,
    {
        assert(bs@.take(i + 1).drop_last() =~= bs@.take(i as int));
        assert(bs@.take(i + 1).last() == bs@[i as int]);
        match edit_path_exec(&bs[i]) {
            Some(p) => {
                let ghost before = out@;
                out.push(p);
                assert(crate::text::string_views(out@) =~= crate::text::string_views(before).push(p@));
                assert(start + blocks_paths(bs@.take(i + 1)) =~= (start + blocks_paths(
                    bs@.take(i as int),
                )).push(p@));
            },
            None => {},
        }
        i = i + 1;
    }
    assert(bs@.take(i as int) =~= bs@);
}

/// Edited file paths of a session log (edit and write tool calls).
pub fn extract_edited_paths(session_content: &str) -> (r: Vec<String>)
    ensures
        crate::text::string_views(r@) == edited_paths(lines(session_content@)),
{
    let ls = crate::text::lines_exec(chars_of(session_content).as_slice());
    let ghost lv = crate::text::views(ls@);
    let mut out: Vec<String> = Vec::new();
    let mut i: usize = 0;
    assert(lv.take(0) =~= Seq::<Seq<char>>::empty());
    assert(crate::text::string_views(out@) =~= Seq::<Seq<char>>::empty());
    while i < ls.len()
        invariant
            0 <= i <= ls@.len(),
            lv == crate::text::views(ls@),
            lv == lines(session_content@),
            crate::text::string_views(out@) == edited_paths(lv.take(i as int)),
        decreases ls.len() - i,
    {
        assert(lv.take(i + 1).drop_last() =~= lv.take(i as int));
        assert(lv.take(i + 1).last() == ls@[i as int]@);
        let ghost before = crate::text::string_views(out@);
        let s = string_of(ls[i].as_slice());
        match parse_json(s.as_str()) {
            Some(v) => {
                let is_message = match get_str(&v, "type") {
                    Some(t) => str_is(t, "message"),
                    None => false,
                };
                if is_message {
                    match get(&v, "message") {
                        Some(m) => match get_array(m, "content") {
                            Some(bs) => push_block_paths(bs, &mut out),
                            None => {},
                        },
                        None => {},
                    }
                }
            },
            None => {},
        }
        assert(crate::text::string_views(out@) =~= before + line_paths(ls@[i as int]@));
        i = i + 1;
    }
    assert(lv.take(i as int) =~= lv);
    out
}

// ---------------------------------------------------------------------------
// Monorepo ranking
// ---------------------------------------------------------------------------

/// A repository as plain values: name, root, touched files, commits.
pub open spec fn repo_view(r: RepoTelemetry) -> (Seq<char>, Seq<char>, u32, Seq<(Seq<char>, Seq<char>, Seq<char>)>) {
    (r.name@, r.root@, r.touched_files, commit_views(r.recent_commits@))
}

pub open spec fn repo_views(v: Seq<RepoTelemetry>) -> Seq<(Seq<char>, Seq<char>, u32, Seq<(Seq<char>, Seq<char>, Seq<char>)>)> {
    v.map_values(|r: RepoTelemetry| repo_view(r))
}

/// Most touched files first.
pub open spec fn by_touched() -> spec_fn(
    (Seq<char>, Seq<char>, u32, Seq<(Seq<char>, Seq<char>, Seq<char>)>),
    (Seq<char>, Seq<char>, u32, Seq<(Seq<char>, Seq<char>, Seq<char>)>),
) -> bool {
    |a: (Seq<char>, Seq<char>, u32, Seq<(Seq<char>, Seq<char>, Seq<char>)>), b: (Seq<char>, Seq<char>, u32, Seq<(Seq<char>, Seq<char>, Seq<char>)>)| a.2 > b.2
}

fn touched_insert_pos(out: &Vec<RepoTelemetry>, touched: u32) -> (j: usize)
    ensures
        j == crate::sorting::insert_index(
            repo_views(out@),
            (Seq::empty(), Seq::empty(), touched, Seq::empty()),
            by_touched(),
        ),
        j <= out@.len(),
{
    let ghost ov = repo_views(out@);
    let ghost e = (Seq::<char>::empty(), Seq::<char>::empty(), touched, Seq::<(Seq<char>, Seq<char>, Seq<char>)>::empty());
    let mut j: usize = 0;
    assert(ov.skip(0) == ov);
    while j < out.len()
        invariant
            0 <= j <= out@.len(),
            ov == repo_views(out@),
            ov.len() == out@.len(),
            e == (Seq::<char>::empty(), Seq::<char>::empty(), touched, Seq::<(Seq<char>, Seq<char>, Seq<char>)>::empty()),
            crate::sorting::insert_index(ov, e, by_touched()) == j + crate::sorting::insert_index(
                ov.skip(j as int),
                e,
                by_touched(),
            ),
        decreases out.len() - j,
    {
        assert(ov.skip(j as int)[0] == ov[j as int]);
        if touched > out[j].touched_files {
            return j;
        }
        assert(ov.skip(j as int).drop_first() == ov.skip(j + 1));
        j = j + 1;
    }
    j
}

/// Where an element goes depends only on its number of touched files.
proof fn lemma_insert_index_by_touched(s: Seq<(Seq<char>, Seq<char>, u32, Seq<(Seq<char>, Seq<char>, Seq<char>)>)>, a: (Seq<char>, Seq<char>, u32, Seq<(Seq<char>, Seq<char>, Seq<char>)>), b: (Seq<char>, Seq<char>, u32, Seq<(Seq<char>, Seq<char>, Seq<char>)>))
    requires
        a.2 == b.2,
    ensures
        crate::sorting::insert_index(s, a, by_touched()) == crate::sorting::insert_index(s, b, by_touched()),
    decreases s.len(),
{
    if s.len() > 0 {
        lemma_insert_index_by_touched(s.drop_first(), a, b);
    }
}

/// Git telemetry of a monorepo: its nested repositories, most touched by
/// the session first (equal counts keep their order), and no status of its
/// own.
pub fn build_monorepo_telemetry(repos: Vec<RepoTelemetry>) -> (r: GitTelemetry)
    ensures
        r.branch@.len() == 0,
        r.ahead == 0 && r.behind == 0 && r.staged == 0 && r.unstaged == 0 && r.untracked == 0,
        r.recent_commits@.len() == 0,
        repo_views(r.touched_repos@) == insertion_sort(repo_views(repos@), by_touched()),
{
    let ghost all = repos@;
    let ghost tv = repo_views(all);
    let total = repos.len();
    let mut rest = repos;
    let mut out: Vec<RepoTelemetry> = Vec::new();
    let mut i: usize = 0;
    assert(repo_views(out@) =~= Seq::empty());
    assert(tv.take(0) =~= Seq::empty());
    while rest.len() > 0
        invariant
            tv == repo_views(all),
            total == all.len(),
            i + rest@.len() == all.len(),
            rest@ == all.skip(i as int),
            repo_views(out@) == insertion_sort(tv.take(i as int), by_touched()),
        decreases rest.len(),
    {
        let e = rest.remove(0);
        assert(e == all[i as int]);
        assert(rest@ == all.skip(i + 1));
        let ghost ov = repo_views(out@);
        let ghost ev = repo_view(e);
        let j = touched_insert_pos(&out, e.touched_files);
        proof {
            lemma_insert_index_by_touched(
                ov,
                (Seq::empty(), Seq::empty(), e.touched_files, Seq::empty()),
                ev,
            );
            assert(tv.take(i + 1).drop_last() == tv.take(i as int));
            assert(tv.take(i + 1).last() == ev);
        }
        out.insert(j, e);
        assert(repo_views(out@) == ov.insert(j as int, ev));
        i = i + 1;
    }
    assert(tv.take(i as int) == tv);
    GitTelemetry {
        branch: String::new(),
        ahead: 0,
        behind: 0,
        staged: 0,
        unstaged: 0,
        untracked: 0,
        recent_commits: Vec::new(),
        touched_repos: out,
    }
}

// ---------------------------------------------------------------------------
// Repositories the session touched
// ---------------------------------------------------------------------------

/// Position of `root` among the counted roots.
pub open spec fn root_index(c: Seq<(Seq<char>, int)>, root: Seq<char>) -> Option<int>
    decreases c.len(),
{
    if c.len() == 0 {
        None
    } else if c.last().0 == root {
        Some(c.len() - 1)
    } else {
        root_index(c.drop_last(), root)
    }
}

/// Each repository root with the number of edited files under it, in the
/// order the roots first turn up.
pub open spec fn root_counts(roots: Seq<Seq<char>>) -> Seq<(Seq<char>, int)>
    decreases roots.len(),
{
    if roots.len() == 0 {
        Seq::empty()
    } else {
        let c = root_counts(roots.drop_last());
        let r = roots.last();
        match root_index(c, r) {
            Some(i) => c.update(i, (r, c[i].1 + 1)),
            None => c.push((r, 1)),
        }
    }
}

pub open spec fn count_views(v: Seq<(String, u32)>) -> Seq<(Seq<char>, int)> {
    v.map_values(|e: (String, u32)| (e.0@, e.1 as int))
}

proof fn lemma_root_index_found(c: Seq<(Seq<char>, int)>, root: Seq<char>)
    ensures
        root_index(c, root) matches Some(i) ==> 0 <= i < c.len() && c[i].0 == root,
    decreases c.len(),
{
    if c.len() > 0 && c.last().0 != root {
        lemma_root_index_found(c.drop_last(), root);
    }
}

proof fn lemma_root_counts_bounded(roots: Seq<Seq<char>>)
    ensures
        forall|j: int| 0 <= j < root_counts(roots).len() ==> 1 <= #[trigger] root_counts(roots)[j].1 <= roots.len(),
    decreases roots.len(),
{
    if roots.len() > 0 {
        lemma_root_counts_bounded(roots.drop_last());
        lemma_root_index_found(root_counts(roots.drop_last()), roots.last());
    }
}

fn find_root(out: &Vec<(String, u32)>, root: &[char]) -> (r: Option<usize>)
    ensures
        match r {
            Some(i) => root_index(count_views(out@), root@) == Some(i as int),
            None => root_index(count_views(out@), root@) is None,
        },
{
    let ghost ov = count_views(out@);
    let mut k: usize = out.len();
    assert(ov.take(k as int) =~= ov);
    while k > 0
        invariant
            k <= out@.len(),
            ov == count_views(out@),
            root_index(ov, root@) == root_index(ov.take(k as int), root@),
        decreases k,
    {
        assert(ov.take(k as int).last() == ov[k - 1]);
        assert(ov.take(k as int).drop_last() =~= ov.take(k - 1));
        if chars_eq(chars_of(out[k - 1].0.as_str()).as_slice(), root) {
            return Some(k - 1);
        }
        k = k - 1;
    }
    None
}

/// Each repository root with the number of edited files under it (see
/// [`root_counts`]).
pub fn count_roots(roots: &[String]) -> (r: Vec<(String, u32)>)
    requires
        roots@.len() <= u32::MAX,
    ensures
        count_views(r@) == root_counts(crate::text::string_views(roots@)),
{
    let ghost rv = crate::text::string_views(roots@);
    let mut out: Vec<(String, u32)> = Vec::new();
    let mut i: usize = 0;
    while i < roots.len()
        invariant
            0 <= i <= roots@.len(),
            roots@.len() <= u32::MAX,
            rv == crate::text::string_views(roots@),
            count_views(out@) == root_counts(rv.take(i as int)),
        decreases roots.len() - i,
    {
        let ghost before = count_views(out@);
        let r = chars_of(roots[i].as_str());
        assert(rv.take(i + 1).drop_last() =~= rv.take(i as int));
        assert(rv.take(i + 1).last() == r@);
        proof {
            lemma_root_counts_bounded(rv.take(i as int));
            lemma_root_index_found(before, r@);
        }
        match find_root(&out, r.as_slice()) {
            Some(k) => {
                let n = out[k].1;
                let name = crate::text::to_string(out[k].0.as_str());
                out.set(k, (name, n + 1));
                assert(count_views(out@) =~= before.update(k as int, (r@, before[k as int].1 + 1)));
            },
            None => {
                out.push((string_of(r.as_slice()), 1));
                assert(count_views(out@) =~= before.push((r@, 1)));
            },
        }
        i = i + 1;
    }
    assert(rv.take(i as int) =~= rv);
    out
}

} // verus!

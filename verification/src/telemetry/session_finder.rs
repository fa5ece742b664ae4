//! Finding pi's session logs: the directory pi keeps a working directory's
//! sessions in, and the newest log among a directory's files.
use crate::text::{chars_of, contains, ends_with, string_of};
use vstd::prelude::*;

verus! {

/// A file of a sessions directory: its name, and its modification time in
/// nanoseconds from the Unix epoch (`None` where the platform gives none).
pub struct SessionFile {
    pub name: String,
    pub mtime_ns: Option<i128>,
}

/// The directory name pi uses for a working directory's sessions: `--`,
/// the path with `:`, `\` and `/` turned into `-`, then `--`.
pub open spec fn spec_session_dir_slug(cwd: Seq<char>) -> Seq<char> {
    "--"@ + cwd.map_values(|c: char| if c == ':' || c == '\\' || c == '/' { '-' } else { c }) + "--"@
}

/// The sessions directory name for a working directory.
pub fn session_dir_slug(cwd: &str) -> (r: String)
    ensures
        r@ == spec_session_dir_slug(cwd@),
{
    let cs = chars_of(cwd);
    let mut out: Vec<char> = Vec::new();
    out.push('-');
    out.push('-');
    let mut i: usize = 0;
    let ghost m = cs@.map_values(|c: char| if c == ':' || c == '\\' || c == '/' { '-' } else { c });
    while i < cs.len()
        invariant
            0 <= i <= cs@.len(),
            cs@ == cwd@,
            m == cs@.map_values(|c: char| if c == ':' || c == '\\' || c == '/' { '-' } else { c }),
            out@ == seq!['-', '-'] + m.take(i as int),
        decreases cs.len() - i,
    {
        let c = cs[i];
        out.push(if c == ':' || c == '\\' || c == '/' {
            '-'
        } else {
            c
        });
        i = i + 1;
        assert(out@ =~= seq!['-', '-'] + m.take(i as int));
    }
    out.push('-');
    out.push('-');
    proof {
        reveal_strlit("--");
    }
    assert(m.take(i as int) =~= m);
    assert(out@ =~= spec_session_dir_slug(cwd@));
    string_of(out.as_slice())
}

/// The file is a session log for the id: a `.jsonl` whose name holds it.
pub open spec fn is_session_log(f: SessionFile, session_id: Seq<char>) -> bool {
    ends_with(f.name@, ".jsonl"@) && contains(f.name@, session_id)
}

/// The newest session log among the first `n` files: `Some(Some(i))` for
/// file `i` (the first of equal times wins), `Some(None)` for none, `None`
/// when a matching file has no modification time.
pub open spec fn newest_log(fs: Seq<SessionFile>, session_id: Seq<char>, n: int) -> Option<Option<int>>
    decreases n,
{
    if n <= 0 {
        Some(None)
    } else {
        match newest_log(fs, session_id, n - 1) {
            None => None,
            Some(best) => if is_session_log(fs[n - 1], session_id) {
                match fs[n - 1].mtime_ns {
                    None => None,
                    Some(t) => match best {
                        None => Some(Some(n - 1)),
                        Some(b) => if t > fs[b].mtime_ns->0 {
                            Some(Some(n - 1))
                        } else {
                            Some(Some(b))
                        },
                    },
                }
            } else {
                Some(best)
            },
        }
    }
}

/// Index of the newest session log for the id among a directory's files
/// (see [`newest_log`]); an empty id matches every `.jsonl` file.
pub fn newest_session_in(files: &[SessionFile], session_id: &str) -> (r: Option<Option<usize>>)
    ensures
        match (r, newest_log(files@, session_id@, files@.len() as int)) {
            (Some(Some(i)), Some(Some(j))) => i == j,
            (Some(None), Some(None)) => true,
            (None, None) => true,
            _ => false,
        },
{
    let sid = chars_of(session_id);
    let ext = chars_of(".jsonl");
    let mut best: Option<usize> = None;
    let mut i: usize = 0;
    while i < files.len()
        invariant
            0 <= i <= files@.len(),
            sid@ == session_id@,
            ext@ == ".jsonl"@,
            newest_log(files@, session_id@, i as int) == Some(
                match best {
                    Some(b) => Some(b as int),
                    None => None,
                },
            ),
            best matches Some(b) ==> b < i && files@[b as int].mtime_ns is Some,
        decreases files.len() - i,
    {
        let name = chars_of(files[i].name.as_str());
        if crate::text::ends_with_chars(name.as_slice(), ext.as_slice())
            && crate::text::contains_chars(name.as_slice(), sid.as_slice()) {
            match files[i].mtime_ns {
                None => {
                    proof {
                        lemma_newest_stays_none(files@, session_id@, i + 1, files@.len() as int);
                    }
                    return None;
                },
                Some(t) => match best {
                    None => {
                        best = Some(i);
                    },
                    Some(b) => {
                        let bt = match files[b].mtime_ns {
                            Some(x) => x,
                            None => 0,
                        };
                        if t > bt {
                            best = Some(i);
                        }
                    },
                },
            }
        }
        i = i + 1;
    }
    Some(best)
}

proof fn lemma_newest_stays_none(fs: Seq<SessionFile>, sid: Seq<char>, k: int, n: int)
    requires
        0 <= k <= n,
        newest_log(fs, sid, k) is None,
    ensures
        newest_log(fs, sid, n) is None,
    decreases n - k,
{
    if k < n {
        lemma_newest_stays_none(fs, sid, k, n - 1);
    }
}

/// The newest of the first `n` times; entries without a time are passed
/// over and of equal times the first wins.
pub open spec fn newest_time(ts: Seq<Option<i128>>, n: int) -> Option<int>
    decreases n,
{
    if n <= 0 {
        None
    } else {
        let best = newest_time(ts, n - 1);
        match ts[n - 1] {
            None => best,
            Some(t) => match best {
                None => Some(n - 1),
                Some(b) => if t > ts[b]->0 {
                    Some(n - 1)
                } else {
                    Some(b)
                },
            },
        }
    }
}

proof fn lemma_newest_time_has_time(ts: Seq<Option<i128>>, n: int)
    requires
        0 <= n <= ts.len(),
    ensures
        newest_time(ts, n) matches Some(b) ==> 0 <= b < n && ts[b] is Some,
    decreases n,
{
    if n > 0 {
        lemma_newest_time_has_time(ts, n - 1);
    }
}

/// Index of the newest of the session logs found in each project folder
/// (see [`newest_time`]).
pub fn newest_index(times: &[Option<i128>]) -> (r: Option<usize>)
    ensures
        match r {
            Some(i) => newest_time(times@, times@.len() as int) == Some(i as int),
            None => newest_time(times@, times@.len() as int) is None,
        },
{
    let mut best: Option<usize> = None;
    let mut i: usize = 0;
    while i < times.len()
        invariant
            0 <= i <= times@.len(),
            newest_time(times@, i as int) == (match best {
                Some(b) => Some(b as int),
                None => None,
            }),
        decreases times.len() - i,
    {
        proof {
            lemma_newest_time_has_time(times@, i as int);
        }
        match times[i] {
            None => {},
            Some(t) => match best {
                None => {
                    best = Some(i);
                },
                Some(b) => {
                    let bt = match times[b] {
                        Some(x) => x,
                        None => 0,
                    };
                    if t > bt {
                        best = Some(i);
                    }
                },
            },
        }
        i = i + 1;
    }
    best
}

} // verus!

//! The external editor for a SPAI note file (`E`): parsing of the
//! `$VISUAL` / `$EDITOR` value into a program and its arguments.
use crate::text::{
    chars_of, concat_chars, is_white_space, is_ws, join, join_strings, string_of, string_views,
};
use vstd::prelude::*;

verus! {

#[derive(Debug, Clone)]
pub struct EditorCommand {
    pub program: String,
    pub args: Vec<String>,
}

/// State of the argument splitter: the finished words, the word being
/// read, and the quote char it is inside of.
pub struct SplitState {
    pub words: Seq<Seq<char>>,
    pub current: Seq<char>,
    pub quote: Option<char>,
}

/// One char of the splitter: inside quotes everything but the closing
/// quote is kept; outside, a quote opens, white space ends a word, and any
/// other char is kept.
pub open spec fn split_step(st: SplitState, c: char) -> SplitState {
    match st.quote {
        Some(q) => if c == q {
            SplitState { quote: None, ..st }
        } else {
            SplitState { current: st.current.push(c), ..st }
        },
        None => if c == '"' || c == '\'' {
            SplitState { quote: Some(c), ..st }
        } else if is_ws(c) {
            if st.current.len() > 0 {
                SplitState { words: st.words.push(st.current), current: Seq::empty(), ..st }
            } else {
                st
            }
        } else {
            SplitState { current: st.current.push(c), ..st }
        },
    }
}

pub open spec fn split_fold(s: Seq<char>) -> SplitState
    decreases s.len(),
{
    if s.len() == 0 {
        SplitState { words: Seq::empty(), current: Seq::empty(), quote: None }
    } else {
        split_step(split_fold(s.drop_last()), s.last())
    }
}

/// The words of a shell-ish command line (quotes group, and are dropped).
pub open spec fn spec_split_args(s: Seq<char>) -> Seq<Seq<char>> {
    let st = split_fold(s);
    if st.current.len() > 0 {
        st.words.push(st.current)
    } else {
        st.words
    }
}

/// `(program, args)` of an editor value, when it has a word.
pub open spec fn spec_parse_editor(value: Seq<char>) -> Option<(Seq<char>, Seq<Seq<char>>)> {
    let parts = spec_split_args(value);
    if value.len() == 0 || parts.len() == 0 {
        None
    } else {
        Some((parts[0], parts.drop_first()))
    }
}

impl EditorCommand {
    /// The command as one line: the program, then the arguments, separated
    /// by single spaces.
    pub fn display(&self) -> (r: String)
        ensures
            r@ == (if self.args@.len() == 0 {
                self.program@
            } else {
                self.program@ + " "@ + join(string_views(self.args@), " "@)
            }),
    {
        if self.args.len() == 0 {
            self.program.clone()
        } else {
            let p = chars_of(self.program.as_str());
            let a = concat_chars(p.as_slice(), chars_of(" ").as_slice());
            let j = join_strings(&self.args, chars_of(" ").as_slice());
            let r = concat_chars(a.as_slice(), j.as_slice());
            string_of(r.as_slice())
        }
    }
}

/// Parses a shell-ish editor string into program and arguments (quotes
/// group words); `None` when it has no word.
pub fn parse_editor(value: &str) -> (r: Option<EditorCommand>)
    ensures
        match (r, spec_parse_editor(value@)) {
            (Some(c), Some((p, a))) => c.program@ == p && string_views(c.args@) == a,
            (None, None) => true,
            _ => false,
        },
{
    let v = chars_of(value);
    if v.len() == 0 {
        return None;
    }
    let mut parts = split_args(v.as_slice());
    if parts.len() == 0 {
        return None;
    }
    let ghost all = parts@;
    let program = parts.remove(0);
    assert(string_views(parts@) == string_views(all).drop_first());
    Some(EditorCommand { program, args: parts })
}

fn split_args(v: &[char]) -> (r: Vec<String>)
    ensures
        string_views(r@) == spec_split_args(v@),
{
    let mut out: Vec<String> = Vec::new();
    let mut current: Vec<char> = Vec::new();
    let mut quote: Option<char> = None;
    let mut i: usize = 0;
    assert(string_views(out@) =~= Seq::<Seq<char>>::empty());
    assert(v@.take(0) =~= Seq::<char>::empty());
    while i < v.len()
        invariant
            0 <= i <= v.len(),
            split_fold(v@.take(i as int)) == (SplitState {
                words: string_views(out@),
                current: current@,
                quote,
            }),
        decreases v.len() - i,
    {
        let c = v[i];
        assert(v@.take(i + 1).drop_last() == v@.take(i as int));
        match quote {
            Some(q) => {
                if c == q {
                    quote = None;
                } else {
                    current.push(c);
                }
            },
            None => {
                if c == '"' || c == '\'' {
                    quote = Some(c);
                } else if is_white_space(c) {
                    if current.len() > 0 {
                        let ghost before = out@;
                        out.push(string_of(current.as_slice()));
                        assert(string_views(out@) == string_views(before).push(current@));
                        current = Vec::new();
                    }
                } else {
                    current.push(c);
                }
            },
        }
        i = i + 1;
    }
    assert(v@.take(v.len() as int) == v@);
    if current.len() > 0 {
        let ghost before = out@;
        out.push(string_of(current.as_slice()));
        assert(string_views(out@) == string_views(before).push(current@));
    }
    out
}

pub open spec fn command_view(c: Option<EditorCommand>) -> Option<(Seq<char>, Seq<Seq<char>>)> {
    match c {
        Some(c) => Some((c.program@, string_views(c.args@))),
        None => None,
    }
}

/// The editor the environment names: `$VISUAL`, else `$EDITOR`, each
/// trimmed and used when it has a word.
pub open spec fn spec_editor_from_env(visual: Option<Seq<char>>, editor: Option<Seq<char>>) -> Option<
    (Seq<char>, Seq<Seq<char>>),
> {
    let v = match visual {
        Some(x) => spec_parse_editor(crate::text::trim(x)),
        None => None,
    };
    if v is Some {
        v
    } else {
        match editor {
            Some(x) => spec_parse_editor(crate::text::trim(x)),
            None => None,
        }
    }
}

fn parse_trimmed(value: &str) -> (r: Option<EditorCommand>)
    ensures
        command_view(r) == spec_parse_editor(crate::text::trim(value@)),
{
    let t = string_of(crate::text::trim_chars(chars_of(value).as_slice()).as_slice());
    let r = parse_editor(t.as_str());
    match r {
        Some(c) => Some(c),
        None => None,
    }
}

/// The editor `$VISUAL` or `$EDITOR` names (see [`spec_editor_from_env`]).
pub fn editor_from_env(visual: Option<&str>, editor: Option<&str>) -> (r: Option<EditorCommand>)
    ensures
        command_view(r) == spec_editor_from_env(
            match visual {
                Some(x) => Some(x@),
                None => None,
            },
            match editor {
                Some(x) => Some(x@),
                None => None,
            },
        ),
{
    match visual {
        Some(v) => {
            let c = parse_trimmed(v);
            if c.is_some() {
                return c;
            }
        },
        None => {},
    }
    match editor {
        Some(e) => parse_trimmed(e),
        None => None,
    }
}

/// The editor used when the environment names none: Notepad on Windows;
/// elsewhere the first of `nano`, `vim`, `vi` found on the `PATH`.
pub fn platform_default_editor(windows: bool, has_nano: bool, has_vim: bool, has_vi: bool) -> (r:
    Option<EditorCommand>)
    ensures
        command_view(r) == (if windows {
            Some(("notepad"@, Seq::<Seq<char>>::empty()))
        } else if has_nano {
            Some(("nano"@, Seq::<Seq<char>>::empty()))
        } else if has_vim {
            Some(("vim"@, Seq::<Seq<char>>::empty()))
        } else if has_vi {
            Some(("vi"@, Seq::<Seq<char>>::empty()))
        } else {
            None
        }),
{
    let program = if windows {
        "notepad"
    } else if has_nano {
        "nano"
    } else if has_vim {
        "vim"
    } else if has_vi {
        "vi"
    } else {
        return None;
    };
    let args: Vec<String> = Vec::new();
    let r = EditorCommand { program: crate::text::to_string(program), args };
    assert(string_views(r.args@) =~= Seq::<Seq<char>>::empty());
    Some(r)
}

} // verus!

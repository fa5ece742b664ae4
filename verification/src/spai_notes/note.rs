//! SPAI data types and prefix definitions.
use crate::text::{
    chars_eq, chars_of, starts_with, starts_with_chars, trim, trim_chars, trim_start,
    text_lowercase, trim_start_chars, unicode_lower_chars, is_lower, upper_seq, lemma_lower_word,
    lemma_trim_padded, lemma_trim_start_after_ws, is_ws,
};
use vstd::prelude::*;

verus! {

#[derive(Debug, Clone, Copy, PartialEq, Eq, Structural)]
pub enum SpaiType {
    Todo,
    Idea,
    Note,
}

impl SpaiType {
    /// Name written to the `type:` frontmatter key.
    pub open spec fn name(self) -> Seq<char> {
        match self {
            SpaiType::Todo => "Todo"@,
            SpaiType::Idea => "Idea"@,
            SpaiType::Note => "Note"@,
        }
    }

    /// Type read back from a frontmatter value: case- and space-insensitive,
    /// anything unknown is a todo.
    pub open spec fn parse(s: Seq<char>) -> SpaiType {
        let k = text_lowercase(trim(s));
        if k == "idea"@ {
            SpaiType::Idea
        } else if k == "note"@ {
            SpaiType::Note
        } else {
            SpaiType::Todo
        }
    }

    pub fn as_str(&self) -> (r: &'static str)
        ensures
            r@ == self.name(),
    {
        match self {
            SpaiType::Todo => "Todo",
            SpaiType::Idea => "Idea",
            SpaiType::Note => "Note",
        }
    }

    pub fn from_str(s: &str) -> (r: Self)
        ensures
            r == Self::parse(s@),
    {
        let v = chars_of(s);
        let t = trim_chars(v.as_slice());
        let k = unicode_lower_chars(t.as_slice());
        if chars_eq(k.as_slice(), chars_of("idea").as_slice()) {
            SpaiType::Idea
        } else if chars_eq(k.as_slice(), chars_of("note").as_slice()) {
            SpaiType::Note
        } else {
            SpaiType::Todo
        }
    }
}

#[derive(Debug, Clone, Copy, PartialEq, Eq, Structural)]
pub enum SpaiStatus {
    Todo,
    Working,
    Waiting,
    Done,
    Cancelled,
    Idea,
    Note,
    Inbox,
}

impl SpaiStatus {
    /// Name written to the `status:` frontmatter key.
    pub open spec fn name(self) -> Seq<char> {
        match self {
            SpaiStatus::Todo => "todo"@,
            SpaiStatus::Working => "working"@,
            SpaiStatus::Waiting => "waiting"@,
            SpaiStatus::Done => "done"@,
            SpaiStatus::Cancelled => "cancelled"@,
            SpaiStatus::Idea => "idea"@,
            SpaiStatus::Note => "note"@,
            SpaiStatus::Inbox => "inbox"@,
        }
    }

    /// Status read back from a frontmatter value: case- and space-insensitive,
    /// both spellings of cancelled, anything unknown is todo.
    pub open spec fn parse(s: Seq<char>) -> SpaiStatus {
        let k = text_lowercase(trim(s));
        if k == "working"@ {
            SpaiStatus::Working
        } else if k == "waiting"@ {
            SpaiStatus::Waiting
        } else if k == "done"@ {
            SpaiStatus::Done
        } else if k == "cancelled"@ || k == "canceled"@ {
            SpaiStatus::Cancelled
        } else if k == "idea"@ {
            SpaiStatus::Idea
        } else if k == "note"@ {
            SpaiStatus::Note
        } else if k == "inbox"@ {
            SpaiStatus::Inbox
        } else {
            SpaiStatus::Todo
        }
    }

    /// The status the `s` shortcut moves to.
    pub open spec fn spec_next(self) -> SpaiStatus {
        match self {
            SpaiStatus::Todo => SpaiStatus::Working,
            SpaiStatus::Working => SpaiStatus::Waiting,
            SpaiStatus::Waiting => SpaiStatus::Done,
            SpaiStatus::Done => SpaiStatus::Cancelled,
            _ => SpaiStatus::Todo,
        }
    }

    /// The short SPAI marker of the status.
    pub open spec fn spec_symbol(self) -> Seq<char> {
        match self {
            SpaiStatus::Todo => "."@,
            SpaiStatus::Working => "/"@,
            SpaiStatus::Waiting => "/."@,
            SpaiStatus::Done => "x"@,
            SpaiStatus::Cancelled => "z"@,
            SpaiStatus::Idea => "?"@,
            SpaiStatus::Note => "-"@,
            SpaiStatus::Inbox => "-"@,
        }
    }

    /// The bracketed glyph shown in lists.
    pub open spec fn spec_glyph(self) -> Seq<char> {
        match self {
            SpaiStatus::Todo => "[.]"@,
            SpaiStatus::Working => "[/]"@,
            SpaiStatus::Waiting => "[/.]"@,
            SpaiStatus::Done => "[x]"@,
            SpaiStatus::Cancelled => "[z]"@,
            SpaiStatus::Idea => "[?]"@,
            SpaiStatus::Note => "[-]"@,
            SpaiStatus::Inbox => "[#]"@,
        }
    }

    pub fn as_str(&self) -> (r: &'static str)
        ensures
            r@ == self.name(),
    {
        match self {
            SpaiStatus::Todo => "todo",
            SpaiStatus::Working => "working",
            SpaiStatus::Waiting => "waiting",
            SpaiStatus::Done => "done",
            SpaiStatus::Cancelled => "cancelled",
            SpaiStatus::Idea => "idea",
            SpaiStatus::Note => "note",
            SpaiStatus::Inbox => "inbox",
        }
    }

    pub fn from_str(s: &str) -> (r: Self)
        ensures
            r == Self::parse(s@),
    {
        let v = chars_of(s);
        let t = trim_chars(v.as_slice());
        let k = unicode_lower_chars(t.as_slice());
        let k = k.as_slice();
        if chars_eq(k, chars_of("working").as_slice()) {
            SpaiStatus::Working
        } else if chars_eq(k, chars_of("waiting").as_slice()) {
            SpaiStatus::Waiting
        } else if chars_eq(k, chars_of("done").as_slice()) {
            SpaiStatus::Done
        } else if chars_eq(k, chars_of("cancelled").as_slice()) || chars_eq(
            k,
            chars_of("canceled").as_slice(),
        ) {
            SpaiStatus::Cancelled
        } else if chars_eq(k, chars_of("idea").as_slice()) {
            SpaiStatus::Idea
        } else if chars_eq(k, chars_of("note").as_slice()) {
            SpaiStatus::Note
        } else if chars_eq(k, chars_of("inbox").as_slice()) {
            SpaiStatus::Inbox
        } else {
            SpaiStatus::Todo
        }
    }

    pub fn next_cycle(&self) -> (r: Self)
        ensures
            r == self.spec_next(),
    {
        match self {
            SpaiStatus::Todo => SpaiStatus::Working,
            SpaiStatus::Working => SpaiStatus::Waiting,
            SpaiStatus::Waiting => SpaiStatus::Done,
            SpaiStatus::Done => SpaiStatus::Cancelled,
            SpaiStatus::Cancelled => SpaiStatus::Todo,
            SpaiStatus::Idea => SpaiStatus::Todo,
            SpaiStatus::Note | SpaiStatus::Inbox => SpaiStatus::Todo,
        }
    }

    pub fn symbol(&self) -> (r: &'static str)
        ensures
            r@ == self.spec_symbol(),
    {
        match self {
            SpaiStatus::Todo => ".",
            SpaiStatus::Working => "/",
            SpaiStatus::Waiting => "/.",
            SpaiStatus::Done => "x",
            SpaiStatus::Cancelled => "z",
            SpaiStatus::Idea => "?",
            SpaiStatus::Note | SpaiStatus::Inbox => "-",
        }
    }

    pub fn glyph(&self) -> (r: &'static str)
        ensures
            r@ == self.spec_glyph(),
    {
        match self {
            SpaiStatus::Todo => "[.]",
            SpaiStatus::Working => "[/]",
            SpaiStatus::Waiting => "[/.]",
            SpaiStatus::Done => "[x]",
            SpaiStatus::Cancelled => "[z]",
            SpaiStatus::Idea => "[?]",
            SpaiStatus::Note => "[-]",
            SpaiStatus::Inbox => "[#]",
        }
    }
}

/// The status cycle visits every task status and comes back: four steps from
/// todo lead through working, waiting, done and cancelled to todo again.
pub proof fn lemma_status_cycle(s: SpaiStatus)
    requires
        s == SpaiStatus::Todo || s == SpaiStatus::Working || s == SpaiStatus::Waiting || s
            == SpaiStatus::Done || s == SpaiStatus::Cancelled,
    ensures
        s.spec_next().spec_next().spec_next().spec_next().spec_next() == s,
{
}

#[derive(Debug, Clone)]
pub struct SpaiFacets {
    pub project: Option<String>,
    pub project_path: Option<String>,
    pub priority: Option<String>,
    pub deadline: Option<String>,
}

/// One SPAI note as read from (and written to) its markdown file.
#[derive(Debug, Clone)]
pub struct SpaiNoteItem {
    pub id: String,
    pub title: String,
    pub kind: SpaiType,
    pub status: SpaiStatus,
    pub symbol: String,
    pub timestamp: String,
    pub tags: Vec<String>,
    pub facets: SpaiFacets,
    pub body: String,
    /// Path of the note's markdown file.
    pub file_path: String,
    pub file_name: String,
}

/// The SPAI prefix a raw line starts with (after leading white space), with
/// the type and status it stands for.
pub open spec fn spec_spai_prefix(line: Seq<char>) -> Option<(Seq<char>, SpaiType, SpaiStatus)> {
    let t = trim_start(line);
    if starts_with(t, "/. "@) {
        Some(("/."@, SpaiType::Todo, SpaiStatus::Waiting))
    } else if starts_with(t, ". "@) {
        Some(("."@, SpaiType::Todo, SpaiStatus::Todo))
    } else if starts_with(t, "/ "@) {
        Some(("/"@, SpaiType::Todo, SpaiStatus::Working))
    } else if starts_with(t, "x "@) || starts_with(t, "X "@) {
        Some(("x"@, SpaiType::Todo, SpaiStatus::Done))
    } else if starts_with(t, "z "@) || starts_with(t, "Z "@) {
        Some(("z"@, SpaiType::Todo, SpaiStatus::Cancelled))
    } else if starts_with(t, "? "@) {
        Some(("?"@, SpaiType::Idea, SpaiStatus::Idea))
    } else if starts_with(t, "- "@) {
        Some(("-"@, SpaiType::Note, SpaiStatus::Note))
    } else {
        None
    }
}

/// Matches standard SPAI prefix on raw lines (. / /. x z ? -)
pub fn parse_spai_prefix(line: &str) -> (r: Option<(&'static str, SpaiType, SpaiStatus)>)
    ensures
        match (r, spec_spai_prefix(line@)) {
            (Some((p, k, s)), Some((q, k2, s2))) => p@ == q && k == k2 && s == s2,
            (None, None) => true,
            _ => false,
        },
{
    let v = chars_of(line);
    let t = trim_start_chars(v.as_slice());
    let t = t.as_slice();
    if starts_with_chars(t, chars_of("/. ").as_slice()) {
        Some(("/.", SpaiType::Todo, SpaiStatus::Waiting))
    } else if starts_with_chars(t, chars_of(". ").as_slice()) {
        Some((".", SpaiType::Todo, SpaiStatus::Todo))
    } else if starts_with_chars(t, chars_of("/ ").as_slice()) {
        Some(("/", SpaiType::Todo, SpaiStatus::Working))
    } else if starts_with_chars(t, chars_of("x ").as_slice()) || starts_with_chars(
        t,
        chars_of("X ").as_slice(),
    ) {
        Some(("x", SpaiType::Todo, SpaiStatus::Done))
    } else if starts_with_chars(t, chars_of("z ").as_slice()) || starts_with_chars(
        t,
        chars_of("Z ").as_slice(),
    ) {
        Some(("z", SpaiType::Todo, SpaiStatus::Cancelled))
    } else if starts_with_chars(t, chars_of("? ").as_slice()) {
        Some(("?", SpaiType::Idea, SpaiStatus::Idea))
    } else if starts_with_chars(t, chars_of("- ").as_slice()) {
        Some(("-", SpaiType::Note, SpaiStatus::Note))
    } else {
        None
    }
}

proof fn lemma_word_todo()
    ensures
        forall|i: int| 0 <= i < "todo"@.len() ==> is_lower(#[trigger] "todo"@[i]),
        "todo"@.len() == 4,
{
    reveal_strlit("todo");
    assert forall|i: int| 0 <= i < "todo"@.len() implies is_lower(#[trigger] "todo"@[i]) by {
        if i == 0 {} else if i == 1 {} else if i == 2 {} else if i == 3 {}
    }
}

proof fn lemma_word_working()
    ensures
        forall|i: int| 0 <= i < "working"@.len() ==> is_lower(#[trigger] "working"@[i]),
        "working"@.len() == 7,
{
    reveal_strlit("working");
    assert forall|i: int| 0 <= i < "working"@.len() implies is_lower(#[trigger] "working"@[i]) by {
        if i == 0 {} else if i == 1 {} else if i == 2 {} else if i == 3 {} else if i == 4 {} else if i == 5 {} else if i == 6 {}
    }
}

proof fn lemma_word_waiting()
    ensures
        forall|i: int| 0 <= i < "waiting"@.len() ==> is_lower(#[trigger] "waiting"@[i]),
        "waiting"@.len() == 7,
{
    reveal_strlit("waiting");
    assert forall|i: int| 0 <= i < "waiting"@.len() implies is_lower(#[trigger] "waiting"@[i]) by {
        if i == 0 {} else if i == 1 {} else if i == 2 {} else if i == 3 {} else if i == 4 {} else if i == 5 {} else if i == 6 {}
    }
}

proof fn lemma_word_done()
    ensures
        forall|i: int| 0 <= i < "done"@.len() ==> is_lower(#[trigger] "done"@[i]),
        "done"@.len() == 4,
{
    reveal_strlit("done");
    assert forall|i: int| 0 <= i < "done"@.len() implies is_lower(#[trigger] "done"@[i]) by {
        if i == 0 {} else if i == 1 {} else if i == 2 {} else if i == 3 {}
    }
}

proof fn lemma_word_cancelled()
    ensures
        forall|i: int| 0 <= i < "cancelled"@.len() ==> is_lower(#[trigger] "cancelled"@[i]),
        "cancelled"@.len() == 9,
{
    reveal_strlit("cancelled");
    assert forall|i: int| 0 <= i < "cancelled"@.len() implies is_lower(#[trigger] "cancelled"@[i]) by {
        if i == 0 {} else if i == 1 {} else if i == 2 {} else if i == 3 {} else if i == 4 {} else if i == 5 {} else if i == 6 {} else if i == 7 {} else if i == 8 {}
    }
}

proof fn lemma_word_idea()
    ensures
        forall|i: int| 0 <= i < "idea"@.len() ==> is_lower(#[trigger] "idea"@[i]),
        "idea"@.len() == 4,
{
    reveal_strlit("idea");
    assert forall|i: int| 0 <= i < "idea"@.len() implies is_lower(#[trigger] "idea"@[i]) by {
        if i == 0 {} else if i == 1 {} else if i == 2 {} else if i == 3 {}
    }
}

proof fn lemma_word_note()
    ensures
        forall|i: int| 0 <= i < "note"@.len() ==> is_lower(#[trigger] "note"@[i]),
        "note"@.len() == 4,
{
    reveal_strlit("note");
    assert forall|i: int| 0 <= i < "note"@.len() implies is_lower(#[trigger] "note"@[i]) by {
        if i == 0 {} else if i == 1 {} else if i == 2 {} else if i == 3 {}
    }
}

proof fn lemma_word_inbox()
    ensures
        forall|i: int| 0 <= i < "inbox"@.len() ==> is_lower(#[trigger] "inbox"@[i]),
        "inbox"@.len() == 5,
{
    reveal_strlit("inbox");
    assert forall|i: int| 0 <= i < "inbox"@.len() implies is_lower(#[trigger] "inbox"@[i]) by {
        if i == 0 {} else if i == 1 {} else if i == 2 {} else if i == 3 {} else if i == 4 {}
    }
}

proof fn lemma_word_canceled()
    ensures
        forall|i: int| 0 <= i < "canceled"@.len() ==> is_lower(#[trigger] "canceled"@[i]),
        "canceled"@.len() == 8,
{
    reveal_strlit("canceled");
    assert forall|i: int| 0 <= i < "canceled"@.len() implies is_lower(#[trigger] "canceled"@[i]) by {
        if i == 0 {} else if i == 1 {} else if i == 2 {} else if i == 3 {} else if i == 4 {} else if i == 5 {} else if i == 6 {} else if i == 7 {}
    }
}

/// Every status name reads back as its status, in any ASCII case and with
/// white space around it; `canceled` reads as cancelled too.
pub proof fn lemma_status_names_read_back(x: SpaiStatus)
    ensures
        SpaiStatus::parse(x.name()) == x,
        SpaiStatus::parse(" "@ + upper_seq(x.name()) + " "@) == x,
        SpaiStatus::parse("canceled"@) == SpaiStatus::Cancelled,
{
    reveal_strlit("todo");
    reveal_strlit("working");
    reveal_strlit("waiting");
    reveal_strlit("done");
    reveal_strlit("cancelled");
    reveal_strlit("idea");
    reveal_strlit("note");
    reveal_strlit("inbox");
    reveal_strlit("canceled");
    lemma_word_canceled();
    lemma_lower_word("canceled"@);
    lemma_trim_padded("canceled"@);
    let w = x.name();
    match x {
        SpaiStatus::Todo => lemma_word_todo(),
        SpaiStatus::Working => lemma_word_working(),
        SpaiStatus::Waiting => lemma_word_waiting(),
        SpaiStatus::Done => lemma_word_done(),
        SpaiStatus::Cancelled => lemma_word_cancelled(),
        SpaiStatus::Idea => lemma_word_idea(),
        SpaiStatus::Note => lemma_word_note(),
        SpaiStatus::Inbox => lemma_word_inbox(),
    }
    lemma_lower_word(w);
    lemma_trim_padded(w);
    lemma_trim_padded(upper_seq(w));
    assert(text_lowercase(trim(w)) == w);
    assert(text_lowercase(trim(" "@ + upper_seq(w) + " "@)) == w);
    let names = seq!["working"@, "waiting"@, "done"@, "cancelled"@, "canceled"@, "idea"@, "note"@, "inbox"@];
    assert forall|i: int, j: int| 0 <= i < j < names.len() implies names[i] != names[j] by {
        if names[i] == names[j] {
            assert(names[i].len() == names[j].len());
            assert(names[i][0] == names[j][0]);
            assert(names[i][1] == names[j][1]);
        }
    }
    assert(names[0] == "working"@);
    assert(names[1] == "waiting"@);
    assert(names[2] == "done"@);
    assert(names[3] == "cancelled"@);
    assert(names[4] == "canceled"@);
    assert(names[5] == "idea"@);
    assert(names[6] == "note"@);
    assert(names[7] == "inbox"@);
}


/// A text whose first or second char differs from those of `q` does not
/// start with `q`.
proof fn lemma_not_starts(t: Seq<char>, q: Seq<char>)
    requires
        t.len() >= 2,
        q.len() >= 2,
        t[0] != q[0] || t[1] != q[1],
    ensures
        !starts_with(t, q),
{
    if starts_with(t, q) {
        assert(t.take(q.len() as int)[0] == t[0]);
        assert(t.take(q.len() as int)[1] == t[1]);
    }
}

/// The type a status's own prefix marks: ideas and notes have theirs, every
/// other status belongs to a todo.
pub open spec fn prefix_kind(s: SpaiStatus) -> SpaiType {
    match s {
        SpaiStatus::Idea => SpaiType::Idea,
        SpaiStatus::Note => SpaiType::Note,
        _ => SpaiType::Todo,
    }
}

/// A line that starts (after any indent) with a status's symbol and a space
/// reads as that status, with its symbol and type; inbox shares the note
/// symbol and reads as a note.
pub proof fn lemma_status_prefix_reads_back(s: SpaiStatus, indent: Seq<char>, rest: Seq<char>)
    requires
        s != SpaiStatus::Inbox,
        forall|i: int| 0 <= i < indent.len() ==> is_ws(#[trigger] indent[i]),
    ensures
        spec_spai_prefix(indent + s.spec_symbol() + " "@ + rest) == Some(
            (s.spec_symbol(), prefix_kind(s), s),
        ),
{
    reveal_strlit(" ");
    reveal_strlit("/. ");
    reveal_strlit(". ");
    reveal_strlit("/ ");
    reveal_strlit("x ");
    reveal_strlit("X ");
    reveal_strlit("z ");
    reveal_strlit("Z ");
    reveal_strlit("? ");
    reveal_strlit("- ");
    reveal_strlit("/.");
    reveal_strlit(".");
    reveal_strlit("/");
    reveal_strlit("x");
    reveal_strlit("z");
    reveal_strlit("?");
    reveal_strlit("-");
    let sym = s.spec_symbol();
    let t = sym + " "@ + rest;
    assert(indent + sym + " "@ + rest == indent + t);
    assert(t[0] == sym[0]);
    lemma_trim_start_after_ws(indent, t);
    match s {
        SpaiStatus::Waiting => {
            assert(t[0] == '/' && t[1] == '.' && t[2] == ' ');
            assert(t.take(3) =~= "/. "@);
        },
        SpaiStatus::Todo => {
            assert(t[0] == '.' && t[1] == ' ');
            assert("/. "@[0] == '/' && "/. "@[1] == '.');
            lemma_not_starts(t, "/. "@);
            assert(t.take(2) =~= ". "@);
        },
        SpaiStatus::Working => {
            assert(t[0] == '/' && t[1] == ' ');
            assert("/. "@[0] == '/' && "/. "@[1] == '.');
            lemma_not_starts(t, "/. "@);
            assert(". "@[0] == '.' && ". "@[1] == ' ');
            lemma_not_starts(t, ". "@);
            assert(t.take(2) =~= "/ "@);
        },
        SpaiStatus::Done => {
            assert(t[0] == 'x' && t[1] == ' ');
            assert("/. "@[0] == '/' && "/. "@[1] == '.');
            lemma_not_starts(t, "/. "@);
            assert(". "@[0] == '.' && ". "@[1] == ' ');
            lemma_not_starts(t, ". "@);
            assert("/ "@[0] == '/' && "/ "@[1] == ' ');
            lemma_not_starts(t, "/ "@);
            assert(t.take(2) =~= "x "@);
        },
        SpaiStatus::Cancelled => {
            assert(t[0] == 'z' && t[1] == ' ');
            assert("/. "@[0] == '/' && "/. "@[1] == '.');
            lemma_not_starts(t, "/. "@);
            assert(". "@[0] == '.' && ". "@[1] == ' ');
            lemma_not_starts(t, ". "@);
            assert("/ "@[0] == '/' && "/ "@[1] == ' ');
            lemma_not_starts(t, "/ "@);
            assert("x "@[0] == 'x' && "x "@[1] == ' ');
            lemma_not_starts(t, "x "@);
            assert("X "@[0] == 'X' && "X "@[1] == ' ');
            lemma_not_starts(t, "X "@);
            assert(t.take(2) =~= "z "@);
        },
        SpaiStatus::Idea => {
            assert(t[0] == '?' && t[1] == ' ');
            assert("/. "@[0] == '/' && "/. "@[1] == '.');
            lemma_not_starts(t, "/. "@);
            assert(". "@[0] == '.' && ". "@[1] == ' ');
            lemma_not_starts(t, ". "@);
            assert("/ "@[0] == '/' && "/ "@[1] == ' ');
            lemma_not_starts(t, "/ "@);
            assert("x "@[0] == 'x' && "x "@[1] == ' ');
            lemma_not_starts(t, "x "@);
            assert("X "@[0] == 'X' && "X "@[1] == ' ');
            lemma_not_starts(t, "X "@);
            assert("z "@[0] == 'z' && "z "@[1] == ' ');
            lemma_not_starts(t, "z "@);
            assert("Z "@[0] == 'Z' && "Z "@[1] == ' ');
            lemma_not_starts(t, "Z "@);
            assert(t.take(2) =~= "? "@);
        },
        SpaiStatus::Note => {
            assert(t[0] == '-' && t[1] == ' ');
            assert("/. "@[0] == '/' && "/. "@[1] == '.');
            lemma_not_starts(t, "/. "@);
            assert(". "@[0] == '.' && ". "@[1] == ' ');
            lemma_not_starts(t, ". "@);
            assert("/ "@[0] == '/' && "/ "@[1] == ' ');
            lemma_not_starts(t, "/ "@);
            assert("x "@[0] == 'x' && "x "@[1] == ' ');
            lemma_not_starts(t, "x "@);
            assert("X "@[0] == 'X' && "X "@[1] == ' ');
            lemma_not_starts(t, "X "@);
            assert("z "@[0] == 'z' && "z "@[1] == ' ');
            lemma_not_starts(t, "z "@);
            assert("Z "@[0] == 'Z' && "Z "@[1] == ' ');
            lemma_not_starts(t, "Z "@);
            assert("? "@[0] == '?' && "? "@[1] == ' ');
            lemma_not_starts(t, "? "@);
            assert(t.take(2) =~= "- "@);
        },
        SpaiStatus::Inbox => {},
    }
}

} // verus!

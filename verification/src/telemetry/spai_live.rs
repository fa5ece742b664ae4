//! SPAI ledger telemetry: the records of `docs/spai/.index.json` and their
//! counts by status.
use crate::text::{chars_eq, chars_of, unicode_lower_chars, text_lowercase};
use vstd::prelude::*;

verus! {

#[derive(Debug, Clone)]
pub struct SpaiRecord {
    pub id: String,
    pub title: String,
    pub kind: String,
    pub status: String,
    pub symbol: String,
    pub timestamp: String,
    pub tags: Vec<String>,
    pub priority: Option<String>,
    pub deadline: Option<String>,
    pub project: Option<String>,
    pub file: Option<String>,
}

#[derive(Debug, Clone)]
pub struct SpaiIndex {
    pub version: u32,
    pub last_updated: String,
    pub records: Vec<SpaiRecord>,
}

#[derive(Debug, Clone, Copy, PartialEq, Eq, Structural)]
pub struct SpaiCounts {
    pub done: usize,
    pub working: usize,
    pub waiting: usize,
    pub todo: usize,
    pub cancelled: usize,
    pub ideas: usize,
    pub notes: usize,
    pub total_tasks: usize,
    pub total_items: usize,
}

#[derive(Debug, Clone)]
pub struct SpaiTelemetry {
    pub file_path: Option<String>,
    pub index: SpaiIndex,
    pub counts: SpaiCounts,
}

/// Where a record is counted: 0 done, 1 working, 2 waiting, 3 todo,
/// 4 cancelled, 5 idea, 6 note. Type and status compare case-insensitively;
/// an unknown status counts as todo.
pub open spec fn bucket_of(r: SpaiRecord) -> int {
    let status = text_lowercase(r.status@);
    let kind = text_lowercase(r.kind@);
    if kind == "idea"@ || status == "idea"@ {
        5
    } else if kind == "note"@ || status == "note"@ || status == "inbox"@ {
        6
    } else if status == "done"@ {
        0
    } else if status == "working"@ {
        1
    } else if status == "waiting"@ {
        2
    } else if status == "cancelled"@ {
        4
    } else {
        3
    }
}

/// Number of records in bucket `b`.
pub open spec fn count_bucket(rs: Seq<SpaiRecord>, b: int) -> nat
    decreases rs.len(),
{
    if rs.len() == 0 {
        0
    } else {
        count_bucket(rs.drop_last(), b) + if bucket_of(rs.last()) == b {
            1nat
        } else {
            0nat
        }
    }
}

proof fn lemma_buckets_sum(rs: Seq<SpaiRecord>)
    ensures
        count_bucket(rs, 0) + count_bucket(rs, 1) + count_bucket(rs, 2) + count_bucket(rs, 3)
            + count_bucket(rs, 4) + count_bucket(rs, 5) + count_bucket(rs, 6) == rs.len(),
    decreases rs.len(),
{
    if rs.len() > 0 {
        lemma_buckets_sum(rs.drop_last());
    }
}

fn bucket_exec(r: &SpaiRecord) -> (b: u8)
    ensures
        b == bucket_of(*r),
{
    let status = unicode_lower_chars(chars_of(r.status.as_str()).as_slice());
    let kind = unicode_lower_chars(chars_of(r.kind.as_str()).as_slice());
    let st = status.as_slice();
    let k = kind.as_slice();
    if chars_eq(k, chars_of("idea").as_slice()) || chars_eq(st, chars_of("idea").as_slice()) {
        5
    } else if chars_eq(k, chars_of("note").as_slice()) || chars_eq(st, chars_of("note").as_slice())
        || chars_eq(st, chars_of("inbox").as_slice()) {
        6
    } else if chars_eq(st, chars_of("done").as_slice()) {
        0
    } else if chars_eq(st, chars_of("working").as_slice()) {
        1
    } else if chars_eq(st, chars_of("waiting").as_slice()) {
        2
    } else if chars_eq(st, chars_of("cancelled").as_slice()) {
        4
    } else {
        3
    }
}

impl SpaiCounts {
    /// Counts of a record list by status; tasks are done, working, waiting,
    /// todo and cancelled, items are tasks, ideas and notes.
    pub fn from_records(records: &[SpaiRecord]) -> (c: Self)
        ensures
            c.done == count_bucket(records@, 0),
            c.working == count_bucket(records@, 1),
            c.waiting == count_bucket(records@, 2),
            c.todo == count_bucket(records@, 3),
            c.cancelled == count_bucket(records@, 4),
            c.ideas == count_bucket(records@, 5),
            c.notes == count_bucket(records@, 6),
            c.total_tasks == c.done + c.working + c.waiting + c.todo + c.cancelled,
            c.total_items == c.total_tasks + c.ideas + c.notes,
            c.total_items == records@.len(),
    {
        let mut c = SpaiCounts {
            done: 0,
            working: 0,
            waiting: 0,
            todo: 0,
            cancelled: 0,
            ideas: 0,
            notes: 0,
            total_tasks: 0,
            total_items: 0,
        };
        let mut i: usize = 0;
        while i < records.len()
            invariant
                0 <= i <= records@.len(),
                c.done == count_bucket(records@.take(i as int), 0),
                c.working == count_bucket(records@.take(i as int), 1),
                c.waiting == count_bucket(records@.take(i as int), 2),
                c.todo == count_bucket(records@.take(i as int), 3),
                c.cancelled == count_bucket(records@.take(i as int), 4),
                c.ideas == count_bucket(records@.take(i as int), 5),
                c.notes == count_bucket(records@.take(i as int), 6),
                c.done + c.working + c.waiting + c.todo + c.cancelled + c.ideas + c.notes == i,
            decreases records.len() - i,
        {
            assert(records@.take(i + 1).drop_last() == records@.take(i as int));
            proof {
                lemma_buckets_sum(records@.take(i as int));
            }
            let b = bucket_exec(&records[i]);
            if b == 0 {
                c.done = c.done + 1;
            } else if b == 1 {
                c.working = c.working + 1;
            } else if b == 2 {
                c.waiting = c.waiting + 1;
            } else if b == 3 {
                c.todo = c.todo + 1;
            } else if b == 4 {
                c.cancelled = c.cancelled + 1;
            } else if b == 5 {
                c.ideas = c.ideas + 1;
            } else {
                c.notes = c.notes + 1;
            }
            i = i + 1;
        }
        assert(records@.take(i as int) == records@);
        c.total_tasks = c.done + c.working + c.waiting + c.todo + c.cancelled;
        c.total_items = c.total_tasks + c.ideas + c.notes;
        c
    }
}

} // verus!

verus! {

// ---------------------------------------------------------------------------
// Reading `docs/spai/.index.json`
// ---------------------------------------------------------------------------

/// A text member with a default: absent is empty, otherwise a string.
pub open spec fn text_or_empty(v: crate::json::Json, key: Seq<char>) -> Option<Seq<char>> {
    match crate::json::field(v, key) {
        None => Some(Seq::empty()),
        Some(crate::json::Json::Str(s)) => Some(s@),
        _ => None,
    }
}

/// A list of strings with a default: absent is empty, otherwise an array
/// of strings.
pub open spec fn strings_member(v: crate::json::Json, key: Seq<char>) -> Option<Seq<crate::json::Json>> {
    match crate::json::field(v, key) {
        None => Some(Seq::empty()),
        Some(crate::json::Json::Array(a)) => if forall|i: int|
            0 <= i < a@.len() ==> (#[trigger] a@[i]) is Str {
            Some(a@)
        } else {
            None
        },
        _ => None,
    }
}

pub open spec fn record_reads(v: crate::json::Json) -> bool {
    &&& v is Object
    &&& crate::json::str_of(crate::json::field(v, "id"@)) is Some
    &&& crate::json::str_of(crate::json::field(v, "title"@)) is Some
    &&& text_or_empty(v, "type"@) is Some
    &&& text_or_empty(v, "status"@) is Some
    &&& text_or_empty(v, "symbol"@) is Some
    &&& text_or_empty(v, "timestamp"@) is Some
    &&& strings_member(v, "tags"@) is Some
    &&& crate::telemetry::session_log::opt_text_member(v, "priority"@) is Some
    &&& crate::telemetry::session_log::opt_text_member(v, "deadline"@) is Some
    &&& crate::telemetry::session_log::opt_text_member(v, "project"@) is Some
    &&& crate::telemetry::session_log::opt_text_member(v, "file"@) is Some
}

pub open spec fn string_json_views(v: Seq<String>) -> Seq<crate::json::Json> {
    v.map_values(|s: String| crate::json::Json::Str(s))
}

/// `r` is the record the document `v` reads as.
pub open spec fn record_is(r: SpaiRecord, v: crate::json::Json) -> bool {
    &&& crate::json::str_of(crate::json::field(v, "id"@)) == Some(r.id@)
    &&& crate::json::str_of(crate::json::field(v, "title"@)) == Some(r.title@)
    &&& text_or_empty(v, "type"@) == Some(r.kind@)
    &&& text_or_empty(v, "status"@) == Some(r.status@)
    &&& text_or_empty(v, "symbol"@) == Some(r.symbol@)
    &&& text_or_empty(v, "timestamp"@) == Some(r.timestamp@)
    &&& strings_member(v, "tags"@) == Some(string_json_views(r.tags@))
    &&& crate::telemetry::session_log::opt_text_member(v, "priority"@) == Some(
        crate::telemetry::session_log::text_view(r.priority),
    )
    &&& crate::telemetry::session_log::opt_text_member(v, "deadline"@) == Some(
        crate::telemetry::session_log::text_view(r.deadline),
    )
    &&& crate::telemetry::session_log::opt_text_member(v, "project"@) == Some(
        crate::telemetry::session_log::text_view(r.project),
    )
    &&& crate::telemetry::session_log::opt_text_member(v, "file"@) == Some(
        crate::telemetry::session_log::text_view(r.file),
    )
}

fn text_or_empty_exec(v: &crate::json::Json, key: &str) -> (r: Option<String>)
    ensures
        match r {
            Some(s) => text_or_empty(*v, key@) == Some(s@),
            None => text_or_empty(*v, key@) is None,
        },
{
    match crate::json::get(v, key) {
        None => Some(String::new()),
        Some(crate::json::Json::Str(s)) => Some(s.clone()),
        _ => None,
    }
}

fn strings_exec(v: &crate::json::Json, key: &str) -> (r: Option<Vec<String>>)
    ensures
        match r {
            Some(t) => strings_member(*v, key@) == Some(string_json_views(t@)),
            None => strings_member(*v, key@) is None,
        },
{
    match crate::json::get(v, key) {
        None => {
            let t: Vec<String> = Vec::new();
            assert(string_json_views(t@) =~= Seq::<crate::json::Json>::empty());
            Some(t)
        },
        Some(crate::json::Json::Array(a)) => {
            let mut out: Vec<String> = Vec::new();
            let mut i: usize = 0;
            while i < a.len()
                invariant
                    0 <= i <= a@.len(),
                    crate::json::field(*v, key@) == Some(crate::json::Json::Array(*a)),
                    forall|j: int| 0 <= j < i ==> (#[trigger] a@[j]) is Str,
                    string_json_views(out@) == a@.take(i as int),
                decreases a.len() - i,
            {
                match &a[i] {
                    crate::json::Json::Str(s) => {
                        let ghost before = out@;
                        assert(a@[i as int] == crate::json::Json::Str(*s));
                        out.push(s.clone());
                        assert(string_json_views(out@) =~= string_json_views(before).push(
                            crate::json::Json::Str(*s),
                        ));
                        assert(a@.take(i + 1) =~= a@.take(i as int).push(a@[i as int]));
                        assert(string_json_views(out@) =~= a@.take(i + 1));
                    },
                    _ => {
                        return None;
                    },
                }
                i = i + 1;
            }
            assert(a@.take(i as int) =~= a@);
            Some(out)
        },
        _ => None,
    }
}

/// Reads one record of the index.
pub fn read_record(v: &crate::json::Json) -> (r: Option<SpaiRecord>)
    ensures
        match r {
            Some(rec) => record_reads(*v) && record_is(rec, *v),
            None => !record_reads(*v),
        },
{
    match v {
        crate::json::Json::Object(_, _) => {},
        _ => {
            return None;
        },
    }
    let id = match crate::json::get_str(v, "id") {
        Some(s) => s.clone(),
        None => {
            return None;
        },
    };
    let title = match crate::json::get_str(v, "title") {
        Some(s) => s.clone(),
        None => {
            return None;
        },
    };
    let kind = match text_or_empty_exec(v, "type") {
        Some(s) => s,
        None => {
            return None;
        },
    };
    let status = match text_or_empty_exec(v, "status") {
        Some(s) => s,
        None => {
            return None;
        },
    };
    let symbol = match text_or_empty_exec(v, "symbol") {
        Some(s) => s,
        None => {
            return None;
        },
    };
    let timestamp = match text_or_empty_exec(v, "timestamp") {
        Some(s) => s,
        None => {
            return None;
        },
    };
    let tags = match strings_exec(v, "tags") {
        Some(t) => t,
        None => {
            return None;
        },
    };
    let priority = match crate::telemetry::session_log::text_member(v, "priority") {
        Some(t) => t,
        None => {
            return None;
        },
    };
    let deadline = match crate::telemetry::session_log::text_member(v, "deadline") {
        Some(t) => t,
        None => {
            return None;
        },
    };
    let project = match crate::telemetry::session_log::text_member(v, "project") {
        Some(t) => t,
        None => {
            return None;
        },
    };
    let file = match crate::telemetry::session_log::text_member(v, "file") {
        Some(t) => t,
        None => {
            return None;
        },
    };
    Some(
        SpaiRecord {
            id,
            title,
            kind,
            status,
            symbol,
            timestamp,
            tags,
            priority,
            deadline,
            project,
            file,
        },
    )
}

/// An index document reads: an object whose `version` (a `u32`),
/// `lastUpdated` (a string) and `records` (an array of records) are each
/// absent or of that shape.
pub open spec fn index_reads(v: crate::json::Json) -> bool {
    &&& v is Object
    &&& match crate::json::field(v, "version"@) {
        None => true,
        Some(x) => crate::json::u64_of(x) matches Some(n) && n <= u32::MAX,
    }
    &&& text_or_empty(v, "lastUpdated"@) is Some
    &&& match crate::json::field(v, "records"@) {
        None => true,
        Some(crate::json::Json::Array(a)) => forall|i: int| 0 <= i < a@.len() ==> record_reads(#[trigger] a@[i]),
        Some(_) => false,
    }
}

/// `ix` is the index the document `v` reads as.
pub open spec fn index_is(ix: SpaiIndex, v: crate::json::Json) -> bool {
    &&& ix.version == match crate::json::field(v, "version"@) {
        Some(x) => match crate::json::u64_of(x) {
            Some(n) => n as u32,
            None => 0,
        },
        None => 0,
    }
    &&& text_or_empty(v, "lastUpdated"@) == Some(ix.last_updated@)
    &&& match crate::json::field(v, "records"@) {
        Some(crate::json::Json::Array(a)) => ix.records@.len() == a@.len() && forall|i: int|
            0 <= i < a@.len() ==> record_is(#[trigger] ix.records@[i], a@[i]),
        _ => ix.records@.len() == 0,
    }
}

/// Reads the SPAI index from its text; `None` when it does not parse or
/// does not read.
#[verifier::rlimit(40)]
pub fn read_spai_index(content: &str) -> (r: Option<SpaiIndex>)
    ensures
        match crate::json::parsed_json(content@) {
            Some(v) => match r {
                Some(ix) => index_reads(v) && index_is(ix, v),
                None => !index_reads(v),
            },
            None => r is None,
        },
{
    match crate::json::parse_json(content) {
        Some(v) => spai_index_of(&v),
        None => None,
    }
}

/// Reads the SPAI index from its parsed JSON; `None` when it does not read.
#[verifier::rlimit(40)]
pub fn spai_index_of(v: &crate::json::Json) -> (r: Option<SpaiIndex>)
    ensures
        match r {
            Some(ix) => index_reads(*v) && index_is(ix, *v),
            None => !index_reads(*v),
        },
{
    match v {
        crate::json::Json::Object(_, _) => {},
        _ => {
            return None;
        },
    }
    let version: u32 = match crate::json::get(v, "version") {
        None => 0,
        Some(x) => match crate::json::json_u64(x) {
            Some(n) => if n <= u32::MAX as u64 {
                n as u32
            } else {
                return None;
            },
            None => {
                return None;
            },
        },
    };
    let last_updated = match text_or_empty_exec(v, "lastUpdated") {
        Some(s) => s,
        None => {
            return None;
        },
    };
    let mut records: Vec<SpaiRecord> = Vec::new();
    match crate::json::get(v, "records") {
        None => {},
        Some(crate::json::Json::Array(a)) => {
            let mut i: usize = 0;
            while i < a.len()
                invariant
                    0 <= i <= a@.len(),
                    crate::json::field(*v, "records"@) == Some(crate::json::Json::Array(*a)),
                    records@.len() == i,
                    forall|j: int| 0 <= j < i ==> record_reads(#[trigger] a@[j]),
                    forall|j: int| 0 <= j < i ==> record_is(#[trigger] records@[j], a@[j]),
                decreases a.len() - i,
            {
                match read_record(&a[i]) {
                    Some(rec) => {
                        records.push(rec);
                    },
                    None => {
                        proof {
                            lemma_index_not_read(*v, *a, i as int);
                        }
                        return None;
                    },
                }
                i = i + 1;
            }
        },
        Some(_) => {
            return None;
        },
    }
    Some(SpaiIndex { version, last_updated, records })
}

/// An index with a record that does not read does not read.
proof fn lemma_index_not_read(v: crate::json::Json, a: Vec<crate::json::Json>, i: int)
    requires
        0 <= i < a@.len(),
        !record_reads(a@[i]),
        crate::json::field(v, "records"@) == Some(crate::json::Json::Array(a)),
    ensures
        !index_reads(v),
{
    let f = crate::json::field(v, "records"@);
    assert(f matches Some(crate::json::Json::Array(q)) && q == a);
    assert(!(forall|j: int| 0 <= j < a@.len() ==> record_reads(#[trigger] a@[j])));
}

/// The SPAI telemetry of an index file's text (found at `path`): its
/// records and their counts; `None` when the text is not an index.
pub fn spai_telemetry(path: String, content: &str) -> (r: Option<SpaiTelemetry>)
    ensures
        match crate::json::parsed_json(content@) {
            Some(v) => match r {
                Some(t) => index_reads(v) && index_is(t.index, v) && t.file_path == Some(path)
                    && t.counts.total_items == t.index.records@.len(),
                None => !index_reads(v),
            },
            None => r is None,
        },
{
    match read_spai_index(content) {
        Some(index) => {
            let counts = SpaiCounts::from_records(index.records.as_slice());
            Some(SpaiTelemetry { file_path: Some(path), index, counts })
        },
        None => None,
    }
}

} // verus!

verus! {

/// A task record (its type, in any case, is not `idea` or `note`, nor is its
/// status `idea`, `note` or `inbox`) counts once, under its status: done,
/// working, waiting or cancelled, and todo for any other status; every other
/// count stays as it was.
pub proof fn lemma_task_counts_under_its_status(rs: Seq<SpaiRecord>, r: SpaiRecord)
    requires
        text_lowercase(r.kind@) != "idea"@,
        text_lowercase(r.kind@) != "note"@,
        text_lowercase(r.status@) != "idea"@,
        text_lowercase(r.status@) != "note"@,
        text_lowercase(r.status@) != "inbox"@,
    ensures
        text_lowercase(r.status@) == "done"@ ==> count_bucket(rs.push(r), 0) == count_bucket(rs, 0) + 1,
        text_lowercase(r.status@) == "working"@ ==> count_bucket(rs.push(r), 1) == count_bucket(rs, 1)
            + 1,
        text_lowercase(r.status@) == "waiting"@ ==> count_bucket(rs.push(r), 2) == count_bucket(rs, 2)
            + 1,
        text_lowercase(r.status@) == "cancelled"@ ==> count_bucket(rs.push(r), 4) == count_bucket(
            rs,
            4,
        ) + 1,
        text_lowercase(r.status@) != "done"@ && text_lowercase(r.status@) != "working"@
            && text_lowercase(r.status@) != "waiting"@ && text_lowercase(r.status@) != "cancelled"@
            ==> count_bucket(rs.push(r), 3) == count_bucket(rs, 3) + 1,
        forall|k: int| 0 <= k < 7 ==> #[trigger] count_bucket(rs.push(r), k) >= count_bucket(rs, k),
        count_bucket(rs.push(r), 0) + count_bucket(rs.push(r), 1) + count_bucket(rs.push(r), 2)
            + count_bucket(rs.push(r), 3) + count_bucket(rs.push(r), 4) + count_bucket(rs.push(r), 5)
            + count_bucket(rs.push(r), 6) == count_bucket(rs, 0) + count_bucket(rs, 1) + count_bucket(
            rs,
            2,
        ) + count_bucket(rs, 3) + count_bucket(rs, 4) + count_bucket(rs, 5) + count_bucket(rs, 6) + 1,
        count_bucket(rs.push(r), 5) == count_bucket(rs, 5),
        count_bucket(rs.push(r), 6) == count_bucket(rs, 6),
{
    let s = rs.push(r);
    assert(s.drop_last() == rs);
    assert(s.last() == r);
    lemma_buckets_sum(rs);
    lemma_buckets_sum(s);
    reveal_strlit("done");
    reveal_strlit("working");
    reveal_strlit("waiting");
    reveal_strlit("cancelled");
    assert("working"@ != "done"@) by {
        assert("working"@.len() != "done"@.len());
    }
    assert("waiting"@ != "done"@) by {
        assert("waiting"@.len() != "done"@.len());
    }
    assert("cancelled"@ != "done"@) by {
        assert("cancelled"@.len() != "done"@.len());
    }
    assert("waiting"@ != "working"@) by {
        assert("waiting"@[1] != "working"@[1]);
    }
    assert("cancelled"@ != "working"@) by {
        assert("cancelled"@.len() != "working"@.len());
    }
    assert("cancelled"@ != "waiting"@) by {
        assert("cancelled"@.len() != "waiting"@.len());
    }
}

/// An idea (type or status `idea`, in any case) counts once among the
/// ideas; a note (type `note`, or status `note` or `inbox`) that is no idea
/// counts once among the notes; neither counts as a task.
pub proof fn lemma_ideas_and_notes_counted(rs: Seq<SpaiRecord>, r: SpaiRecord)
    ensures
        (text_lowercase(r.kind@) == "idea"@ || text_lowercase(r.status@) == "idea"@) ==> count_bucket(
            rs.push(r),
            5,
        ) == count_bucket(rs, 5) + 1 && count_bucket(rs.push(r), 2) == count_bucket(rs, 2),
        !(text_lowercase(r.kind@) == "idea"@ || text_lowercase(r.status@) == "idea"@) && (
        text_lowercase(r.kind@) == "note"@ || text_lowercase(r.status@) == "note"@ || text_lowercase(
            r.status@,
        ) == "inbox"@) ==> count_bucket(rs.push(r), 6) == count_bucket(rs, 6) + 1 && count_bucket(
            rs.push(r),
            3,
        ) == count_bucket(rs, 3),
{
    let s = rs.push(r);
    assert(s.drop_last() == rs);
    assert(s.last() == r);
}

} // verus!

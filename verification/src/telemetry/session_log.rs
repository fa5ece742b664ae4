//! Entries of pi's session log, one JSON object per line, and how they are
//! read from JSON documents: which members each entry takes, and which
//! shapes make a line unreadable (it is then skipped).
use crate::json::{bool_of, field, get, json_u64, member_index, str_of, take_at, u64_of, Json};
use crate::text::{chars_of, string_of};
use vstd::prelude::*;

verus! {

/// Token counts of one model response.
pub struct Usage {
    pub input: u64,
    pub output: u64,
    pub cache_read: u64,
    pub cache_write: u64,
    pub cache_write_1h: u64,
    pub total_tokens: u64,
    pub reasoning: u64,
    /// The printed number of `cost.total` when the usage carries a cost
    /// (`"0"` for a cost without a total).
    pub cost_total: Option<String>,
}

/// The `message` of a `message` entry.
pub struct MessageBody {
    pub role: Option<String>,
    pub provider: Option<String>,
    pub model: Option<String>,
    pub is_error: Option<bool>,
    /// pi marks aborted and errored attempts here.
    pub stop_reason: Option<String>,
    pub content: Option<Json>,
    pub usage: Option<Usage>,
}

/// One line of a session log.
pub struct Entry {
    /// The entry's `type`.
    pub kind: String,
    pub timestamp: String,
    pub cwd: Option<String>,
    pub id: Option<String>,
    pub session_id: Option<String>,
    pub provider: Option<String>,
    pub model_id: Option<String>,
    pub level: Option<String>,
    pub message: Option<MessageBody>,
    pub usage: Option<Usage>,
    /// `custom_message` payload (extension-injected context).
    pub content: Option<Json>,
    /// `branch_summary` / `compaction` summary text.
    pub summary: Option<String>,
    /// `context_edit.targetId`: the entry whose context contribution changes.
    pub target_id: Option<String>,
    /// `context_edit.replacement`; absent or `null` means the target is omitted.
    pub replacement: Option<Json>,
}

pub open spec fn text_view(o: Option<String>) -> Option<Seq<char>> {
    match o {
        Some(s) => Some(s@),
        None => None,
    }
}

pub open spec fn deref_json(o: Option<&Json>) -> Option<Json> {
    match o {
        Some(j) => Some(*j),
        None => None,
    }
}

/// An optional text member: absent or `null` is no text, a string is its
/// text, and any other value does not read (`None`).
pub open spec fn opt_text_member(v: Json, key: Seq<char>) -> Option<Option<Seq<char>>> {
    match field(v, key) {
        None => Some(None),
        Some(Json::Null) => Some(None),
        Some(Json::Str(s)) => Some(Some(s@)),
        _ => None,
    }
}

/// An optional boolean member, read like [`opt_text_member`].
pub open spec fn opt_bool_member(v: Json, key: Seq<char>) -> Option<Option<bool>> {
    match field(v, key) {
        None => Some(None),
        Some(Json::Null) => Some(None),
        Some(Json::Bool(b)) => Some(Some(b)),
        _ => None,
    }
}

/// A count member: absent is 0, otherwise it must be a `u64` number.
pub open spec fn u64_member(v: Json, key: Seq<char>) -> Option<u64> {
    match field(v, key) {
        None => Some(0),
        Some(x) => u64_of(x),
    }
}

/// A member kept as a JSON value; absent and `null` are none.
pub open spec fn opt_value_member(v: Json, key: Seq<char>) -> Option<Json> {
    match field(v, key) {
        None => None,
        Some(Json::Null) => None,
        Some(x) => Some(x),
    }
}

/// The text of `cost.total`: no cost (absent or `null`) is `Some(None)`; a
/// cost object without a total counts as `"0"`; any other shape does not read.
pub open spec fn cost_total_member(v: Json) -> Option<Option<Seq<char>>> {
    match field(v, "cost"@) {
        None => Some(None),
        Some(Json::Null) => Some(None),
        Some(Json::Object(ks, vs)) => match field(Json::Object(ks, vs), "total"@) {
            None => Some(Some("0"@)),
            Some(Json::Num(t)) => Some(Some(t@)),
            _ => None,
        },
        _ => None,
    }
}

pub open spec fn usage_reads(v: Json) -> bool {
    &&& v is Object
    &&& u64_member(v, "input"@) is Some
    &&& u64_member(v, "output"@) is Some
    &&& u64_member(v, "cacheRead"@) is Some
    &&& u64_member(v, "cacheWrite"@) is Some
    &&& u64_member(v, "cacheWrite1h"@) is Some
    &&& u64_member(v, "totalTokens"@) is Some
    &&& u64_member(v, "reasoning"@) is Some
    &&& cost_total_member(v) is Some
}

pub open spec fn usage_is(u: Usage, v: Json) -> bool {
    &&& Some(u.input) == u64_member(v, "input"@)
    &&& Some(u.output) == u64_member(v, "output"@)
    &&& Some(u.cache_read) == u64_member(v, "cacheRead"@)
    &&& Some(u.cache_write) == u64_member(v, "cacheWrite"@)
    &&& Some(u.cache_write_1h) == u64_member(v, "cacheWrite1h"@)
    &&& Some(u.total_tokens) == u64_member(v, "totalTokens"@)
    &&& Some(u.reasoning) == u64_member(v, "reasoning"@)
    &&& Some(text_view(u.cost_total)) == cost_total_member(v)
}

/// An optional usage member reads when absent, `null`, or a usage.
pub open spec fn opt_usage_reads(o: Option<Json>) -> bool {
    match o {
        None => true,
        Some(Json::Null) => true,
        Some(x) => usage_reads(x),
    }
}

pub open spec fn opt_usage_is(u: Option<Usage>, o: Option<Json>) -> bool {
    match o {
        None => u is None,
        Some(Json::Null) => u is None,
        Some(x) => u matches Some(uu) && usage_is(uu, x),
    }
}

pub open spec fn body_reads(m: Json) -> bool {
    &&& m is Object
    &&& opt_text_member(m, "role"@) is Some
    &&& opt_text_member(m, "provider"@) is Some
    &&& opt_text_member(m, "model"@) is Some
    &&& opt_bool_member(m, "isError"@) is Some
    &&& opt_text_member(m, "stopReason"@) is Some
    &&& opt_usage_reads(field(m, "usage"@))
}

pub open spec fn body_is(b: MessageBody, m: Json) -> bool {
    &&& Some(text_view(b.role)) == opt_text_member(m, "role"@)
    &&& Some(text_view(b.provider)) == opt_text_member(m, "provider"@)
    &&& Some(text_view(b.model)) == opt_text_member(m, "model"@)
    &&& Some(b.is_error) == opt_bool_member(m, "isError"@)
    &&& Some(text_view(b.stop_reason)) == opt_text_member(m, "stopReason"@)
    &&& b.content == opt_value_member(m, "content"@)
    &&& opt_usage_is(b.usage, field(m, "usage"@))
}

pub open spec fn opt_body_reads(o: Option<Json>) -> bool {
    match o {
        None => true,
        Some(Json::Null) => true,
        Some(x) => body_reads(x),
    }
}

pub open spec fn opt_body_is(b: Option<MessageBody>, o: Option<Json>) -> bool {
    match o {
        None => b is None,
        Some(Json::Null) => b is None,
        Some(x) => b matches Some(bb) && body_is(bb, x),
    }
}

/// The `timestamp` member: absent is empty, otherwise it must be a string.
pub open spec fn timestamp_member(v: Json) -> Option<Seq<char>> {
    match field(v, "timestamp"@) {
        None => Some(Seq::empty()),
        Some(Json::Str(s)) => Some(s@),
        _ => None,
    }
}

/// The text members of an entry read: a string `type`, a string or absent
/// `timestamp`, and each optional text member absent, `null` or a string.
pub open spec fn entry_texts_read(v: Json) -> bool {
    &&& str_of(field(v, "type"@)) is Some
    &&& timestamp_member(v) is Some
    &&& opt_text_member(v, "cwd"@) is Some
    &&& opt_text_member(v, "id"@) is Some
    &&& opt_text_member(v, "sessionId"@) is Some
    &&& opt_text_member(v, "provider"@) is Some
    &&& opt_text_member(v, "modelId"@) is Some
    &&& opt_text_member(v, "thinkingLevel"@) is Some
    &&& opt_text_member(v, "summary"@) is Some
    &&& opt_text_member(v, "targetId"@) is Some
}

/// A JSON document reads as a session entry: an object whose known members
/// all have the shape pi writes.
#[verifier::opaque]
pub open spec fn entry_reads(v: Json) -> bool {
    &&& v is Object
    &&& entry_texts_read(v)
    &&& opt_body_reads(field(v, "message"@))
    &&& opt_usage_reads(field(v, "usage"@))
}

/// The text members of `e` are those of the document `v`.
pub open spec fn entry_texts_are(e: Entry, v: Json) -> bool {
    &&& str_of(field(v, "type"@)) == Some(e.kind@)
    &&& timestamp_member(v) == Some(e.timestamp@)
    &&& Some(text_view(e.cwd)) == opt_text_member(v, "cwd"@)
    &&& Some(text_view(e.id)) == opt_text_member(v, "id"@)
    &&& Some(text_view(e.session_id)) == opt_text_member(v, "sessionId"@)
    &&& Some(text_view(e.provider)) == opt_text_member(v, "provider"@)
    &&& Some(text_view(e.model_id)) == opt_text_member(v, "modelId"@)
    &&& Some(text_view(e.level)) == opt_text_member(v, "thinkingLevel"@)
    &&& Some(text_view(e.summary)) == opt_text_member(v, "summary"@)
    &&& Some(text_view(e.target_id)) == opt_text_member(v, "targetId"@)
}

/// `e` is the entry the document `v` reads as.
#[verifier::opaque]
pub open spec fn entry_is(e: Entry, v: Json) -> bool {
    &&& entry_texts_are(e, v)
    &&& opt_body_is(e.message, field(v, "message"@))
    &&& opt_usage_is(e.usage, field(v, "usage"@))
    &&& e.content == opt_value_member(v, "content"@)
    &&& e.replacement == opt_value_member(v, "replacement"@)
}

/// The entries of a log's lines: each line that parses as JSON and reads as
/// an entry gives one, in order; the other lines are skipped.
pub open spec fn entries_of(ls: Seq<Seq<char>>, es: Seq<Entry>) -> bool
    decreases ls.len(),
{
    if ls.len() == 0 {
        es.len() == 0
    } else {
        match crate::json::parsed_json(ls.last()) {
            Some(v) => if entry_reads(v) {
                es.len() > 0 && entry_is(es.last(), v) && entries_of(ls.drop_last(), es.drop_last())
            } else {
                entries_of(ls.drop_last(), es)
            },
            None => entries_of(ls.drop_last(), es),
        }
    }
}

} // verus!

verus! {

pub(crate) fn text_member(v: &Json, key: &str) -> (r: Option<Option<String>>)
    ensures
        match r {
            Some(o) => opt_text_member(*v, key@) == Some(text_view(o)),
            None => opt_text_member(*v, key@) is None,
        },
{
    match get(v, key) {
        None => Some(None),
        Some(Json::Null) => Some(None),
        Some(Json::Str(s)) => Some(Some(s.clone())),
        _ => None,
    }
}

pub(crate) fn bool_member(v: &Json, key: &str) -> (r: Option<Option<bool>>)
    ensures
        r == opt_bool_member(*v, key@),
{
    match get(v, key) {
        None => Some(None),
        Some(Json::Null) => Some(None),
        Some(Json::Bool(b)) => Some(Some(*b)),
        _ => None,
    }
}

fn count_member(v: &Json, key: &str) -> (r: Option<u64>)
    ensures
        r == u64_member(*v, key@),
{
    match get(v, key) {
        None => Some(0),
        Some(x) => json_u64(x),
    }
}

fn cost_member(v: &Json) -> (r: Option<Option<String>>)
    ensures
        match r {
            Some(o) => cost_total_member(*v) == Some(text_view(o)),
            None => cost_total_member(*v) is None,
        },
{
    match get(v, "cost") {
        None => Some(None),
        Some(Json::Null) => Some(None),
        Some(c) => match c {
            Json::Object(_, _) => match get(c, "total") {
                None => {
                    let z = crate::text::to_string("0");
                    proof {
                        reveal_strlit("0");
                    }
                    Some(Some(z))
                },
                Some(Json::Num(t)) => Some(Some(t.clone())),
                _ => None,
            },
            _ => None,
        },
    }
}

/// Reads a usage object.
pub fn read_usage(v: &Json) -> (r: Option<Usage>)
    ensures
        match r {
            Some(u) => usage_reads(*v) && usage_is(u, *v),
            None => !usage_reads(*v),
        },
{
    match v {
        Json::Object(_, _) => {},
        _ => {
            return None;
        },
    }
    let input = match count_member(v, "input") {
        Some(n) => n,
        None => {
            return None;
        },
    };
    let output = match count_member(v, "output") {
        Some(n) => n,
        None => {
            return None;
        },
    };
    let cache_read = match count_member(v, "cacheRead") {
        Some(n) => n,
        None => {
            return None;
        },
    };
    let cache_write = match count_member(v, "cacheWrite") {
        Some(n) => n,
        None => {
            return None;
        },
    };
    let cache_write_1h = match count_member(v, "cacheWrite1h") {
        Some(n) => n,
        None => {
            return None;
        },
    };
    let total_tokens = match count_member(v, "totalTokens") {
        Some(n) => n,
        None => {
            return None;
        },
    };
    let reasoning = match count_member(v, "reasoning") {
        Some(n) => n,
        None => {
            return None;
        },
    };
    let cost_total = match cost_member(v) {
        Some(c) => c,
        None => {
            return None;
        },
    };
    Some(
        Usage {
            input,
            output,
            cache_read,
            cache_write,
            cache_write_1h,
            total_tokens,
            reasoning,
            cost_total,
        },
    )
}

fn read_opt_usage(o: Option<&Json>) -> (r: Option<Option<Usage>>)
    ensures
        match r {
            Some(u) => opt_usage_reads(deref_json(o)) && opt_usage_is(u, deref_json(o)),
            None => !opt_usage_reads(deref_json(o)),
        },
{
    match o {
        None => Some(None),
        Some(Json::Null) => Some(None),
        Some(x) => match read_usage(x) {
            Some(u) => Some(Some(u)),
            None => None,
        },
    }
}

/// A member's value, `null` counting as none.
pub(crate) fn non_null(x: Json) -> (r: Option<Json>)
    ensures
        r == (match x {
            Json::Null => None,
            _ => Some(x),
        }),
{
    match x {
        Json::Null => None,
        _ => Some(x),
    }
}

/// Reads the `message` of an entry.
pub fn read_body(m: Json) -> (r: Option<MessageBody>)
    ensures
        match r {
            Some(b) => body_reads(m) && body_is(b, m),
            None => !body_reads(m),
        },
{
    let role = match text_member(&m, "role") {
        Some(t) => t,
        None => {
            return None;
        },
    };
    let provider = match text_member(&m, "provider") {
        Some(t) => t,
        None => {
            return None;
        },
    };
    let model = match text_member(&m, "model") {
        Some(t) => t,
        None => {
            return None;
        },
    };
    let is_error = match bool_member(&m, "isError") {
        Some(t) => t,
        None => {
            return None;
        },
    };
    let stop_reason = match text_member(&m, "stopReason") {
        Some(t) => t,
        None => {
            return None;
        },
    };
    let usage = match read_opt_usage(get(&m, "usage")) {
        Some(u) => u,
        None => {
            return None;
        },
    };
    match m {
        Json::Object(ks, vs) => {
            let mut vs = vs;
            let content = match member_index(&ks, &vs, "content") {
                Some(i) => non_null(take_at(&mut vs, i)),
                None => None,
            };
            Some(MessageBody { role, provider, model, is_error, stop_reason, content, usage })
        },
        _ => None,
    }
}

fn read_opt_body(o: Option<Json>) -> (r: Option<Option<MessageBody>>)
    ensures
        match r {
            Some(b) => opt_body_reads(o) && opt_body_is(b, o),
            None => !opt_body_reads(o),
        },
{
    match o {
        None => Some(None),
        Some(Json::Null) => Some(None),
        Some(x) => match read_body(x) {
            Some(b) => Some(Some(b)),
            None => None,
        },
    }
}

/// The text members of an entry.
struct EntryTexts {
    kind: String,
    timestamp: String,
    cwd: Option<String>,
    id: Option<String>,
    session_id: Option<String>,
    provider: Option<String>,
    model_id: Option<String>,
    level: Option<String>,
    summary: Option<String>,
    target_id: Option<String>,
}

spec fn texts_are(t: EntryTexts, v: Json) -> bool {
    &&& str_of(field(v, "type"@)) == Some(t.kind@)
    &&& timestamp_member(v) == Some(t.timestamp@)
    &&& Some(text_view(t.cwd)) == opt_text_member(v, "cwd"@)
    &&& Some(text_view(t.id)) == opt_text_member(v, "id"@)
    &&& Some(text_view(t.session_id)) == opt_text_member(v, "sessionId"@)
    &&& Some(text_view(t.provider)) == opt_text_member(v, "provider"@)
    &&& Some(text_view(t.model_id)) == opt_text_member(v, "modelId"@)
    &&& Some(text_view(t.level)) == opt_text_member(v, "thinkingLevel"@)
    &&& Some(text_view(t.summary)) == opt_text_member(v, "summary"@)
    &&& Some(text_view(t.target_id)) == opt_text_member(v, "targetId"@)
}

fn read_texts(v: &Json) -> (r: Option<EntryTexts>)
    ensures
        match r {
            Some(t) => entry_texts_read(*v) && texts_are(t, *v),
            None => !entry_texts_read(*v),
        },
{
    let kind = match crate::json::get_str(v, "type") {
        Some(k) => k.clone(),
        None => {
            return None;
        },
    };
    let timestamp = match get(v, "timestamp") {
        None => String::new(),
        Some(Json::Str(s)) => s.clone(),
        _ => {
            return None;
        },
    };
    let cwd = match text_member(v, "cwd") {
        Some(t) => t,
        None => {
            return None;
        },
    };
    let id = match text_member(v, "id") {
        Some(t) => t,
        None => {
            return None;
        },
    };
    let session_id = match text_member(v, "sessionId") {
        Some(t) => t,
        None => {
            return None;
        },
    };
    let provider = match text_member(v, "provider") {
        Some(t) => t,
        None => {
            return None;
        },
    };
    let model_id = match text_member(v, "modelId") {
        Some(t) => t,
        None => {
            return None;
        },
    };
    let level = match text_member(v, "thinkingLevel") {
        Some(t) => t,
        None => {
            return None;
        },
    };
    let summary = match text_member(v, "summary") {
        Some(t) => t,
        None => {
            return None;
        },
    };
    let target_id = match text_member(v, "targetId") {
        Some(t) => t,
        None => {
            return None;
        },
    };
    Some(
        EntryTexts {
            kind,
            timestamp,
            cwd,
            id,
            session_id,
            provider,
            model_id,
            level,
            summary,
            target_id,
        },
    )
}

/// Reads a session entry from a JSON document; `None` when the document is
/// not an entry of the shape pi writes.
pub fn read_entry(v: Json) -> (r: Option<Entry>)
    ensures
        match r {
            Some(e) => entry_reads(v) && entry_is(e, v),
            None => !entry_reads(v),
        },
{
    proof {
        reveal(entry_reads);
        reveal(entry_is);
    }
    let t = match read_texts(&v) {
        Some(t) => t,
        None => {
            return None;
        },
    };
    let usage = match read_opt_usage(get(&v, "usage")) {
        Some(u) => u,
        None => {
            return None;
        },
    };
    match v {
        Json::Object(ks, vs) => {
            let mut vs = vs;
            let ghost vs0 = vs@;
            let ci = member_index(&ks, &vs, "content");
            let ri = member_index(&ks, &vs, "replacement");
            let mi = member_index(&ks, &vs, "message");
            proof {
                reveal_strlit("content");
                reveal_strlit("replacement");
                reveal_strlit("message");
                assert("replacement"@.len() != "content"@.len());
                assert("message"@[0] != "content"@[0]);
                assert("message"@.len() != "replacement"@.len());
            }
            let content = match ci {
                Some(i) => non_null(take_at(&mut vs, i)),
                None => None,
            };
            let ghost vs1 = vs@;
            let replacement = match ri {
                Some(i) => {
                    assert(ks@[i as int]@ != "content"@);
                    non_null(take_at(&mut vs, i))
                },
                None => None,
            };
            let mo = match mi {
                Some(i) => {
                    assert(ks@[i as int]@ != "content"@ && ks@[i as int]@ != "replacement"@);
                    assert(vs@[i as int] == vs0[i as int]);
                    Some(take_at(&mut vs, i))
                },
                None => None,
            };
            let message = match read_opt_body(mo) {
                Some(b) => b,
                None => {
                    return None;
                },
            };
            Some(
                Entry {
                    kind: t.kind,
                    timestamp: t.timestamp,
                    cwd: t.cwd,
                    id: t.id,
                    session_id: t.session_id,
                    provider: t.provider,
                    model_id: t.model_id,
                    level: t.level,
                    message,
                    usage,
                    content,
                    summary: t.summary,
                    target_id: t.target_id,
                    replacement,
                },
            )
        },
        _ => None,
    }
}

/// The entries of a session log, one per line that reads as an entry.
pub fn read_entries(content: &str) -> (r: Vec<Entry>)
    ensures
        entries_of(crate::text::lines(content@), r@),
{
    let ls = crate::text::lines_exec(chars_of(content).as_slice());
    let ghost lv = crate::text::views(ls@);
    let mut out: Vec<Entry> = Vec::new();
    let mut i: usize = 0;
    assert(lv.take(0) =~= Seq::<Seq<char>>::empty());
    while i < ls.len()
        invariant
            0 <= i <= ls@.len(),
            lv == crate::text::views(ls@),
            lv == crate::text::lines(content@),
            entries_of(lv.take(i as int), out@),
        decreases ls.len() - i,
    {
        let ghost before = out@;
        assert(lv.take(i + 1).drop_last() == lv.take(i as int));
        assert(lv.take(i + 1).last() == ls@[i as int]@);
        let line = string_of(ls[i].as_slice());
        match crate::json::parse_json(line.as_str()) {
            Some(v) => match read_entry(v) {
                Some(e) => {
                    out.push(e);
                    assert(out@.drop_last() =~= before);
                },
                None => {},
            },
            None => {},
        }
        i = i + 1;
    }
    assert(lv.take(i as int) == lv);
    out
}

/// The working directory the header of a session log names: the `cwd`
/// string of its first line, when that line is a JSON object whose `cwd` is
/// a string.
pub open spec fn header_cwd(content: Seq<char>) -> Option<Seq<char>> {
    let ls = crate::text::lines(content);
    if ls.len() == 0 {
        None
    } else {
        match crate::json::parsed_json(ls[0]) {
            Some(v) => if v is Object {
                match opt_text_member(v, "cwd"@) {
                    Some(Some(c)) => Some(c),
                    _ => None,
                }
            } else {
                None
            },
            None => None,
        }
    }
}

/// The working directory of a session log (see [`header_cwd`]).
pub fn session_header_cwd(content: &str) -> (r: Option<String>)
    ensures
        match r {
            Some(c) => header_cwd(content@) == Some(c@),
            None => header_cwd(content@) is None,
        },
{
    let ls = crate::text::lines_exec(chars_of(content).as_slice());
    if ls.len() == 0 {
        return None;
    }
    let first = string_of(ls[0].as_slice());
    let v = match crate::json::parse_json(first.as_str()) {
        Some(v) => v,
        None => {
            return None;
        },
    };
    match &v {
        Json::Object(_, _) => {},
        _ => {
            return None;
        },
    }
    match text_member(&v, "cwd") {
        Some(Some(c)) => Some(c),
        _ => None,
    }
}

} // verus!

//! Context-window token accounting as pi reports it from the session
//! projection:
//!
//! * the last valid assistant usage wins; aborted, errored and all-zero
//!   usages are not valid;
//! * after a `compaction` with no later usage the context is unknown until
//!   the next model response;
//! * entries after the last usage are estimated at four characters a token,
//!   with the latest `context_edit` of each target applied.
//!
//! A usage that predates a bare `context_edit` is kept (pi would re-estimate
//! the whole transcript, system prompt included, which is not in the log):
//! only the trailing estimate is adjusted.
use crate::json::{field, get, get_str, json_text, json_to_text, str_of, Json};
use crate::telemetry::session_log::{text_view, Entry, Usage};
use crate::text::{chars_eq, chars_of};
use vstd::prelude::*;

verus! {

/// pi counts one image block as this many characters.
pub const ESTIMATED_IMAGE_CHARS: usize = 4800;

pub open spec fn is_text(o: Option<String>, t: Seq<char>) -> bool {
    text_view(o) == Some(t)
}

/// pi's `calculateContextTokens`: `totalTokens` when present, else the sum
/// of the parts.
pub open spec fn usage_tokens(u: Usage) -> int {
    if u.total_tokens > 0 {
        u.total_tokens as int
    } else {
        u.input + u.output + u.cache_read + u.cache_write
    }
}

/// The usage pi may take as the context size: that of an assistant message
/// that was neither aborted nor errored.
pub open spec fn counted_usage(e: Entry) -> Option<Usage> {
    if e.kind@ == "message"@ {
        match e.message {
            Some(m) => if is_text(m.role, "assistant"@) && !is_text(m.stop_reason, "aborted"@)
                && !is_text(m.stop_reason, "error"@) {
                m.usage
            } else {
                None
            },
            None => None,
        }
    } else {
        None
    }
}

/// The entry carries a valid usage: counted, and not all zero.
pub open spec fn gives_context(e: Entry) -> bool {
    counted_usage(e) matches Some(u) && usage_tokens(u) > 0
}

/// Index of the last entry with a valid usage.
pub open spec fn last_valid_usage(es: Seq<Entry>) -> Option<int>
    decreases es.len(),
{
    if es.len() == 0 {
        None
    } else if gives_context(es.last()) {
        Some(es.len() - 1)
    } else {
        last_valid_usage(es.drop_last())
    }
}

/// The parts of every usage looked at, from the last entry back to the
/// first valid one, add up within `u64`.
pub open spec fn usage_scan_fits(es: Seq<Entry>) -> bool
    decreases es.len(),
{
    if es.len() == 0 {
        true
    } else {
        match counted_usage(es.last()) {
            Some(u) => if u.total_tokens > 0 {
                true
            } else if u.input + u.output + u.cache_read + u.cache_write > u64::MAX {
                false
            } else if u.input + u.output + u.cache_read + u.cache_write > 0 {
                true
            } else {
                usage_scan_fits(es.drop_last())
            },
            None => usage_scan_fits(es.drop_last()),
        }
    }
}

/// Index of the last `compaction`.
pub open spec fn last_compaction(es: Seq<Entry>) -> Option<int>
    decreases es.len(),
{
    if es.len() == 0 {
        None
    } else if es.last().kind@ == "compaction"@ {
        Some(es.len() - 1)
    } else {
        last_compaction(es.drop_last())
    }
}

/// Index of the last entry with this id.
pub open spec fn last_with_id(es: Seq<Entry>, id: Seq<char>) -> Option<int>
    decreases es.len(),
{
    if es.len() == 0 {
        None
    } else if text_view(es.last().id) == Some(id) {
        Some(es.len() - 1)
    } else {
        last_with_id(es.drop_last(), id)
    }
}

/// Entry `k` is a `context_edit` of entry `j`.
pub open spec fn edits(es: Seq<Entry>, k: int, j: int) -> bool {
    &&& es[k].kind@ == "context_edit"@
    &&& es[k].target_id matches Some(t)
    &&& last_with_id(es, t@) == Some(j)
}

/// The last edit of entry `j` among the entries after `after` and before `upto`.
pub open spec fn last_edit(es: Seq<Entry>, after: int, upto: int, j: int) -> Option<int>
    decreases upto - after,
{
    if upto <= after + 1 {
        None
    } else if edits(es, upto - 1, j) {
        Some(upto - 1)
    } else {
        last_edit(es, after, upto - 1, j)
    }
}

/// Characters of a string member.
pub open spec fn member_chars(b: Json, key: Seq<char>) -> int {
    match str_of(field(b, key)) {
        Some(s) => s.len() as int,
        None => 0,
    }
}

/// Characters pi counts for one content block.
pub open spec fn block_chars(b: Json) -> int {
    match str_of(field(b, "type"@)) {
        Some(t) => if t == "text"@ {
            member_chars(b, "text"@)
        } else if t == "thinking"@ {
            member_chars(b, "thinking"@)
        } else if t == "toolCall"@ {
            member_chars(b, "name"@) + match field(b, "arguments"@) {
                Some(a) => json_text(a).len() as int,
                None => 0,
            }
        } else if t == "image"@ {
            ESTIMATED_IMAGE_CHARS as int
        } else {
            0
        },
        None => 0,
    }
}

pub open spec fn blocks_chars(bs: Seq<Json>) -> int
    decreases bs.len(),
{
    if bs.len() == 0 {
        0
    } else {
        blocks_chars(bs.drop_last()) + block_chars(bs.last())
    }
}

/// Characters of a message content: a string's, or its blocks'.
pub open spec fn content_chars(c: Json) -> int {
    match c {
        Json::Str(s) => s@.len() as int,
        Json::Array(bs) => blocks_chars(bs@),
        _ => 0,
    }
}

/// A replacement is `{ content: ... }`; plain content is taken as is.
pub open spec fn content_of(v: Json) -> Json {
    match field(v, "content"@) {
        Some(c) => c,
        None => v,
    }
}

/// pi's `Math.ceil(chars / 4)`.
pub open spec fn ceil4(n: int) -> int {
    n / 4 + if n % 4 == 0 {
        0int
    } else {
        1int
    }
}

/// Characters an entry puts into the context by itself.
pub open spec fn own_chars(e: Entry) -> int {
    if e.kind@ == "message"@ {
        match e.message {
            Some(m) => match m.content {
                Some(c) => content_chars(c),
                None => 0,
            },
            None => 0,
        }
    } else if e.kind@ == "custom_message"@ {
        match e.content {
            Some(c) => content_chars(c),
            None => 0,
        }
    } else if e.kind@ == "branch_summary"@ || e.kind@ == "compaction"@ {
        match e.summary {
            Some(s) => s@.len() as int,
            None => 0,
        }
    } else {
        0
    }
}

/// Characters entry `j` puts into the context after the usage at `after`:
/// an omitting edit removes them, a replacing edit swaps the content.
pub open spec fn entry_chars(es: Seq<Entry>, after: int, j: int) -> int {
    match last_edit(es, after, es.len() as int, j) {
        Some(k) => match es[k].replacement {
            None => 0,
            Some(Json::Null) => 0,
            Some(v) => content_chars(content_of(v)),
        },
        None => own_chars(es[j]),
    }
}

/// Estimated tokens of the entries after `after` and before `upto`.
pub open spec fn trailing(es: Seq<Entry>, after: int, upto: int) -> int
    decreases upto - after,
{
    if upto <= after + 1 {
        0
    } else {
        trailing(es, after, upto - 1) + ceil4(entry_chars(es, after, upto - 1))
    }
}

/// Context tokens as pi would report them; `None` is pi's `unknown`: no
/// valid usage yet, or a compaction that no response followed.
pub open spec fn context_tokens(es: Seq<Entry>) -> Option<int> {
    match last_valid_usage(es) {
        None => None,
        Some(i) => if last_compaction(es) matches Some(c) && i < c {
            None
        } else {
            let t = usage_tokens(counted_usage(es[i])->0) + trailing(es, i, es.len() as int);
            Some(
                if t > u64::MAX {
                    u64::MAX as int
                } else {
                    t
                },
            )
        },
    }
}

/// The counts stay within the machine's integers: the usage parts that are
/// added up fit in `u64`, each trailing entry's characters in `usize`, and
/// the trailing estimate in `u64`.
pub open spec fn context_fits(es: Seq<Entry>) -> bool {
    &&& usage_scan_fits(es)
    &&& match last_valid_usage(es) {
        Some(i) => (last_compaction(es) matches Some(c) && i < c) || ((forall|j: int|
            i < j < es.len() ==> #[trigger] entry_chars(es, i, j) <= usize::MAX) && trailing(
            es,
            i,
            es.len() as int,
        ) <= u64::MAX),
        None => true,
    }
}

} // verus!

verus! {

fn str_is(s: &String, t: &str) -> (r: bool)
    ensures
        r == (s@ == t@),
{
    chars_eq(chars_of(s.as_str()).as_slice(), chars_of(t).as_slice())
}

fn text_is(o: &Option<String>, t: &str) -> (r: bool)
    ensures
        r == is_text(*o, t@),
{
    match o {
        Some(s) => str_is(s, t),
        None => false,
    }
}

fn counted_usage_exec(e: &Entry) -> (r: Option<&Usage>)
    ensures
        match r {
            Some(u) => counted_usage(*e) == Some(*u),
            None => counted_usage(*e) is None,
        },
{
    if !str_is(&e.kind, "message") {
        return None;
    }
    match &e.message {
        Some(m) => if text_is(&m.role, "assistant") && !text_is(&m.stop_reason, "aborted")
            && !text_is(&m.stop_reason, "error") {
            match &m.usage {
                Some(u) => Some(u),
                None => None,
            }
        } else {
            None
        },
        None => None,
    }
}

/// The last valid usage and its tokens; `None` when adding up the parts of
/// a usage would overflow.
fn usage_scan(es: &[Entry]) -> (r: Option<Option<(usize, u64)>>)
    ensures
        r is Some <==> usage_scan_fits(es@),
        r matches Some(o) ==> match o {
            Some((i, t)) => i < es@.len() && last_valid_usage(es@) == Some(i as int) && t
                == usage_tokens(counted_usage(es@[i as int])->0),
            None => last_valid_usage(es@) is None,
        },
{
    let mut k: usize = es.len();
    assert(es@.take(k as int) =~= es@);
    while k > 0
        invariant
            0 <= k <= es@.len(),
            last_valid_usage(es@) == last_valid_usage(es@.take(k as int)),
            usage_scan_fits(es@) == usage_scan_fits(es@.take(k as int)),
        decreases k,
    {
        let ghost t = es@.take(k as int);
        assert(t.last() == es@[k - 1]);
        assert(t.drop_last() =~= es@.take(k - 1));
        match counted_usage_exec(&es[k - 1]) {
            Some(u) => {
                if u.total_tokens > 0 {
                    return Some(Some((k - 1, u.total_tokens)));
                }
                let a: u128 = u.input as u128 + u.output as u128 + u.cache_read as u128
                    + u.cache_write as u128;
                if a > u64::MAX as u128 {
                    return None;
                }
                if a > 0 {
                    return Some(Some((k - 1, a as u64)));
                }
            },
            None => {},
        }
        k = k - 1;
    }
    Some(None)
}

fn last_compaction_exec(es: &[Entry]) -> (r: Option<usize>)
    ensures
        match r {
            Some(c) => last_compaction(es@) == Some(c as int),
            None => last_compaction(es@) is None,
        },
{
    let mut k: usize = es.len();
    assert(es@.take(k as int) =~= es@);
    while k > 0
        invariant
            0 <= k <= es@.len(),
            last_compaction(es@) == last_compaction(es@.take(k as int)),
        decreases k,
    {
        let ghost t = es@.take(k as int);
        assert(t.last() == es@[k - 1]);
        assert(t.drop_last() =~= es@.take(k - 1));
        if str_is(&es[k - 1].kind, "compaction") {
            return Some(k - 1);
        }
        k = k - 1;
    }
    None
}

fn last_with_id_exec(es: &[Entry], id: &String) -> (r: Option<usize>)
    ensures
        match r {
            Some(c) => last_with_id(es@, id@) == Some(c as int) && c < es@.len(),
            None => last_with_id(es@, id@) is None,
        },
{
    let mut k: usize = es.len();
    assert(es@.take(k as int) =~= es@);
    while k > 0
        invariant
            0 <= k <= es@.len(),
            last_with_id(es@, id@) == last_with_id(es@.take(k as int), id@),
        decreases k,
    {
        let ghost t = es@.take(k as int);
        assert(t.last() == es@[k - 1]);
        assert(t.drop_last() =~= es@.take(k - 1));
        let hit = match &es[k - 1].id {
            Some(s) => chars_eq(chars_of(s.as_str()).as_slice(), chars_of(id.as_str()).as_slice()),
            None => false,
        };
        if hit {
            return Some(k - 1);
        }
        k = k - 1;
    }
    None
}

pub open spec fn index_view(o: Option<usize>) -> Option<int> {
    match o {
        Some(k) => Some(k as int),
        None => None,
    }
}

/// For each entry, the last edit of it after the usage at `after`.
fn edit_targets(es: &[Entry], after: usize) -> (ov: Vec<Option<usize>>)
    requires
        after < es@.len(),
    ensures
        ov@.len() == es@.len(),
        forall|j: int|
            0 <= j < es@.len() ==> index_view(#[trigger] ov@[j]) == last_edit(
                es@,
                after as int,
                es@.len() as int,
                j,
            ),
{
    let mut ov: Vec<Option<usize>> = Vec::new();
    let mut j: usize = 0;
    while j < es.len()
        invariant
            0 <= j <= es@.len(),
            ov@.len() == j,
            forall|m: int| 0 <= m < j ==> (#[trigger] ov@[m]) is None,
        decreases es.len() - j,
    {
        ov.push(None);
        j = j + 1;
    }
    let mut k: usize = after + 1;
    while k < es.len()
        invariant
            after < k <= es@.len(),
            ov@.len() == es@.len(),
            forall|m: int|
                0 <= m < es@.len() ==> index_view(#[trigger] ov@[m]) == last_edit(
                    es@,
                    after as int,
                    k as int,
                    m,
                ),
        decreases es.len() - k,
    {
        let ghost before = ov@;
        if str_is(&es[k as usize].kind, "context_edit") {
            match &es[k].target_id {
                Some(t) => match last_with_id_exec(es, t) {
                    Some(ti) => {
                        ov.set(ti, Some(k));
                    },
                    None => {},
                },
                None => {},
            }
        }
        assert forall|m: int| 0 <= m < es@.len() implies index_view(#[trigger] ov@[m]) == last_edit(
            es@,
            after as int,
            k + 1,
            m,
        ) by {
            assert(last_edit(es@, after as int, k + 1, m) == if edits(es@, k as int, m) {
                Some(k as int)
            } else {
                last_edit(es@, after as int, k as int, m)
            });
        }
        k = k + 1;
    }
    ov
}

fn member_chars_exec(b: &Json, key: &str) -> (r: usize)
    ensures
        r == member_chars(*b, key@),
{
    match get_str(b, key) {
        Some(s) => chars_of(s.as_str()).len(),
        None => 0,
    }
}

fn block_chars_exec(b: &Json) -> (r: Option<usize>)
    ensures
        match r {
            Some(n) => n == block_chars(*b),
            None => block_chars(*b) > usize::MAX,
        },
{
    match get_str(b, "type") {
        Some(t) => {
            if str_is(t, "text") {
                Some(member_chars_exec(b, "text"))
            } else if str_is(t, "thinking") {
                Some(member_chars_exec(b, "thinking"))
            } else if str_is(t, "toolCall") {
                let n = member_chars_exec(b, "name");
                let a: usize = match get(b, "arguments") {
                    Some(x) => chars_of(json_to_text(x).as_str()).len(),
                    None => 0,
                };
                n.checked_add(a)
            } else if str_is(t, "image") {
                Some(ESTIMATED_IMAGE_CHARS)
            } else {
                Some(0)
            }
        },
        None => Some(0),
    }
}

proof fn lemma_block_chars_nonneg(b: Json)
    ensures
        block_chars(b) >= 0,
{
}

proof fn lemma_blocks_mono(bs: Seq<Json>, k: int)
    requires
        0 <= k <= bs.len(),
    ensures
        0 <= blocks_chars(bs.take(k)) <= blocks_chars(bs),
    decreases bs.len() - k,
{
    if k < bs.len() {
        lemma_blocks_mono(bs, k + 1);
        assert(bs.take(k + 1).drop_last() =~= bs.take(k));
        assert(bs.take(k + 1).last() == bs[k]);
        lemma_block_chars_nonneg(bs[k]);
        lemma_blocks_nonneg(bs.take(k));
    } else {
        assert(bs.take(k) =~= bs);
        lemma_blocks_nonneg(bs);
    }
}

proof fn lemma_blocks_nonneg(bs: Seq<Json>)
    ensures
        blocks_chars(bs) >= 0,
    decreases bs.len(),
{
    if bs.len() > 0 {
        lemma_blocks_nonneg(bs.drop_last());
        lemma_block_chars_nonneg(bs.last());
    }
}

fn blocks_chars_exec(bs: &Vec<Json>) -> (r: Option<usize>)
    ensures
        match r {
            Some(n) => n == blocks_chars(bs@),
            None => blocks_chars(bs@) > usize::MAX,
        },
{
    let mut acc: usize = 0;
    let mut i: usize = 0;
    assert(bs@.take(0) =~= Seq::<Json>::empty());
    while i < bs.len()
        invariant
            0 <= i <= bs@.len(),
            acc == blocks_chars(bs@.take(i as int)),
        decreases bs.len() - i,
    {
        assert(bs@.take(i + 1).drop_last() =~= bs@.take(i as int));
        assert(bs@.take(i + 1).last() == bs@[i as int]);
        match block_chars_exec(&bs[i]) {
            Some(b) => match acc.checked_add(b) {
                Some(s) => {
                    acc = s;
                },
                None => {
                    proof {
                        lemma_blocks_mono(bs@, i + 1);
                    }
                    return None;
                },
            },
            None => {
                proof {
                    lemma_blocks_mono(bs@, i as int);
                    lemma_blocks_mono(bs@, i + 1);
                }
                return None;
            },
        }
        i = i + 1;
    }
    assert(bs@.take(i as int) =~= bs@);
    Some(acc)
}

fn content_chars_exec(c: &Json) -> (r: Option<usize>)
    ensures
        match r {
            Some(n) => n == content_chars(*c),
            None => content_chars(*c) > usize::MAX,
        },
{
    match c {
        Json::Str(s) => Some(chars_of(s.as_str()).len()),
        Json::Array(bs) => blocks_chars_exec(bs),
        _ => Some(0),
    }
}

fn own_chars_exec(e: &Entry) -> (r: Option<usize>)
    ensures
        match r {
            Some(n) => n == own_chars(*e),
            None => own_chars(*e) > usize::MAX,
        },
{
    if str_is(&e.kind, "message") {
        match &e.message {
            Some(m) => match &m.content {
                Some(c) => content_chars_exec(c),
                None => Some(0),
            },
            None => Some(0),
        }
    } else if str_is(&e.kind, "custom_message") {
        match &e.content {
            Some(c) => content_chars_exec(c),
            None => Some(0),
        }
    } else if str_is(&e.kind, "branch_summary") || str_is(&e.kind, "compaction") {
        match &e.summary {
            Some(s) => Some(chars_of(s.as_str()).len()),
            None => Some(0),
        }
    } else {
        Some(0)
    }
}

fn entry_chars_exec(es: &[Entry], after: usize, j: usize, ov: &Vec<Option<usize>>) -> (r: Option<usize>)
    requires
        after < j < es@.len(),
        ov@.len() == es@.len(),
        forall|m: int|
            0 <= m < es@.len() ==> index_view(#[trigger] ov@[m]) == last_edit(
                es@,
                after as int,
                es@.len() as int,
                m,
            ),
    ensures
        match r {
            Some(n) => n == entry_chars(es@, after as int, j as int),
            None => entry_chars(es@, after as int, j as int) > usize::MAX,
        },
{
    assert(index_view(ov@[j as int]) == last_edit(es@, after as int, es@.len() as int, j as int));
    match ov[j] {
        Some(k) => {
            proof {
                lemma_last_edit_range(es@, after as int, es@.len() as int, j as int);
            }
            match &es[k].replacement {
                None => Some(0),
                Some(Json::Null) => Some(0),
                Some(v) => {
                    let c = match get(v, "content") {
                        Some(c) => c,
                        None => v,
                    };
                    content_chars_exec(c)
                },
            }
        },
        None => own_chars_exec(&es[j]),
    }
}

proof fn lemma_last_edit_range(es: Seq<Entry>, after: int, upto: int, j: int)
    requires
        upto <= es.len(),
    ensures
        last_edit(es, after, upto, j) matches Some(k) ==> after < k < upto,
    decreases upto - after,
{
    if upto > after + 1 {
        lemma_last_edit_range(es, after, upto - 1, j);
    }
}

fn tokens_of(n: usize) -> (r: u64)
    ensures
        r == ceil4(n as int),
{
    let q = (n / 4) as u64;
    if n % 4 == 0 {
        q
    } else {
        q + 1
    }
}

proof fn lemma_trailing_mono(es: Seq<Entry>, after: int, a: int, b: int)
    requires
        after < a <= b,
    ensures
        0 <= trailing(es, after, a) <= trailing(es, after, b),
    decreases b - a,
{
    if a < b {
        lemma_trailing_mono(es, after, a, b - 1);
        lemma_entry_chars_nonneg(es, after, b - 1);
    } else {
        lemma_trailing_nonneg(es, after, a);
    }
}

proof fn lemma_trailing_nonneg(es: Seq<Entry>, after: int, a: int)
    ensures
        0 <= trailing(es, after, a),
    decreases a - after,
{
    if a > after + 1 {
        lemma_trailing_nonneg(es, after, a - 1);
        lemma_entry_chars_nonneg(es, after, a - 1);
    }
}

proof fn lemma_entry_chars_nonneg(es: Seq<Entry>, after: int, j: int)
    ensures
        entry_chars(es, after, j) >= 0,
{
    match last_edit(es, after, es.len() as int, j) {
        Some(k) => match es[k].replacement {
            Some(v) => lemma_content_nonneg(content_of(v)),
            None => {},
        },
        None => {
            let e = es[j];
            match e.message {
                Some(m) => match m.content {
                    Some(c) => lemma_content_nonneg(c),
                    None => {},
                },
                None => {},
            }
            match e.content {
                Some(c) => lemma_content_nonneg(c),
                None => {},
            }
        },
    }
}

proof fn lemma_content_nonneg(c: Json)
    ensures
        content_chars(c) >= 0,
{
    match c {
        Json::Array(bs) => lemma_blocks_nonneg(bs@),
        _ => {},
    }
}

/// The context estimate, or `None` where a count would leave the machine's
/// integers.
#[verifier::rlimit(40)]
fn context_engine(es: &[Entry]) -> (r: Option<Option<u64>>)
    ensures
        r is Some <==> context_fits(es@),
        r matches Some(o) ==> index_view_u64(o) == context_tokens(es@),
{
    let (i, tokens) = match usage_scan(es) {
        None => {
            return None;
        },
        Some(None) => {
            return Some(None);
        },
        Some(Some(p)) => p,
    };
    match last_compaction_exec(es) {
        Some(c) => {
            if i < c {
                return Some(None);
            }
        },
        None => {},
    }
    let n = es.len();
    assert(i < n);
    assert(!(last_compaction(es@) matches Some(c) && i < c));
    let ov = edit_targets(es, i);
    let mut sum: u64 = 0;
    let mut j: usize = i + 1;
    while j < es.len()
        invariant
            i < j <= es@.len(),
            usage_scan_fits(es@),
            last_valid_usage(es@) == Some(i as int),
            tokens == usage_tokens(counted_usage(es@[i as int])->0),
            !(last_compaction(es@) matches Some(c) && i < c),
            ov@.len() == es@.len(),
            forall|m: int|
                0 <= m < es@.len() ==> index_view(#[trigger] ov@[m]) == last_edit(
                    es@,
                    i as int,
                    es@.len() as int,
                    m,
                ),
            sum == trailing(es@, i as int, j as int),
            forall|m: int| i < m < j ==> #[trigger] entry_chars(es@, i as int, m) <= usize::MAX,
        decreases es.len() - j,
    {
        let c = match entry_chars_exec(es, i, j, &ov) {
            Some(c) => c,
            None => {
                assert(entry_chars(es@, i as int, j as int) > usize::MAX);
                return None;
            },
        };
        let t = tokens_of(c);
        sum = match sum.checked_add(t) {
            Some(s) => s,
            None => {
                proof {
                    lemma_trailing_mono(es@, i as int, j + 1, es@.len() as int);
                }
                return None;
            },
        };
        j = j + 1;
    }
    Some(Some(tokens.saturating_add(sum)))
}

pub open spec fn index_view_u64(o: Option<u64>) -> Option<int> {
    match o {
        Some(k) => Some(k as int),
        None => None,
    }
}

/// Context tokens as pi would report them; `None` is pi's `unknown` (no
/// valid usage yet, or a compaction no response followed).
pub fn estimate_context_tokens(entries: &[Entry]) -> (r: Option<u64>)
    requires
        context_fits(entries@),
    ensures
        index_view_u64(r) == context_tokens(entries@),
{
    match context_engine(entries) {
        Some(o) => o,
        None => None,
    }
}

/// [`estimate_context_tokens`] where the counts fit the machine's integers;
/// `None` where they would not.
pub fn checked_context_tokens(entries: &[Entry]) -> (r: Option<Option<u64>>)
    ensures
        r is Some <==> context_fits(entries@),
        r matches Some(o) ==> index_view_u64(o) == context_tokens(entries@),
{
    match context_engine(entries) {
        Some(_) => Some(estimate_context_tokens(entries)),
        None => None,
    }
}

} // verus!

verus! {

/// Without `context_edit` entries nothing is adjusted: every entry after
/// the usage counts with its own content.
pub proof fn lemma_no_edits_no_adjustment(es: Seq<Entry>, after: int, j: int)
    requires
        0 <= after,
        forall|k: int| 0 <= k < es.len() ==> (#[trigger] es[k]).kind@ != "context_edit"@,
    ensures
        entry_chars(es, after, j) == own_chars(es[j]),
{
    lemma_no_edit_found(es, after, es.len() as int, j);
}

proof fn lemma_no_edit_found(es: Seq<Entry>, after: int, upto: int, j: int)
    requires
        0 <= after,
        upto <= es.len(),
        forall|k: int| 0 <= k < es.len() ==> (#[trigger] es[k]).kind@ != "context_edit"@,
    ensures
        last_edit(es, after, upto, j) is None,
    decreases upto - after,
{
    if upto > after + 1 {
        assert(es[upto - 1].kind@ != "context_edit"@);
        lemma_no_edit_found(es, after, upto - 1, j);
    }
}

} // verus!

verus! {

/// A message the user typed: a `message` entry with role `user` and plain
/// text content.
pub open spec fn user_prompt(e: Entry, s: String) -> bool {
    &&& e.kind@ == "message"@
    &&& e.message matches Some(m) && text_view(m.role) == Some("user"@) && m.content == Some(
        Json::Str(s),
    )
}

/// No `context_edit` of `es` targets an entry with the id `id`.
pub open spec fn untargeted(es: Seq<Entry>, id: Option<String>) -> bool {
    forall|k: int|
        0 <= k < es.len() ==> ((#[trigger] es[k]).target_id matches Some(t) ==> text_view(id) != Some(t@))
}

proof fn lemma_push_keeps_ids(es: Seq<Entry>, e: Entry, t: Seq<char>)
    requires
        text_view(e.id) != Some(t),
    ensures
        last_with_id(es.push(e), t) == last_with_id(es, t),
{
    assert(es.push(e).drop_last() == es);
}

proof fn lemma_push_keeps_edits(es: Seq<Entry>, e: Entry, after: int, upto: int, j: int)
    requires
        0 <= after,
        upto <= es.len(),
        e.kind@ != "context_edit"@,
        untargeted(es, e.id),
    ensures
        last_edit(es.push(e), after, upto, j) == last_edit(es, after, upto, j),
    decreases upto - after,
{
    let es2 = es.push(e);
    if upto > after + 1 {
        let k = upto - 1;
        assert(es2[k] == es[k]);
        if let Some(t) = es[k].target_id {
            assert(text_view(e.id) != Some(t@));
            lemma_push_keeps_ids(es, e, t@);
        }
        assert(edits(es2, k, j) == edits(es, k, j));
        lemma_push_keeps_edits(es, e, after, upto - 1, j);
    }
}

proof fn lemma_push_no_edit_of_last(es: Seq<Entry>, e: Entry, after: int, upto: int)
    requires
        0 <= after,
        upto <= es.len(),
        untargeted(es, e.id),
    ensures
        last_edit(es.push(e), after, upto, es.len() as int) is None,
    decreases upto - after,
{
    let es2 = es.push(e);
    let n = es.len() as int;
    if upto > after + 1 {
        let k = upto - 1;
        assert(es2[k] == es[k]);
        if let Some(t) = es[k].target_id {
            assert(text_view(e.id) != Some(t@));
            lemma_push_keeps_ids(es, e, t@);
            lemma_last_with_id_below(es, t@);
        }
        lemma_push_no_edit_of_last(es, e, after, upto - 1);
    }
}

proof fn lemma_last_with_id_below(es: Seq<Entry>, t: Seq<char>)
    ensures
        last_with_id(es, t) matches Some(j) ==> 0 <= j < es.len(),
    decreases es.len(),
{
    if es.len() > 0 {
        lemma_last_with_id_below(es.drop_last(), t);
    }
}

proof fn lemma_push_keeps_trailing(es: Seq<Entry>, e: Entry, after: int, upto: int)
    requires
        0 <= after,
        upto <= es.len(),
        e.kind@ != "context_edit"@,
        untargeted(es, e.id),
    ensures
        trailing(es.push(e), after, upto) == trailing(es, after, upto),
    decreases upto - after,
{
    let es2 = es.push(e);
    if upto > after + 1 {
        let j = upto - 1;
        lemma_push_keeps_trailing(es, e, after, upto - 1);
        lemma_push_keeps_edits(es, e, after, es.len() as int, j);
        assert(es2[es.len() as int] == e);
        assert(last_edit(es2, after, es2.len() as int, j) == last_edit(es2, after, es.len() as int, j));
        assert(es2[j] == es[j]);
        if let Some(k) = last_edit(es, after, es.len() as int, j) {
            lemma_last_edit_range(es, after, es.len() as int, j);
            assert(es2[k] == es[k]);
        }
        assert(entry_chars(es2, after, j) == entry_chars(es, after, j));
    }
}

/// A prompt the user types after the last response adds a quarter of its
/// characters, rounded up, to the estimated context: a string content
/// counts every one of its characters.
pub proof fn lemma_user_prompt_adds_its_chars(es: Seq<Entry>, e: Entry, s: String, t: int)
    requires
        user_prompt(e, s),
        untargeted(es, e.id),
        context_tokens(es) == Some(t),
        t + (s@.len() + 3) / 4 <= u64::MAX,
    ensures
        context_tokens(es.push(e)) == Some(t + (s@.len() + 3) / 4),
{
    let es2 = es.push(e);
    let n = es.len() as int;
    assert(es2.drop_last() == es);
    assert(es2.last() == e);
    assert(counted_usage(e) is None) by {
        reveal_strlit("user");
        reveal_strlit("assistant");
        assert("user"@ != "assistant"@) by {
            assert("user"@.len() != "assistant"@.len());
        }
    }
    assert(last_valid_usage(es2) == last_valid_usage(es));
    assert(e.kind@ != "compaction"@) by {
        reveal_strlit("message");
        reveal_strlit("compaction");
        assert("message"@.len() != "compaction"@.len());
    }
    assert(e.kind@ != "context_edit"@) by {
        reveal_strlit("message");
        reveal_strlit("context_edit");
        assert("message"@.len() != "context_edit"@.len());
    }
    assert(last_compaction(es2) == last_compaction(es));
    let i = last_valid_usage(es)->0;
    lemma_last_valid_usage_below(es);
    assert(es2[i] == es[i]);
    lemma_push_keeps_trailing(es, e, i, n);
    assert(es2[n] == e);
    lemma_push_no_edit_of_last(es, e, i, n);
    assert(last_edit(es2, i, n + 1, n) == last_edit(es2, i, n, n));
    assert(entry_chars(es2, i, n) == own_chars(e));
    assert(own_chars(e) == s@.len());
    assert(ceil4(s@.len() as int) == (s@.len() + 3) / 4);
    assert(trailing(es2, i, n + 1) == trailing(es, i, n) + (s@.len() + 3) / 4);
    lemma_trailing_nonneg(es, i, n);
    lemma_usage_tokens_nonneg(es[i]);
}

proof fn lemma_last_valid_usage_below(es: Seq<Entry>)
    ensures
        last_valid_usage(es) matches Some(i) ==> 0 <= i < es.len(),
    decreases es.len(),
{
    if es.len() > 0 {
        lemma_last_valid_usage_below(es.drop_last());
    }
}

proof fn lemma_usage_tokens_nonneg(e: Entry)
    ensures
        counted_usage(e) matches Some(u) ==> usage_tokens(u) >= 0,
{
}

/// What one content block weighs: a text block its text, a thinking block
/// its thinking, an image a fixed 4800 characters; a list of blocks weighs
/// what its blocks weigh together.
pub proof fn lemma_block_weights(b: Json, bs: Seq<Json>, s: Seq<char>)
    ensures
        str_of(field(b, "type"@)) == Some("text"@) && str_of(field(b, "text"@)) == Some(s)
            ==> block_chars(b) == s.len(),
        str_of(field(b, "type"@)) == Some("thinking"@) && str_of(field(b, "thinking"@)) == Some(s)
            ==> block_chars(b) == s.len(),
        str_of(field(b, "type"@)) == Some("image"@) ==> block_chars(b) == 4800,
        blocks_chars(bs.push(b)) == blocks_chars(bs) + block_chars(b),
{
    reveal_strlit("text");
    reveal_strlit("thinking");
    reveal_strlit("image");
    reveal_strlit("toolCall");
    assert("thinking"@ != "text"@) by {
        assert("thinking"@.len() != "text"@.len());
    }
    assert("image"@ != "text"@) by {
        assert("image"@.len() != "text"@.len());
    }
    assert("image"@ != "thinking"@) by {
        assert("image"@.len() != "thinking"@.len());
    }
    assert("image"@ != "toolCall"@) by {
        assert("image"@.len() != "toolCall"@.len());
    }
    assert(bs.push(b).drop_last() == bs);
}

} // verus!

//! What a session log says of its session: id and working directory, the
//! model in use and its thinking level, token and turn counts, tool calls
//! and errors, whether a turn is running, and which usages carry a cost
//! (with the provider and model each is billed to).
use crate::json::{field, get_str, str_of, Json};
use crate::telemetry::session_log::{text_view, Entry, MessageBody, Usage};
use crate::text::{chars_eq, chars_of};
use vstd::prelude::*;

verus! {

/// A usage to bill: the entry it is in (in the entry's `message` or on the
/// entry itself) and the provider and model it is billed to.
pub struct CostedUsage {
    pub entry: usize,
    pub in_message: bool,
    pub provider: String,
    pub model: String,
}

/// The counts and names a session log gives.
pub struct SessionStats {
    pub session_id: String,
    pub cwd: String,
    pub provider: String,
    pub model_id: String,
    pub thinking_level: String,
    pub input_tokens: u64,
    pub output_tokens: u64,
    pub cache_read: u64,
    pub cache_write: u64,
    pub reasoning_tokens: u64,
    pub turns_count: u64,
    pub tool_calls_count: u64,
    pub tool_errors_count: u64,
    /// A `turn_start` with no `turn_end` after it.
    pub is_working: bool,
    pub last_entry_ts: String,
    pub costed: Vec<CostedUsage>,
}

/// The session as read so far, as plain values.
pub struct SessionView {
    pub session_id: Seq<char>,
    pub cwd: Seq<char>,
    pub provider: Seq<char>,
    pub model: Seq<char>,
    pub thinking: Seq<char>,
    pub in_turn: bool,
    pub input: int,
    pub output: int,
    pub cache_read: int,
    pub cache_write: int,
    pub reasoning: int,
    pub turns: int,
    pub tool_calls: int,
    pub tool_errors: int,
    pub last_ts: Seq<char>,
    pub costed: Seq<(int, bool, Seq<char>, Seq<char>)>,
}

pub open spec fn or_keep(o: Option<String>, keep: Seq<char>) -> Seq<char> {
    match o {
        Some(s) => s@,
        None => keep,
    }
}

pub open spec fn is_text(o: Option<String>, t: Seq<char>) -> bool {
    text_view(o) == Some(t)
}

/// A usage adds its counts, and is billed to `provider` and `model`.
pub open spec fn add_usage(s: SessionView, u: Usage, idx: int, in_message: bool, provider: Seq<char>, model: Seq<char>) -> SessionView {
    SessionView {
        input: s.input + u.input,
        output: s.output + u.output,
        cache_read: s.cache_read + u.cache_read,
        cache_write: s.cache_write + u.cache_write,
        reasoning: s.reasoning + u.reasoning,
        costed: s.costed.push((idx, in_message, provider, model)),
        ..s
    }
}

/// Blocks of a content array whose `type` is `tool_call`.
pub open spec fn tool_call_blocks(bs: Seq<Json>) -> int
    decreases bs.len(),
{
    if bs.len() == 0 {
        0
    } else {
        tool_call_blocks(bs.drop_last()) + if str_of(field(bs.last(), "type"@)) == Some(
            "tool_call"@,
        ) {
            1int
        } else {
            0int
        }
    }
}

/// The counts of a `message` entry: user messages are turns, tool results
/// are tool calls (and errors when flagged), and `tool_call` blocks are
/// tool calls.
pub open spec fn message_counts(s: SessionView, m: MessageBody) -> SessionView {
    let s1 = if is_text(m.role, "user"@) {
        SessionView { turns: s.turns + 1, ..s }
    } else {
        s
    };
    let s2 = if is_text(m.role, "tool_result"@) {
        SessionView {
            tool_calls: s1.tool_calls + 1,
            tool_errors: s1.tool_errors + if m.is_error == Some(true) {
                1int
            } else {
                0int
            },
            ..s1
        }
    } else {
        s1
    };
    match m.content {
        Some(Json::Array(bs)) => SessionView { tool_calls: s2.tool_calls + tool_call_blocks(bs@), ..s2 },
        _ => s2,
    }
}

/// The usage of a `message` entry is added and billed to the message's
/// provider and model, or the last known ones; an assistant's usage also
/// makes its provider and model the current ones.
pub open spec fn message_usage(s: SessionView, m: MessageBody, idx: int) -> SessionView {
    match m.usage {
        Some(u) => {
            let s4 = add_usage(
                s,
                u,
                idx,
                true,
                or_keep(m.provider, s.provider),
                or_keep(m.model, s.model),
            );
            if is_text(m.role, "assistant"@) {
                SessionView {
                    provider: or_keep(m.provider, s4.provider),
                    model: or_keep(m.model, s4.model),
                    ..s4
                }
            } else {
                s4
            }
        },
        None => s,
    }
}

/// A `message` entry.
pub open spec fn message_step(s: SessionView, m: MessageBody, idx: int) -> SessionView {
    message_usage(message_counts(s, m), m, idx)
}

/// One entry of the log.
pub open spec fn session_step(s: SessionView, e: Entry, idx: int) -> SessionView {
    let k = e.kind@;
    let s1 = if k == "session"@ {
        SessionView {
            session_id: if s.session_id.len() == 0 {
                match text_view(e.session_id) {
                    Some(x) => x,
                    None => or_keep(e.id, s.session_id),
                }
            } else {
                s.session_id
            },
            cwd: or_keep(e.cwd, s.cwd),
            ..s
        }
    } else if k == "turn_start"@ {
        SessionView { in_turn: true, ..s }
    } else if k == "turn_end"@ {
        SessionView { in_turn: false, ..s }
    } else if k == "model_change"@ {
        SessionView { provider: or_keep(e.provider, s.provider), model: or_keep(e.model_id, s.model), ..s }
    } else if k == "thinking_level_change"@ {
        SessionView { thinking: or_keep(e.level, s.thinking), ..s }
    } else if k == "message"@ {
        match e.message {
            Some(m) => message_step(s, m, idx),
            None => s,
        }
    } else {
        match e.usage {
            Some(u) => add_usage(s, u, idx, false, s.provider, s.model),
            None => s,
        }
    };
    if e.timestamp@.len() > 0 {
        SessionView { last_ts: e.timestamp@, ..s1 }
    } else {
        s1
    }
}

pub open spec fn start_view(session_id: Seq<char>) -> SessionView {
    SessionView {
        session_id,
        cwd: Seq::empty(),
        provider: Seq::empty(),
        model: Seq::empty(),
        thinking: Seq::empty(),
        in_turn: false,
        input: 0,
        output: 0,
        cache_read: 0,
        cache_write: 0,
        reasoning: 0,
        turns: 0,
        tool_calls: 0,
        tool_errors: 0,
        last_ts: Seq::empty(),
        costed: Seq::empty(),
    }
}

/// The session after the first `n` entries.
pub open spec fn session_fold(es: Seq<Entry>, session_id: Seq<char>, n: int) -> SessionView
    decreases n,
{
    if n <= 0 {
        start_view(session_id)
    } else {
        session_step(session_fold(es, session_id, n - 1), es[n - 1], n - 1)
    }
}

/// Every count of the whole log fits in `u64`.
pub open spec fn counts_fit(v: SessionView) -> bool {
    &&& v.input <= u64::MAX
    &&& v.output <= u64::MAX
    &&& v.cache_read <= u64::MAX
    &&& v.cache_write <= u64::MAX
    &&& v.reasoning <= u64::MAX
    &&& v.turns <= u64::MAX
    &&& v.tool_calls <= u64::MAX
    &&& v.tool_errors <= u64::MAX
}

/// Counts of `a` are at most those of `b`, and none is negative.
pub open spec fn counts_le(a: SessionView, b: SessionView) -> bool {
    &&& 0 <= a.input <= b.input
    &&& 0 <= a.output <= b.output
    &&& 0 <= a.cache_read <= b.cache_read
    &&& 0 <= a.cache_write <= b.cache_write
    &&& 0 <= a.reasoning <= b.reasoning
    &&& 0 <= a.turns <= b.turns
    &&& 0 <= a.tool_calls <= b.tool_calls
    &&& 0 <= a.tool_errors <= b.tool_errors
}

pub open spec fn costed_view(c: CostedUsage) -> (int, bool, Seq<char>, Seq<char>) {
    (c.entry as int, c.in_message, c.provider@, c.model@)
}

/// `st` is what the log says: the session after every entry, or `None`
/// when no tokens were used and no model is known.
pub open spec fn stats_of(st: Option<SessionStats>, v: SessionView) -> bool {
    if v.input == 0 && v.output == 0 && v.model.len() == 0 {
        st is None
    } else {
        st matches Some(s) && {
            &&& s.session_id@ == v.session_id
            &&& s.cwd@ == v.cwd
            &&& s.provider@ == v.provider
            &&& s.model_id@ == v.model
            &&& s.thinking_level@ == v.thinking
            &&& s.input_tokens == v.input
            &&& s.output_tokens == v.output
            &&& s.cache_read == v.cache_read
            &&& s.cache_write == v.cache_write
            &&& s.reasoning_tokens == v.reasoning
            &&& s.turns_count == v.turns
            &&& s.tool_calls_count == v.tool_calls
            &&& s.tool_errors_count == v.tool_errors
            &&& s.is_working == v.in_turn
            &&& s.last_entry_ts@ == v.last_ts
            &&& s.costed@.map_values(|c: CostedUsage| costed_view(c)) == v.costed
        }
    }
}

proof fn lemma_blocks_mono(bs: Seq<Json>, k: int)
    requires
        0 <= k <= bs.len(),
    ensures
        0 <= tool_call_blocks(bs.take(k)) <= tool_call_blocks(bs),
    decreases bs.len() - k,
{
    if k < bs.len() {
        lemma_blocks_mono(bs, k + 1);
        assert(bs.take(k + 1).drop_last() =~= bs.take(k));
        lemma_blocks_nonneg(bs.take(k));
    } else {
        assert(bs.take(k) =~= bs);
        lemma_blocks_nonneg(bs);
    }
}

proof fn lemma_blocks_nonneg(bs: Seq<Json>)
    ensures
        tool_call_blocks(bs) >= 0,
    decreases bs.len(),
{
    if bs.len() > 0 {
        lemma_blocks_nonneg(bs.drop_last());
    }
}

proof fn lemma_step_grows(s: SessionView, e: Entry, idx: int)
    requires
        counts_le(s, s),
    ensures
        counts_le(s, session_step(s, e, idx)),
{
    match e.message {
        Some(m) => match m.content {
            Some(Json::Array(bs)) => lemma_blocks_nonneg(bs@),
            _ => {},
        },
        None => {},
    }
}

/// Counts only grow along the log.
proof fn lemma_fold_grows(es: Seq<Entry>, sid: Seq<char>, k: int, n: int)
    requires
        0 <= k <= n,
    ensures
        counts_le(session_fold(es, sid, k), session_fold(es, sid, n)),
    decreases n - k,
{
    if k < n {
        lemma_fold_grows(es, sid, k, n - 1);
        lemma_fold_grows(es, sid, n - 1, n - 1);
        lemma_step_grows(session_fold(es, sid, n - 1), es[n - 1], n - 1);
    } else {
        lemma_fold_nonneg(es, sid, n);
    }
}

proof fn lemma_fold_nonneg(es: Seq<Entry>, sid: Seq<char>, n: int)
    ensures
        counts_le(session_fold(es, sid, n), session_fold(es, sid, n)),
    decreases n,
{
    if n > 0 {
        lemma_fold_nonneg(es, sid, n - 1);
        lemma_step_grows(session_fold(es, sid, n - 1), es[n - 1], n - 1);
    }
}

} // verus!

verus! {

struct Acc {
    session_id: String,
    cwd: String,
    provider: String,
    model: String,
    thinking: String,
    in_turn: bool,
    input: u64,
    output: u64,
    cache_read: u64,
    cache_write: u64,
    reasoning: u64,
    turns: u64,
    tool_calls: u64,
    tool_errors: u64,
    last_ts: String,
    costed: Vec<CostedUsage>,
}

fn text_is(o: &Option<String>, t: &str) -> (r: bool)
    ensures
        r == is_text(*o, t@),
{
    match o {
        Some(s) => chars_eq(chars_of(s.as_str()).as_slice(), chars_of(t).as_slice()),
        None => false,
    }
}

fn kind_is(s: &String, t: &str) -> (r: bool)
    ensures
        r == (s@ == t@),
{
    chars_eq(chars_of(s.as_str()).as_slice(), chars_of(t).as_slice())
}

fn keep_or(o: &Option<String>, keep: &String) -> (r: String)
    ensures
        r@ == or_keep(*o, keep@),
{
    match o {
        Some(s) => s.clone(),
        None => keep.clone(),
    }
}

impl Acc {
    spec fn view(&self) -> SessionView {
        SessionView {
            session_id: self.session_id@,
            cwd: self.cwd@,
            provider: self.provider@,
            model: self.model@,
            thinking: self.thinking@,
            in_turn: self.in_turn,
            input: self.input as int,
            output: self.output as int,
            cache_read: self.cache_read as int,
            cache_write: self.cache_write as int,
            reasoning: self.reasoning as int,
            turns: self.turns as int,
            tool_calls: self.tool_calls as int,
            tool_errors: self.tool_errors as int,
            last_ts: self.last_ts@,
            costed: self.costed@.map_values(|c: CostedUsage| costed_view(c)),
        }
    }

    /// Adds a usage; `false` (and nothing changed) when a count would
    /// leave `u64`.
    fn add_usage(&mut self, u: &Usage, idx: usize, in_message: bool, provider: String, model: String) -> (ok: bool)
        ensures
            ok ==> final(self).view() == add_usage(old(self).view(), *u, idx as int, in_message, provider@, model@),
            !ok ==> !counts_fit(add_usage(old(self).view(), *u, idx as int, in_message, provider@, model@)),
    {
        let input = match self.input.checked_add(u.input) {
            Some(x) => x,
            None => {
                return false;
            },
        };
        let output = match self.output.checked_add(u.output) {
            Some(x) => x,
            None => {
                return false;
            },
        };
        let cache_read = match self.cache_read.checked_add(u.cache_read) {
            Some(x) => x,
            None => {
                return false;
            },
        };
        let cache_write = match self.cache_write.checked_add(u.cache_write) {
            Some(x) => x,
            None => {
                return false;
            },
        };
        let reasoning = match self.reasoning.checked_add(u.reasoning) {
            Some(x) => x,
            None => {
                return false;
            },
        };
        self.input = input;
        self.output = output;
        self.cache_read = cache_read;
        self.cache_write = cache_write;
        self.reasoning = reasoning;
        let ghost before = self.costed@;
        let c = CostedUsage { entry: idx, in_message, provider, model };
        self.costed.push(c);
        assert(self.costed@.map_values(|c: CostedUsage| costed_view(c)) =~= before.map_values(
            |c: CostedUsage| costed_view(c),
        ).push(costed_view(c)));
        true
    }

    fn on_message(&mut self, m: &MessageBody, idx: usize) -> (ok: bool)
        ensures
            ok ==> final(self).view() == message_step(old(self).view(), *m, idx as int),
            !ok ==> !counts_fit(message_step(old(self).view(), *m, idx as int)),
    {
        let ghost s0 = self.view();
        if !self.count_message(m) {
            proof {
                lemma_usage_grows(message_counts(s0, *m), *m, idx as int);
            }
            return false;
        }
        self.bill_message(m, idx)
    }

    #[verifier::rlimit(40)]
    fn count_message(&mut self, m: &MessageBody) -> (ok: bool)
        ensures
            ok ==> final(self).view() == message_counts(old(self).view(), *m),
            !ok ==> !counts_fit(message_counts(old(self).view(), *m)),
    {
        proof {
            let c = m.content;
            match c {
                Some(Json::Array(bs)) => lemma_blocks_nonneg(bs@),
                _ => {},
            }
        }
        let ghost s0 = self.view();
        if text_is(&m.role, "user") {
            if self.turns == u64::MAX {
                return false;
            }
            self.turns = self.turns + 1;
        }
        if text_is(&m.role, "tool_result") {
            if self.tool_calls == u64::MAX {
                return false;
            }
            self.tool_calls = self.tool_calls + 1;
            let err = match m.is_error {
                Some(b) => b,
                None => false,
            };
            if err {
                if self.tool_errors == u64::MAX {
                    return false;
                }
                self.tool_errors = self.tool_errors + 1;
            }
        }
        match &m.content {
            Some(Json::Array(bs)) => {
                let ghost base = self.tool_calls;
                let ghost rest = self.view();
                let mut i: usize = 0;
                assert(bs@.take(0) =~= Seq::<Json>::empty());
                while i < bs.len()
                    invariant
                        0 <= i <= bs@.len(),
                        m.content == Some(Json::Array(*bs)),
                        s0 == old(self).view(),
                        message_counts(s0, *m) == (SessionView {
                            tool_calls: base + tool_call_blocks(bs@),
                            ..rest
                        }),
                        self.tool_calls == base + tool_call_blocks(bs@.take(i as int)),
                        self.view() == (SessionView { tool_calls: self.tool_calls as int, ..rest }),
                    decreases bs.len() - i,
                {
                    assert(bs@.take(i + 1).drop_last() =~= bs@.take(i as int));
                    assert(bs@.take(i + 1).last() == bs@[i as int]);
                    proof {
                        lemma_blocks_mono(bs@, i + 1);
                    }
                    let hit = match get_str(&bs[i], "type") {
                        Some(t) => kind_is(t, "tool_call"),
                        None => false,
                    };
                    if hit {
                        if self.tool_calls == u64::MAX {
                            assert(tool_call_blocks(bs@.take(i + 1)) == tool_call_blocks(
                                bs@.take(i as int),
                            ) + 1);
                            assert(base + tool_call_blocks(bs@) > u64::MAX);
                            return false;
                        }
                        self.tool_calls = self.tool_calls + 1;
                    }
                    i = i + 1;
                }
                assert(bs@.take(i as int) =~= bs@);
            },
            _ => {},
        }
        true
    }

    fn bill_message(&mut self, m: &MessageBody, idx: usize) -> (ok: bool)
        ensures
            ok ==> final(self).view() == message_usage(old(self).view(), *m, idx as int),
            !ok ==> !counts_fit(message_usage(old(self).view(), *m, idx as int)),
    {
        match &m.usage {
            Some(u) => {
                let p = keep_or(&m.provider, &self.provider);
                let md = keep_or(&m.model, &self.model);
                if !self.add_usage(u, idx, true, p, md) {
                    return false;
                }
                if text_is(&m.role, "assistant") {
                    match &m.provider {
                        Some(p) => {
                            self.provider = p.clone();
                        },
                        None => {},
                    }
                    match &m.model {
                        Some(x) => {
                            self.model = x.clone();
                        },
                        None => {},
                    }
                }
                true
            },
            None => true,
        }
    }

    #[verifier::rlimit(40)]
    fn on_entry(&mut self, e: &Entry, idx: usize) -> (ok: bool)
        ensures
            ok ==> final(self).view() == session_step(old(self).view(), *e, idx as int),
            !ok ==> !counts_fit(session_step(old(self).view(), *e, idx as int)),
    {
        if kind_is(&e.kind, "session") {
            if chars_of(self.session_id.as_str()).len() == 0 {
                match &e.session_id {
                    Some(x) => {
                        self.session_id = x.clone();
                    },
                    None => match &e.id {
                        Some(x) => {
                            self.session_id = x.clone();
                        },
                        None => {},
                    },
                }
            }
            match &e.cwd {
                Some(c) => {
                    self.cwd = c.clone();
                },
                None => {},
            }
        } else if kind_is(&e.kind, "turn_start") {
            self.in_turn = true;
        } else if kind_is(&e.kind, "turn_end") {
            self.in_turn = false;
        } else if kind_is(&e.kind, "model_change") {
            match &e.provider {
                Some(p) => {
                    self.provider = p.clone();
                },
                None => {},
            }
            match &e.model_id {
                Some(x) => {
                    self.model = x.clone();
                },
                None => {},
            }
        } else if kind_is(&e.kind, "thinking_level_change") {
            match &e.level {
                Some(l) => {
                    self.thinking = l.clone();
                },
                None => {},
            }
        } else if kind_is(&e.kind, "message") {
            match &e.message {
                Some(m) => {
                    if !self.on_message(m, idx) {
                        return false;
                    }
                },
                None => {},
            }
        } else {
            match &e.usage {
                Some(u) => {
                    let p = self.provider.clone();
                    let md = self.model.clone();
                    if !self.add_usage(u, idx, false, p, md) {
                        return false;
                    }
                },
                None => {},
            }
        }
        if chars_of(e.timestamp.as_str()).len() > 0 {
            self.last_ts = e.timestamp.clone();
        }
        true
    }
}

proof fn lemma_usage_grows(s: SessionView, m: MessageBody, idx: int)
    ensures
        counts_le(s, s) ==> counts_le(s, message_usage(s, m, idx)),
        !counts_fit(s) ==> !counts_fit(message_usage(s, m, idx)),
{
}

/// Every count of the log fits in `u64`.
pub open spec fn session_counts_fit(es: Seq<Entry>, session_id: Seq<char>) -> bool {
    counts_fit(session_fold(es, session_id, es.len() as int))
}

/// The session after every entry; `None` when a count leaves `u64`.
fn fold_entries(entries: &[Entry], session_id: &str) -> (r: Option<Acc>)
    ensures
        r is Some <==> session_counts_fit(entries@, session_id@),
        r matches Some(a) ==> a.view() == session_fold(entries@, session_id@, entries@.len() as int),
{
    let mut a = Acc {
        session_id: crate::text::to_string(session_id),
        cwd: String::new(),
        provider: String::new(),
        model: String::new(),
        thinking: String::new(),
        in_turn: false,
        input: 0,
        output: 0,
        cache_read: 0,
        cache_write: 0,
        reasoning: 0,
        turns: 0,
        tool_calls: 0,
        tool_errors: 0,
        last_ts: String::new(),
        costed: Vec::new(),
    };
    assert(a.costed@.map_values(|c: CostedUsage| costed_view(c)) =~= Seq::<
        (int, bool, Seq<char>, Seq<char>),
    >::empty());
    assert(a.view() == session_fold(entries@, session_id@, 0));
    let mut i: usize = 0;
    while i < entries.len()
        invariant
            0 <= i <= entries@.len(),
            a.view() == session_fold(entries@, session_id@, i as int),
        decreases entries.len() - i,
    {
        if !a.on_entry(&entries[i], i) {
            proof {
                lemma_fold_grows(entries@, session_id@, i + 1, entries@.len() as int);
            }
            return None;
        }
        i = i + 1;
    }
    Some(a)
}

fn stats_from(a: Acc) -> (r: Option<SessionStats>)
    ensures
        stats_of(r, a.view()),
{
    if a.input == 0 && a.output == 0 && chars_of(a.model.as_str()).len() == 0 {
        return None;
    }
    Some(
        SessionStats {
            session_id: a.session_id,
            cwd: a.cwd,
            provider: a.provider,
            model_id: a.model,
            thinking_level: a.thinking,
            input_tokens: a.input,
            output_tokens: a.output,
            cache_read: a.cache_read,
            cache_write: a.cache_write,
            reasoning_tokens: a.reasoning,
            turns_count: a.turns,
            tool_calls_count: a.tool_calls,
            tool_errors_count: a.tool_errors,
            is_working: a.in_turn,
            last_entry_ts: a.last_ts,
            costed: a.costed,
        },
    )
}

/// What a session log says of its session (see [`stats_of`]); `session_id`
/// is the id already known, if any (an empty one is taken from the log).
pub fn session_stats(entries: &[Entry], session_id: &str) -> (r: Option<SessionStats>)
    requires
        session_counts_fit(entries@, session_id@),
    ensures
        stats_of(r, session_fold(entries@, session_id@, entries@.len() as int)),
{
    match fold_entries(entries, session_id) {
        Some(a) => stats_from(a),
        None => None,
    }
}

/// [`session_stats`] where every count fits in `u64`; `None` where one
/// would not.
pub fn checked_session_stats(entries: &[Entry], session_id: &str) -> (r: Option<Option<SessionStats>>)
    ensures
        r is Some <==> session_counts_fit(entries@, session_id@),
        r matches Some(st) ==> stats_of(st, session_fold(entries@, session_id@, entries@.len() as int)),
{
    match fold_entries(entries, session_id) {
        Some(_) => Some(session_stats(entries, session_id)),
        None => None,
    }
}

} // verus!

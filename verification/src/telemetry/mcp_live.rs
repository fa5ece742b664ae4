//! MCP telemetry from the session JSONL: which MCP servers the agent called,
//! with errors and calls still in flight.
use crate::json::Json;
use crate::telemetry::skills_live::{entry_ts, iso_to_epoch_ms, opt_json};
use crate::text::{
    chars_eq, chars_of, concat_chars, contains, contains_chars, slice_chars, starts_with,
    starts_with_chars, string_of, to_string,
};
use vstd::prelude::*;

verus! {

#[derive(Debug, Clone)]
pub struct McpCallItem {
    pub server: String,
    pub badge: String,
    pub tool: String,
    pub is_error: bool,
    pub timestamp_ms: u64,
    pub summary: String,
}

#[derive(Debug, Clone)]
pub struct McpTelemetry {
    pub total_calls: u64,
    pub total_errors: u64,
    pub active_calls_count: u64,
    pub servers_used: Vec<String>,
    pub recent_calls: Vec<McpCallItem>,
    pub last_call_ts_ms: u64,
    pub in_flight: bool,
}

/// Badge of a recognizable MCP server.
pub open spec fn spec_badge(server: Seq<char>) -> Seq<char> {
    if server == "knowledge_base"@ || server == "knowledge-base"@ {
        "KB"@
    } else if server == "openrouter"@ {
        "OR"@
    } else if server == "metaculus"@ {
        "MC"@
    } else if server == "lotusscript_lsp"@ || server == "lotusscript-lsp"@ {
        "LSP"@
    } else if server == "hf_mcp_server"@ || server == "hf-mcp-server"@ {
        "HF"@
    } else if server == "context7"@ {
        "C7"@
    } else {
        "MCP"@
    }
}

fn same(a: &[char], b: &str) -> (r: bool)
    ensures
        r == (a@ == b@),
{
    chars_eq(a, chars_of(b).as_slice())
}

/// Known badges for recognizable MCP servers.
pub fn badge_for(server: &str) -> (r: &'static str)
    ensures
        r@ == spec_badge(server@),
{
    let v = chars_of(server);
    let s = v.as_slice();
    if same(s, "knowledge_base") || same(s, "knowledge-base") {
        "KB"
    } else if same(s, "openrouter") {
        "OR"
    } else if same(s, "metaculus") {
        "MC"
    } else if same(s, "lotusscript_lsp") || same(s, "lotusscript-lsp") {
        "LSP"
    } else if same(s, "hf_mcp_server") || same(s, "hf-mcp-server") {
        "HF"
    } else if same(s, "context7") {
        "C7"
    } else {
        "MCP"
    }
}

/// `-` replaced by `_`.
pub open spec fn underscored(s: Seq<char>) -> Seq<char> {
    s.map_values(|c: char| if c == '-' { '_' } else { c })
}

/// The tool after `prefix`, when the name is longer than the prefix.
pub open spec fn after_prefix(t: Seq<char>, prefix: Seq<char>) -> Option<Seq<char>> {
    if starts_with(t, prefix) && t.len() > prefix.len() {
        Some(t.skip(prefix.len() as int))
    } else {
        None
    }
}

/// The first configured server (from index `i` on) that prefixes the tool
/// name with `_` or `-`, in its own spelling or with `-` as `_`.
pub open spec fn server_scan(t: Seq<char>, servers: Seq<Seq<char>>, i: int) -> Option<(Seq<char>, Seq<char>)>
    decreases servers.len() - i,
{
    if i < 0 || i >= servers.len() {
        None
    } else {
        let s = servers[i];
        let n = underscored(s);
        match after_prefix(t, s + "_"@) {
            Some(rest) => Some((s, rest)),
            None => match after_prefix(t, n + "_"@) {
                Some(rest) => Some((n, rest)),
                None => match after_prefix(t, s + "-"@) {
                    Some(rest) => Some((s, rest)),
                    None => match after_prefix(t, n + "-"@) {
                        Some(rest) => Some((n, rest)),
                        None => server_scan(t, servers, i + 1),
                    },
                },
            },
        }
    }
}

/// `(server, tool)` of an MCP tool name.
pub open spec fn spec_classify(t: Seq<char>, servers: Seq<Seq<char>>) -> Option<(Seq<char>, Seq<char>)> {
    if t.len() == 0 {
        None
    } else if t == "mcp"@ {
        Some(("mcp"@, "gateway"@))
    } else if starts_with(t, "mcp__"@) {
        Some((t.skip(5), t.skip(5)))
    } else {
        match server_scan(t, servers, 0) {
            Some(r) => Some(r),
            None => if contains(t, "kb_"@) || starts_with(t, "knowledge_base"@) {
                Some(("knowledge_base"@, t))
            } else {
                None
            },
        }
    }
}

pub open spec fn pair_view(r: Option<(String, String)>) -> Option<(Seq<char>, Seq<char>)> {
    match r {
        Some((a, b)) => Some((a@, b@)),
        None => None,
    }
}

fn underscored_exec(s: &[char]) -> (r: Vec<char>)
    ensures
        r@ == underscored(s@),
{
    let mut out: Vec<char> = Vec::new();
    let mut i: usize = 0;
    while i < s.len()
        invariant
            0 <= i <= s@.len(),
            out@ == underscored(s@.take(i as int)),
        decreases s.len() - i,
    {
        let c = s[i];
        out.push(
            if c == '-' {
                '_'
            } else {
                c
            },
        );
        assert(underscored(s@.take(i + 1)) =~= underscored(s@.take(i as int)).push(
            if c == '-' {
                '_'
            } else {
                c
            },
        ));
        i = i + 1;
    }
    assert(s@.take(i as int) == s@);
    out
}

fn after_prefix_exec(t: &[char], prefix: &[char]) -> (r: Option<Vec<char>>)
    ensures
        match (r, after_prefix(t@, prefix@)) {
            (Some(a), Some(b)) => a@ == b,
            (None, None) => true,
            _ => false,
        },
{
    if starts_with_chars(t, prefix) && t.len() > prefix.len() {
        let rest = slice_chars(t, prefix.len(), t.len());
        assert(rest@ == t@.skip(prefix@.len() as int));
        Some(rest)
    } else {
        None
    }
}

fn with_sep(s: &[char], sep: &str) -> (r: Vec<char>)
    ensures
        r@ == s@ + sep@,
{
    concat_chars(s, chars_of(sep).as_slice())
}

/// Classifies a tool name into `(server, tool)`: the `mcp` gateway, an
/// `mcp__<server>` proxy, a configured server's prefix, or a knowledge-base
/// tool; `None` for anything else.
pub fn classify_mcp_tool(tool_name: &str, known_servers: &[String]) -> (r: Option<(String, String)>)
    ensures
        pair_view(r) == spec_classify(tool_name@, crate::text::string_views(known_servers@)),
{
    let tv = chars_of(tool_name);
    let t = tv.as_slice();
    if t.len() == 0 {
        return None;
    }
    if same(t, "mcp") {
        return Some((to_string("mcp"), to_string("gateway")));
    }
    if starts_with_chars(t, chars_of("mcp__").as_slice()) {
        proof {
            assert("mcp__"@.len() == 5) by {
                reveal_strlit("mcp__");
            }
        }
        let rest = slice_chars(t, 5, t.len());
        assert(rest@ == t@.skip(5));
        return Some((string_of(rest.as_slice()), string_of(rest.as_slice())));
    }
    let ghost sv = crate::text::string_views(known_servers@);
    let mut i: usize = 0;
    while i < known_servers.len()
        invariant
            0 <= i <= known_servers@.len(),
            sv == crate::text::string_views(known_servers@),
            tv@ == tool_name@,
            t@ == tool_name@,
            t@.len() > 0,
            t@ != "mcp"@,
            !starts_with(t@, "mcp__"@),
            server_scan(t@, sv, 0) == server_scan(t@, sv, i as int),
        decreases known_servers.len() - i,
    {
        let s = chars_of(known_servers[i].as_str());
        assert(sv[i as int] == s@);
        let n = underscored_exec(s.as_slice());
        match after_prefix_exec(t, with_sep(s.as_slice(), "_").as_slice()) {
            Some(rest) => {
                return Some((string_of(s.as_slice()), string_of(rest.as_slice())));
            },
            None => {},
        }
        match after_prefix_exec(t, with_sep(n.as_slice(), "_").as_slice()) {
            Some(rest) => {
                return Some((string_of(n.as_slice()), string_of(rest.as_slice())));
            },
            None => {},
        }
        match after_prefix_exec(t, with_sep(s.as_slice(), "-").as_slice()) {
            Some(rest) => {
                return Some((string_of(s.as_slice()), string_of(rest.as_slice())));
            },
            None => {},
        }
        match after_prefix_exec(t, with_sep(n.as_slice(), "-").as_slice()) {
            Some(rest) => {
                return Some((string_of(n.as_slice()), string_of(rest.as_slice())));
            },
            None => {},
        }
        i = i + 1;
    }
    if contains_chars(t, chars_of("kb_").as_slice()) || starts_with_chars(
        t,
        chars_of("knowledge_base").as_slice(),
    ) {
        return Some((to_string("knowledge_base"), string_of(t)));
    }
    None
}

} // verus!

verus! {

/// A call as plain values: `(server, badge, tool, is_error, timestamp, summary)`.
pub type CallView = (Seq<char>, Seq<char>, Seq<char>, bool, u64, Seq<char>);

pub open spec fn call_view(c: McpCallItem) -> CallView {
    (c.server@, c.badge@, c.tool@, c.is_error, c.timestamp_ms, c.summary@)
}

pub open spec fn call_views(v: Seq<McpCallItem>) -> Seq<CallView> {
    v.map_values(|c: McpCallItem| call_view(c))
}

/// The MCP tracker as plain values.
pub struct McpView {
    pub total_calls: u64,
    pub total_errors: u64,
    pub servers: Seq<Seq<char>>,
    pub recent: Seq<CallView>,
    pub last_ts: u64,
    /// Calls waiting for their result, by call id (each id once).
    pub pending: Seq<(Seq<char>, CallView)>,
}

pub open spec fn str_or_empty(v: Option<Json>) -> Seq<char> {
    match crate::json::str_of(v) {
        Some(s) => s,
        None => Seq::empty(),
    }
}

/// What a call's arguments say it was about: the quoted query, or the path.
pub open spec fn call_summary(args: Option<Json>) -> Seq<char> {
    match args {
        Some(a) => match crate::json::str_of(crate::json::field(a, "query"@)) {
            Some(q) => "\""@ + q + "\""@,
            None => match crate::json::str_of(crate::json::field(a, "path"@)) {
                Some(p) => p,
                None => Seq::empty(),
            },
        },
        None => Seq::empty(),
    }
}

/// Index of the pending call with `id` (the first).
pub open spec fn pending_index(pending: Seq<(Seq<char>, CallView)>, id: Seq<char>) -> Option<int> {
    if exists|i: int|
        0 <= i < pending.len() && (#[trigger] pending[i]).0 == id && forall|j: int|
            0 <= j < i ==> (#[trigger] pending[j]).0 != id {
        Some(
            choose|i: int|
                0 <= i < pending.len() && (#[trigger] pending[i]).0 == id && forall|j: int|
                    0 <= j < i ==> (#[trigger] pending[j]).0 != id,
        )
    } else {
        None
    }
}

/// `pending` with `id` mapped to `c` (replacing an earlier call with that id).
pub open spec fn pending_put(pending: Seq<(Seq<char>, CallView)>, id: Seq<char>, c: CallView) -> Seq<
    (Seq<char>, CallView),
> {
    match pending_index(pending, id) {
        Some(i) => pending.update(i, (id, c)),
        None => pending.push((id, c)),
    }
}

/// Index of the newest recent call with this server and tool.
pub open spec fn last_match(recent: Seq<CallView>, server: Seq<char>, tool: Seq<char>) -> Option<int>
    decreases recent.len(),
{
    if recent.len() == 0 {
        None
    } else if recent.last().0 == server && recent.last().2 == tool {
        Some(recent.len() - 1)
    } else {
        last_match(recent.drop_last(), server, tool)
    }
}

/// One block of an assistant message.
pub open spec fn mcp_block_step(t: McpView, b: Json, servers: Seq<Seq<char>>, ts: u64) -> McpView {
    if crate::json::str_of(crate::json::field(b, "type"@)) != Some("toolCall"@) {
        t
    } else {
        let call_id = str_or_empty(crate::json::field(b, "id"@));
        let name = str_or_empty(crate::json::field(b, "name"@));
        match spec_classify(name, servers) {
            None => t,
            Some((server, tool)) => {
                let item = (
                    server,
                    spec_badge(server),
                    tool,
                    false,
                    ts,
                    call_summary(crate::json::field(b, "arguments"@)),
                );
                McpView {
                    servers: if t.servers.contains(server) {
                        t.servers
                    } else {
                        t.servers.push(server)
                    },
                    total_calls: crate::telemetry::skills_live::inc(t.total_calls),
                    last_ts: ts,
                    pending: if call_id.len() > 0 {
                        pending_put(t.pending, call_id, item)
                    } else {
                        t.pending
                    },
                    recent: t.recent.push(item),
                    ..t
                }
            },
        }
    }
}

pub open spec fn mcp_blocks_step(t: McpView, bs: Seq<Json>, servers: Seq<Seq<char>>, ts: u64) -> McpView
    decreases bs.len(),
{
    if bs.len() == 0 {
        t
    } else {
        mcp_block_step(mcp_blocks_step(t, bs.drop_last(), servers, ts), bs.last(), servers, ts)
    }
}

/// A tool result: its pending call is settled, and an error marks the
/// newest recent call of that server and tool.
pub open spec fn mcp_result_step(t: McpView, msg: Json) -> McpView {
    let id = str_or_empty(crate::json::field(msg, "toolCallId"@));
    let is_err = match crate::json::bool_of(crate::json::field(msg, "isError"@)) {
        Some(b) => b,
        None => false,
    };
    match pending_index(t.pending, id) {
        None => t,
        Some(k) => {
            let item = t.pending[k].1;
            let t1 = McpView { pending: t.pending.remove(k), ..t };
            if is_err {
                McpView {
                    total_errors: crate::telemetry::skills_live::inc(t1.total_errors),
                    recent: match last_match(t1.recent, item.0, item.2) {
                        Some(j) => t1.recent.update(
                            j,
                            (
                                t1.recent[j].0,
                                t1.recent[j].1,
                                t1.recent[j].2,
                                true,
                                t1.recent[j].4,
                                t1.recent[j].5,
                            ),
                        ),
                        None => t1.recent,
                    },
                    ..t1
                }
            } else {
                t1
            }
        },
    }
}

/// One line of the session JSONL.
pub open spec fn mcp_line_step(t: McpView, line: Seq<char>, servers: Seq<Seq<char>>) -> McpView {
    match crate::json::parsed_json(line) {
        None => t,
        Some(entry) => if crate::json::str_of(crate::json::field(entry, "type"@)) != Some(
            "message"@,
        ) {
            t
        } else {
            match crate::json::field(entry, "message"@) {
                None => t,
                Some(msg) => {
                    let role = str_or_empty(crate::json::field(msg, "role"@));
                    if role == "assistant"@ {
                        match crate::json::field(msg, "content"@) {
                            Some(Json::Array(bs)) => mcp_blocks_step(t, bs@, servers, entry_ts(entry)),
                            _ => t,
                        }
                    } else if role == "toolResult"@ {
                        mcp_result_step(t, msg)
                    } else {
                        t
                    }
                },
            }
        },
    }
}

pub open spec fn mcp_fold(ls: Seq<Seq<char>>, servers: Seq<Seq<char>>) -> McpView
    decreases ls.len(),
{
    if ls.len() == 0 {
        McpView {
            total_calls: 0,
            total_errors: 0,
            servers: Seq::empty(),
            recent: Seq::empty(),
            last_ts: 0,
            pending: Seq::empty(),
        }
    } else {
        mcp_line_step(mcp_fold(ls.drop_last(), servers), ls.last(), servers)
    }
}

/// The newest twenty calls.
pub open spec fn last_twenty<T>(s: Seq<T>) -> Seq<T> {
    if s.len() > 20 {
        s.skip(s.len() - 20)
    } else {
        s
    }
}

/// `m` is the telemetry the tracker ends in.
pub open spec fn telemetry_of(m: McpTelemetry, t: McpView) -> bool {
    &&& m.total_calls == t.total_calls
    &&& m.total_errors == t.total_errors
    &&& m.active_calls_count == t.pending.len()
    &&& m.in_flight == (t.pending.len() > 0)
    &&& crate::text::string_views(m.servers_used@) == t.servers
    &&& call_views(m.recent_calls@) == last_twenty(t.recent)
    &&& m.last_call_ts_ms == t.last_ts
}

} // verus!

verus! {

fn clone_item(c: &McpCallItem) -> (r: McpCallItem)
    ensures
        call_view(r) == call_view(*c),
{
    McpCallItem {
        server: c.server.clone(),
        badge: c.badge.clone(),
        tool: c.tool.clone(),
        is_error: c.is_error,
        timestamp_ms: c.timestamp_ms,
        summary: c.summary.clone(),
    }
}

struct Tracker {
    total_calls: u64,
    total_errors: u64,
    servers: Vec<String>,
    recent: Vec<McpCallItem>,
    last_ts: u64,
    pending: Vec<(String, McpCallItem)>,
}

spec fn pending_views(v: Seq<(String, McpCallItem)>) -> Seq<(Seq<char>, CallView)> {
    v.map_values(|p: (String, McpCallItem)| (p.0@, call_view(p.1)))
}

impl Tracker {
    spec fn view(self) -> McpView {
        McpView {
            total_calls: self.total_calls,
            total_errors: self.total_errors,
            servers: crate::text::string_views(self.servers@),
            recent: call_views(self.recent@),
            last_ts: self.last_ts,
            pending: pending_views(self.pending@),
        }
    }

    fn find_pending(&self, id: &[char]) -> (r: Option<usize>)
        ensures
            match r {
                Some(k) => pending_index(self.view().pending, id@) == Some(k as int) && k
                    < self.pending@.len(),
                None => pending_index(self.view().pending, id@) is None,
            },
    {
        let ghost pv = self.view().pending;
        let mut i: usize = 0;
        while i < self.pending.len()
            invariant
                0 <= i <= self.pending@.len(),
                pv == pending_views(self.pending@),
                forall|j: int| 0 <= j < i ==> (#[trigger] pv[j]).0 != id@,
            decreases self.pending.len() - i,
        {
            if chars_eq(chars_of(self.pending[i].0.as_str()).as_slice(), id) {
                assert(pv[i as int].0 == id@);
                proof {
                    let c = choose|c: int|
                        0 <= c < pv.len() && (#[trigger] pv[c]).0 == id@ && forall|j: int|
                            0 <= j < c ==> (#[trigger] pv[j]).0 != id@;
                    assert(c == i) by {
                        if c < i {
                            assert(pv[c].0 != id@);
                        }
                        if c > i {
                            assert(pv[i as int].0 == id@);
                        }
                    }
                }
                return Some(i);
            }
            i = i + 1;
        }
        proof {
            if exists|c: int|
                0 <= c < pv.len() && (#[trigger] pv[c]).0 == id@ && forall|j: int|
                    0 <= j < c ==> (#[trigger] pv[j]).0 != id@ {
                let c = choose|c: int|
                    0 <= c < pv.len() && (#[trigger] pv[c]).0 == id@ && forall|j: int|
                        0 <= j < c ==> (#[trigger] pv[j]).0 != id@;
                assert(pv[c].0 != id@);
            }
        }
        None
    }

    fn put_pending(&mut self, id: &[char], item: McpCallItem)
        ensures
            final(self).view() == (McpView {
                pending: pending_put(old(self).view().pending, id@, call_view(item)),
                ..old(self).view()
            }),
    {
        match self.find_pending(id) {
            Some(k) => {
                let ghost pv = self.view().pending;
                self.pending.remove(k);
                self.pending.insert(k, (string_of(id), item));
                assert(pending_views(self.pending@) =~= pv.update(k as int, (id@, call_view(item))));
            },
            None => {
                let ghost pv = self.view().pending;
                self.pending.push((string_of(id), item));
                assert(pending_views(self.pending@) =~= pv.push((id@, call_view(item))));
            },
        }
    }
}

} // verus!

verus! {

fn str_field(v: &Json, key: &str) -> (r: Vec<char>)
    ensures
        r@ == str_or_empty(crate::json::field(*v, key@)),
{
    match crate::json::get_str(v, key) {
        Some(s) => chars_of(s.as_str()),
        None => Vec::new(),
    }
}

fn summary_exec(args: Option<&Json>) -> (r: Vec<char>)
    ensures
        r@ == call_summary(opt_json(args)),
{
    match args {
        Some(a) => match crate::json::get_str(a, "query") {
            Some(q) => {
                let x = concat_chars(chars_of("\"").as_slice(), chars_of(q.as_str()).as_slice());
                concat_chars(x.as_slice(), chars_of("\"").as_slice())
            },
            None => match crate::json::get_str(a, "path") {
                Some(p) => chars_of(p.as_str()),
                None => Vec::new(),
            },
        },
        None => Vec::new(),
    }
}

impl Tracker {
    fn add_server(&mut self, server: &String)
        ensures
            final(self).view() == (McpView {
                servers: if old(self).view().servers.contains(server@) {
                    old(self).view().servers
                } else {
                    old(self).view().servers.push(server@)
                },
                ..old(self).view()
            }),
    {
        let ghost sv = self.view().servers;
        let mut i: usize = 0;
        while i < self.servers.len()
            invariant
                0 <= i <= self.servers@.len(),
                sv == crate::text::string_views(self.servers@),
                forall|j: int| 0 <= j < i ==> sv[j] != server@,
            decreases self.servers.len() - i,
        {
            if self.servers[i] == *server {
                assert(sv[i as int] == server@);
                return ;
            }
            i = i + 1;
        }
        self.servers.push(server.clone());
        assert(crate::text::string_views(self.servers@) =~= sv.push(server@));
    }

    #[verifier::rlimit(30)]
    fn on_block(&mut self, b: &Json, servers: &[String], ts: u64)
        ensures
            final(self).view() == mcp_block_step(
                old(self).view(),
                *b,
                crate::text::string_views(servers@),
                ts,
            ),
    {
        let is_call = match crate::json::get_str(b, "type") {
            Some(t) => chars_eq(chars_of(t.as_str()).as_slice(), chars_of("toolCall").as_slice()),
            None => false,
        };
        if !is_call {
            return ;
        }
        let call_id = str_field(b, "id");
        let name = str_field(b, "name");
        let name_s = string_of(name.as_slice());
        match classify_mcp_tool(name_s.as_str(), servers) {
            None => {},
            Some((server, tool)) => {
                let badge = to_string(badge_for(server.as_str()));
                let summary = summary_exec(crate::json::get(b, "arguments"));
                let item = McpCallItem {
                    server: server.clone(),
                    badge,
                    tool,
                    is_error: false,
                    timestamp_ms: ts,
                    summary: string_of(summary.as_slice()),
                };
                self.add_server(&server);
                self.total_calls = if self.total_calls == u64::MAX {
                    0
                } else {
                    self.total_calls + 1
                };
                self.last_ts = ts;
                if call_id.len() > 0 {
                    self.put_pending(call_id.as_slice(), clone_item(&item));
                }
                let ghost before = self.recent@;
                self.recent.push(item);
                assert(call_views(self.recent@) == call_views(before).push(call_view(item)));
            },
        }
    }

    fn mark_last_error(&mut self, server: &[char], tool: &[char])
        ensures
            final(self).view() == (McpView {
                recent: match last_match(old(self).view().recent, server@, tool@) {
                    Some(j) => old(self).view().recent.update(
                        j,
                        (
                            old(self).view().recent[j].0,
                            old(self).view().recent[j].1,
                            old(self).view().recent[j].2,
                            true,
                            old(self).view().recent[j].4,
                            old(self).view().recent[j].5,
                        ),
                    ),
                    None => old(self).view().recent,
                },
                ..old(self).view()
            }),
    {
        let ghost rv = self.view().recent;
        let mut k: usize = self.recent.len();
        assert(rv.take(k as int) =~= rv);
        while k > 0
            invariant
                0 <= k <= self.recent@.len(),
                rv == call_views(self.recent@),
                self.recent@ == old(self).recent@,
                self.view() == old(self).view(),
                last_match(rv, server@, tool@) == last_match(rv.take(k as int), server@, tool@),
            decreases k,
        {
            let ghost t = rv.take(k as int);
            assert(t.last() == rv[k - 1]);
            assert(t.drop_last() == rv.take(k - 1));
            if chars_eq(chars_of(self.recent[k - 1].server.as_str()).as_slice(), server)
                && chars_eq(chars_of(self.recent[k - 1].tool.as_str()).as_slice(), tool) {
                let mut c = self.recent.remove(k - 1);
                c.is_error = true;
                self.recent.insert(k - 1, c);
                assert(call_views(self.recent@) =~= rv.update(
                    k - 1,
                    (rv[k - 1].0, rv[k - 1].1, rv[k - 1].2, true, rv[k - 1].4, rv[k - 1].5),
                ));
                return ;
            }
            k = k - 1;
        }
        assert(rv.take(0) =~= Seq::<CallView>::empty());
    }

    #[verifier::rlimit(40)]
    fn on_result(&mut self, msg: &Json)
        ensures
            final(self).view() == mcp_result_step(old(self).view(), *msg),
    {
        let id = str_field(msg, "toolCallId");
        let is_err = match crate::json::get_bool(msg, "isError") {
            Some(b) => b,
            None => false,
        };
        match self.find_pending(id.as_slice()) {
            None => {},
            Some(k) => {
                let ghost pv = self.view().pending;
                let (_, item) = self.pending.remove(k);
                assert(pending_views(self.pending@) =~= pv.remove(k as int));
                if is_err {
                    self.total_errors = if self.total_errors == u64::MAX {
                        0
                    } else {
                        self.total_errors + 1
                    };
                    self.mark_last_error(
                        chars_of(item.server.as_str()).as_slice(),
                        chars_of(item.tool.as_str()).as_slice(),
                    );
                }
            },
        }
    }

    #[verifier::rlimit(40)]
    fn on_line(&mut self, line: &[char], servers: &[String])
        ensures
            final(self).view() == mcp_line_step(old(self).view(), line@, crate::text::string_views(servers@)),
    {
        let ls = string_of(line);
        let entry = match crate::json::parse_json(ls.as_str()) {
            Some(e) => e,
            None => {
                return ;
            },
        };
        let is_message = match crate::json::get_str(&entry, "type") {
            Some(t) => chars_eq(chars_of(t.as_str()).as_slice(), chars_of("message").as_slice()),
            None => false,
        };
        if !is_message {
            return ;
        }
        let msg = match crate::json::get(&entry, "message") {
            Some(m) => m,
            None => {
                return ;
            },
        };
        let role = str_field(msg, "role");
        if chars_eq(role.as_slice(), chars_of("assistant").as_slice()) {
            let ts: u64 = match crate::json::get_str(&entry, "timestamp") {
                Some(t) => match iso_to_epoch_ms(t.as_str()) {
                    Some(v) => v,
                    None => 0,
                },
                None => 0,
            };
            match crate::json::get_array(msg, "content") {
                Some(bs) => {
                    let mut i: usize = 0;
                    assert(bs@.take(0) =~= Seq::<Json>::empty());
                    while i < bs.len()
                        invariant
                            0 <= i <= bs@.len(),
                            ts == entry_ts(entry),
                            self.view() == mcp_blocks_step(
                                old(self).view(),
                                bs@.take(i as int),
                                crate::text::string_views(servers@),
                                ts,
                            ),
                        decreases bs.len() - i,
                    {
                        assert(bs@.take(i + 1).drop_last() == bs@.take(i as int));
                        self.on_block(&bs[i], servers, ts);
                        i = i + 1;
                    }
                    assert(bs@.take(i as int) == bs@);
                },
                None => {},
            }
        } else if chars_eq(role.as_slice(), chars_of("toolResult").as_slice()) {
            self.on_result(msg);
        }
    }
}

/// MCP telemetry of a session JSONL, given the MCP servers configured in
/// `mcp.json`: each call with its server, badge, tool and summary, the
/// errors reported back, and the calls still waiting for a result; the
/// newest twenty calls are kept.
#[verifier::rlimit(40)]
pub fn parse_mcp_session(content: &str, configured_servers: &[String]) -> (r: McpTelemetry)
    ensures
        telemetry_of(
            r,
            mcp_fold(crate::text::lines(content@), crate::text::string_views(configured_servers@)),
        ),
{
    let mut t = Tracker {
        total_calls: 0,
        total_errors: 0,
        servers: Vec::new(),
        recent: Vec::new(),
        last_ts: 0,
        pending: Vec::new(),
    };
    assert(crate::text::string_views(t.servers@) =~= Seq::<Seq<char>>::empty());
    assert(call_views(t.recent@) =~= Seq::<CallView>::empty());
    assert(pending_views(t.pending@) =~= Seq::<(Seq<char>, CallView)>::empty());
    let ls = crate::text::lines_exec(chars_of(content).as_slice());
    let ghost lv = crate::text::views(ls@);
    let ghost sv = crate::text::string_views(configured_servers@);
    let mut i: usize = 0;
    assert(lv.take(0) =~= Seq::<Seq<char>>::empty());
    while i < ls.len()
        invariant
            0 <= i <= ls@.len(),
            lv == crate::text::views(ls@),
            lv == crate::text::lines(content@),
            sv == crate::text::string_views(configured_servers@),
            t.view() == mcp_fold(lv.take(i as int), sv),
        decreases ls.len() - i,
    {
        assert(lv.take(i + 1).drop_last() == lv.take(i as int));
        assert(lv.take(i + 1).last() == ls@[i as int]@);
        t.on_line(ls[i].as_slice(), configured_servers);
        i = i + 1;
    }
    assert(lv.take(i as int) == lv);
    let ghost all = t.recent@;
    let n = t.recent.len();
    let mut recent = t.recent;
    if n > 20 {
        recent = recent.split_off(n - 20);
        assert(call_views(recent@) =~= last_twenty(call_views(all)));
    }
    let pending_count = t.pending.len();
    McpTelemetry {
        total_calls: t.total_calls,
        total_errors: t.total_errors,
        active_calls_count: pending_count as u64,
        servers_used: t.servers,
        recent_calls: recent,
        last_call_ts_ms: t.last_ts,
        in_flight: pending_count > 0,
    }
}

} // verus!

verus! {

/// The MCP servers `mcp.json` configures: the keys of its `mcpServers`
/// object, in key order; none when the text does not parse as an object or
/// `mcpServers` is there but not an object.
pub open spec fn spec_configured_servers(text: Seq<char>) -> Seq<Seq<char>> {
    match crate::json::parsed_json(text) {
        Some(v) => servers_in(v),
        None => Seq::empty(),
    }
}

/// The server names of a parsed `mcp.json`: the keys of its `mcpServers`
/// object, none when there is no such object.
pub open spec fn servers_in(v: Json) -> Seq<Seq<char>> {
    if v is Object {
        match crate::json::field(v, "mcpServers"@) {
            Some(Json::Object(ks, vs)) => crate::text::string_views(ks@),
            _ => Seq::empty(),
        }
    } else {
        Seq::empty()
    }
}

/// The MCP servers `mcp.json` configures (see [`spec_configured_servers`]).
pub fn configured_servers(mcp_json: &str) -> (r: Vec<String>)
    ensures
        crate::text::string_views(r@) == spec_configured_servers(mcp_json@),
{
    match crate::json::parse_json(mcp_json) {
        Some(v) => servers_of(&v),
        None => {
            let e: Vec<String> = Vec::new();
            assert(crate::text::string_views(e@) =~= Seq::<Seq<char>>::empty());
            e
        },
    }
}

/// The MCP servers a parsed `mcp.json` configures (see [`servers_in`]).
pub fn servers_of(v: &Json) -> (r: Vec<String>)
    ensures
        crate::text::string_views(r@) == servers_in(*v),
{
    let is_obj = match v {
        Json::Object(_, _) => true,
        _ => false,
    };
    let mut out: Vec<String> = Vec::new();
    if is_obj {
        match crate::json::get(v, "mcpServers") {
            Some(Json::Object(ks, _)) => {
                let mut i: usize = 0;
                while i < ks.len()
                    invariant
                        0 <= i <= ks@.len(),
                        crate::text::string_views(out@) == crate::text::string_views(ks@.take(i as int)),
                    decreases ks.len() - i,
                {
                    let ghost before = out@;
                    out.push(ks[i].clone());
                    assert(out@ == before.push(ks@[i as int]));
                    assert(ks@.take(i + 1) =~= ks@.take(i as int).push(ks@[i as int]));
                    assert(crate::text::string_views(out@) =~= crate::text::string_views(before).push(
                        ks@[i as int]@,
                    ));
                    assert(crate::text::string_views(ks@.take(i + 1)) =~= crate::text::string_views(
                        ks@.take(i as int),
                    ).push(ks@[i as int]@));
                    i = i + 1;
                }
                assert(ks@.take(i as int) =~= ks@);
            },
            _ => {},
        }
    }
    proof {
        if !is_obj || !(crate::json::field(*v, "mcpServers"@) matches Some(Json::Object(_, _))) {
            assert(crate::text::string_views(out@) =~= Seq::<Seq<char>>::empty());
        }
    }
    out
}

} // verus!

verus! {

/// A tool result settles the pending call it answers, whether it reports an
/// error or not: that call leaves the pending list and no call with its id
/// stays pending; the number of calls made does not change.
pub proof fn lemma_result_settles_its_call(t: McpView, msg: Json, id: String, k: int)
    requires
        crate::json::field(msg, "toolCallId"@) == Some(Json::Str(id)),
        0 <= k < t.pending.len(),
        t.pending[k].0 == id@,
        forall|j: int| 0 <= j < t.pending.len() && j != k ==> (#[trigger] t.pending[j]).0 != id@,
    ensures
        mcp_result_step(t, msg).pending == t.pending.remove(k),
        mcp_result_step(t, msg).pending.len() == t.pending.len() - 1,
        forall|j: int|
            0 <= j < mcp_result_step(t, msg).pending.len() ==> (#[trigger] mcp_result_step(
                t,
                msg,
            ).pending[j]).0 != id@,
        mcp_result_step(t, msg).total_calls == t.total_calls,
        crate::json::bool_of(crate::json::field(msg, "isError"@)) == Some(true) && t.total_errors
            < u64::MAX ==> mcp_result_step(t, msg).total_errors == t.total_errors + 1,
        crate::json::bool_of(crate::json::field(msg, "isError"@)) != Some(true) ==> mcp_result_step(
            t,
            msg,
        ).total_errors == t.total_errors,
{
    assert(str_or_empty(crate::json::field(msg, "toolCallId"@)) == id@);
    let c = choose|i: int|
        0 <= i < t.pending.len() && (#[trigger] t.pending[i]).0 == id@ && forall|j: int|
            0 <= j < i ==> (#[trigger] t.pending[j]).0 != id@;
    assert(0 <= k < t.pending.len() && t.pending[k].0 == id@ && forall|j: int|
        0 <= j < k ==> (#[trigger] t.pending[j]).0 != id@);
    assert(c == k) by {
        if c != k {
            assert(t.pending[c].0 != id@);
        }
    }
    assert(pending_index(t.pending, id@) == Some(k));
    let r = t.pending.remove(k);
    assert forall|j: int| 0 <= j < r.len() implies (#[trigger] r[j]).0 != id@ by {
        if j < k {
            assert(r[j] == t.pending[j]);
        } else {
            assert(r[j] == t.pending[j + 1]);
        }
    }
}

/// A tool call of a configured MCP server counts one more call, is listed
/// among the recent calls, and waits under its id for its result.
pub proof fn lemma_call_is_counted(t: McpView, b: Json, servers: Seq<Seq<char>>, ts: u64, id: Seq<char>)
    requires
        crate::json::str_of(crate::json::field(b, "type"@)) == Some("toolCall"@),
        crate::json::str_of(crate::json::field(b, "id"@)) == Some(id),
        id.len() > 0,
        spec_classify(str_or_empty(crate::json::field(b, "name"@)), servers) is Some,
        t.total_calls < u64::MAX,
    ensures
        mcp_block_step(t, b, servers, ts).total_calls == t.total_calls + 1,
        mcp_block_step(t, b, servers, ts).recent.len() == t.recent.len() + 1,
        exists|i: int|
            0 <= i < mcp_block_step(t, b, servers, ts).pending.len() && (#[trigger] mcp_block_step(
                t,
                b,
                servers,
                ts,
            ).pending[i]).0 == id,
{
    let r = mcp_block_step(t, b, servers, ts);
    assert(str_or_empty(crate::json::field(b, "id"@)) == id);
    match pending_index(t.pending, id) {
        Some(i) => {
            assert(0 <= i < t.pending.len());
            assert(r.pending[i].0 == id);
        },
        None => {
            assert(r.pending[t.pending.len() as int].0 == id);
        },
    }
}

} // verus!

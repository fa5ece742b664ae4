//! The Herdr panes the sidebar reasons about: reading `herdr pane list
//! --json` output, recognising the sidebar pane and the pi agent pane of a
//! tab, and the pi session a pane hosts.
use crate::json::{field, get, get_str, member_index, parse_json, str_of, take_at, Json};
use crate::telemetry::session_log::{
    bool_member, non_null, opt_bool_member, opt_text_member, opt_value_member, text_member,
    text_view,
};
use crate::text::{chars_eq, chars_of, contains, lower_seq, text_lowercase};
use vstd::prelude::*;

verus! {

/// The Herdr command-line client: the binary it runs.
pub struct HerdrClient {
    pub bin_path: String,
}

impl HerdrClient {
    /// A client for the binary named by `HERDR_BIN_PATH`, `herdr` without one.
    pub fn with_bin_path(bin_path: Option<String>) -> (r: Self)
        ensures
            r.bin_path@ == match bin_path {
                Some(b) => b@,
                None => "herdr"@,
            },
    {
        match bin_path {
            Some(b) => HerdrClient { bin_path: b },
            None => HerdrClient { bin_path: crate::text::to_string("herdr") },
        }
    }
}

/// A pane as `herdr pane list` describes it.
pub struct HerdrPaneInfo {
    pub pane_id: String,
    pub tab_id: Option<String>,
    pub workspace_id: Option<String>,
    pub label: Option<String>,
    pub cwd: Option<String>,
    pub focused: Option<bool>,
    pub agent: Option<String>,
    pub terminal_title: Option<String>,
    /// `agentSession`, e.g. `{"agent":"pi","kind":"id","value":"01a0cf71-..."}`.
    pub agent_session: Option<Json>,
}

/// The pi session id of a pane: the string `value` of its agent session.
pub open spec fn spec_session_id(p: HerdrPaneInfo) -> Option<Seq<char>> {
    match p.agent_session {
        Some(s) => str_of(field(s, "value"@)),
        None => None,
    }
}

impl HerdrPaneInfo {
    /// The pi session id the pane hosts (see [`spec_session_id`]).
    pub fn session_id(&self) -> (r: Option<String>)
        ensures
            text_view(r) == spec_session_id(*self),
    {
        match &self.agent_session {
            Some(s) => match get_str(s, "value") {
                Some(v) => Some(v.clone()),
                None => None,
            },
            None => None,
        }
    }
}

/// A pane document reads: an object with a string `pane_id` and each
/// optional member absent, `null` or of its type.
pub open spec fn pane_reads(v: Json) -> bool {
    &&& v is Object
    &&& str_of(field(v, "pane_id"@)) is Some
    &&& opt_text_member(v, "tab_id"@) is Some
    &&& opt_text_member(v, "workspace_id"@) is Some
    &&& opt_text_member(v, "label"@) is Some
    &&& opt_text_member(v, "cwd"@) is Some
    &&& opt_bool_member(v, "focused"@) is Some
    &&& opt_text_member(v, "agent"@) is Some
    &&& opt_text_member(v, "terminal_title"@) is Some
}

/// `p` is the pane the document `v` reads as.
pub open spec fn pane_is(p: HerdrPaneInfo, v: Json) -> bool {
    &&& str_of(field(v, "pane_id"@)) == Some(p.pane_id@)
    &&& opt_text_member(v, "tab_id"@) == Some(text_view(p.tab_id))
    &&& opt_text_member(v, "workspace_id"@) == Some(text_view(p.workspace_id))
    &&& opt_text_member(v, "label"@) == Some(text_view(p.label))
    &&& opt_text_member(v, "cwd"@) == Some(text_view(p.cwd))
    &&& opt_bool_member(v, "focused"@) == Some(p.focused)
    &&& opt_text_member(v, "agent"@) == Some(text_view(p.agent))
    &&& opt_text_member(v, "terminal_title"@) == Some(text_view(p.terminal_title))
    &&& p.agent_session == opt_value_member(v, "agentSession"@)
}

/// Reads a pane document.
pub fn read_pane(v: Json) -> (r: Option<HerdrPaneInfo>)
    ensures
        match r {
            Some(p) => pane_reads(v) && pane_is(p, v),
            None => !pane_reads(v),
        },
{
    let pane_id = match get_str(&v, "pane_id") {
        Some(s) => s.clone(),
        None => {
            return None;
        },
    };
    let tab_id = match text_member(&v, "tab_id") {
        Some(t) => t,
        None => {
            return None;
        },
    };
    let workspace_id = match text_member(&v, "workspace_id") {
        Some(t) => t,
        None => {
            return None;
        },
    };
    let label = match text_member(&v, "label") {
        Some(t) => t,
        None => {
            return None;
        },
    };
    let cwd = match text_member(&v, "cwd") {
        Some(t) => t,
        None => {
            return None;
        },
    };
    let focused = match bool_member(&v, "focused") {
        Some(t) => t,
        None => {
            return None;
        },
    };
    let agent = match text_member(&v, "agent") {
        Some(t) => t,
        None => {
            return None;
        },
    };
    let terminal_title = match text_member(&v, "terminal_title") {
        Some(t) => t,
        None => {
            return None;
        },
    };
    match v {
        Json::Object(ks, vs) => {
            let mut vs = vs;
            let agent_session = match member_index(&ks, &vs, "agentSession") {
                Some(i) => non_null(take_at(&mut vs, i)),
                None => None,
            };
            Some(
                HerdrPaneInfo {
                    pane_id,
                    tab_id,
                    workspace_id,
                    label,
                    cwd,
                    focused,
                    agent,
                    terminal_title,
                    agent_session,
                },
            )
        },
        _ => None,
    }
}

/// An optional pane member reads when absent, `null`, or a pane.
pub open spec fn opt_pane_reads(o: Option<Json>) -> bool {
    match o {
        None => true,
        Some(Json::Null) => true,
        Some(x) => pane_reads(x),
    }
}

/// An optional list of panes reads when absent, `null`, or an array of panes.
pub open spec fn opt_panes_read(o: Option<Json>) -> bool {
    match o {
        None => true,
        Some(Json::Null) => true,
        Some(Json::Array(ps)) => forall|i: int| 0 <= i < ps@.len() ==> pane_reads(#[trigger] ps@[i]),
        Some(_) => false,
    }
}

/// The pane documents of a parsed `herdr ... --json` reply: `result.panes`
/// when the envelope reads (an object whose `result`, if any, is an object
/// with readable `panes` and `pane`); none otherwise.
pub open spec fn panes_in(v: Json) -> Seq<Json> {
    if !(v is Object) {
        Seq::empty()
    } else {
        match field(v, "result"@) {
            None => Seq::empty(),
            Some(Json::Null) => Seq::empty(),
            Some(r) => if r is Object && opt_panes_read(field(r, "panes"@)) && opt_pane_reads(
                field(r, "pane"@),
            ) {
                match field(r, "panes"@) {
                    Some(Json::Array(ps)) => ps@,
                    _ => Seq::empty(),
                }
            } else {
                Seq::empty()
            },
        }
    }
}

/// The pane documents of `herdr ... --json` output (see [`panes_in`]); none
/// when the text is not JSON.
pub open spec fn listed_panes(text: Seq<char>) -> Seq<Json> {
    match crate::json::parsed_json(text) {
        None => Seq::empty(),
        Some(v) => panes_in(v),
    }
}

fn pane_member_reads(r: &Json) -> (ok: bool)
    ensures
        ok == opt_pane_reads(field(*r, "pane"@)),
{
    match get(r, "pane") {
        None => true,
        Some(Json::Null) => true,
        Some(p) => pane_doc_reads(p),
    }
}

/// Whether a document reads as a pane, without taking it apart.
fn pane_doc_reads(v: &Json) -> (ok: bool)
    ensures
        ok == pane_reads(*v),
{
    match v {
        Json::Object(_, _) => {},
        _ => {
            return false;
        },
    }
    let a = match get_str(v, "pane_id") {
        Some(_) => true,
        None => false,
    };
    a && text_member(v, "tab_id").is_some() && text_member(v, "workspace_id").is_some()
        && text_member(v, "label").is_some() && text_member(v, "cwd").is_some() && bool_member(
        v,
        "focused",
    ).is_some() && text_member(v, "agent").is_some() && text_member(v, "terminal_title").is_some()
}

fn all_panes_read(ps: &Vec<Json>) -> (ok: bool)
    ensures
        ok == forall|i: int| 0 <= i < ps@.len() ==> pane_reads(#[trigger] ps@[i]),
{
    let mut i: usize = 0;
    while i < ps.len()
        invariant
            0 <= i <= ps@.len(),
            forall|j: int| 0 <= j < i ==> pane_reads(#[trigger] ps@[j]),
        decreases ps.len() - i,
    {
        if !pane_doc_reads(&ps[i]) {
            return false;
        }
        i = i + 1;
    }
    true
}

/// Whether the envelope of `herdr ... --json` output reads, and has panes.
fn envelope_has_panes(v: &Json) -> (ok: bool)
    ensures
        ok == (v is Object && match field(*v, "result"@) {
            None => false,
            Some(Json::Null) => false,
            Some(r) => r is Object && opt_panes_read(field(r, "panes"@)) && opt_pane_reads(
                field(r, "pane"@),
            ) && field(r, "panes"@) matches Some(Json::Array(_)),
        }),
{
    match v {
        Json::Object(_, _) => {},
        _ => {
            return false;
        },
    }
    let r = match get(v, "result") {
        None => {
            return false;
        },
        Some(Json::Null) => {
            return false;
        },
        Some(r) => r,
    };
    match r {
        Json::Object(_, _) => {},
        _ => {
            return false;
        },
    }
    if !pane_member_reads(r) {
        return false;
    }
    match get(r, "panes") {
        Some(Json::Array(ps)) => all_panes_read(ps),
        _ => false,
    }
}

/// The panes of `herdr pane list --json` output (see [`listed_panes`]).
pub fn read_panes(text: &str) -> (r: Vec<HerdrPaneInfo>)
    ensures
        r@.len() == listed_panes(text@).len(),
        forall|i: int| 0 <= i < r@.len() ==> pane_is(#[trigger] r@[i], listed_panes(text@)[i]),
{
    match parse_json(text) {
        Some(v) => panes_of(v),
        None => Vec::new(),
    }
}

/// The panes of a parsed `herdr pane list --json` reply (see [`panes_in`]).
pub fn panes_of(v: Json) -> (r: Vec<HerdrPaneInfo>)
    ensures
        r@.len() == panes_in(v).len(),
        forall|i: int| 0 <= i < r@.len() ==> pane_is(#[trigger] r@[i], panes_in(v)[i]),
{
    if !envelope_has_panes(&v) {
        return Vec::new();
    }
    let ghost v0 = v;
    let (ks, vs) = match v {
        Json::Object(ks, vs) => (ks, vs),
        _ => {
            return Vec::new();
        },
    };
    let mut vs = vs;
    let r = match member_index(&ks, &vs, "result") {
        Some(i) => take_at(&mut vs, i),
        None => {
            return Vec::new();
        },
    };
    let (rks, rvs) = match r {
        Json::Object(rks, rvs) => (rks, rvs),
        _ => {
            return Vec::new();
        },
    };
    let mut rvs = rvs;
    let list = match member_index(&rks, &rvs, "panes") {
        Some(i) => take_at(&mut rvs, i),
        None => {
            return Vec::new();
        },
    };
    let mut ps = match list {
        Json::Array(ps) => ps,
        _ => {
            return Vec::new();
        },
    };
    let ghost docs = ps@;
    assert(docs == panes_in(v0));
    let mut out: Vec<HerdrPaneInfo> = Vec::new();
    let mut i: usize = 0;
    while i < ps.len()
        invariant
            0 <= i <= ps@.len(),
            ps@.len() == docs.len(),
            docs == panes_in(v0),
            forall|j: int| i <= j < docs.len() ==> #[trigger] ps@[j] == docs[j],
            forall|j: int| 0 <= j < docs.len() ==> pane_reads(#[trigger] docs[j]),
            out@.len() == i,
            forall|j: int| 0 <= j < i ==> pane_is(#[trigger] out@[j], docs[j]),
        decreases ps.len() - i,
    {
        let d = take_at(&mut ps, i);
        assert(d == docs[i as int]);
        match read_pane(d) {
            Some(p) => {
                out.push(p);
            },
            None => {
                assert(false);
            },
        }
        i = i + 1;
    }
    out
}


/// A label that names the sidebar pane, ASCII case ignored: `pi-sidebar`,
/// `Pi Sidebar`, `pi-herdr-sidebar` or `Pi Herdr Sidebar`.
pub open spec fn is_sidebar_label(label: Seq<char>) -> bool {
    let l = lower_seq(label);
    l == "pi-sidebar"@ || l == "pi sidebar"@ || l == "pi-herdr-sidebar"@ || l == "pi herdr sidebar"@
}

/// The pane is in the tab (any tab when none is given).
pub open spec fn in_tab(p: HerdrPaneInfo, tab_id: Option<Seq<char>>) -> bool {
    match tab_id {
        None => true,
        Some(t) => text_view(p.tab_id) == Some(t),
    }
}

/// The pane is the sidebar of the tab.
pub open spec fn is_sidebar_of(p: HerdrPaneInfo, tab_id: Option<Seq<char>>) -> bool {
    is_sidebar_label(
        match p.label {
            Some(l) => l@,
            None => Seq::empty(),
        },
    ) && in_tab(p, tab_id)
}

/// The pane runs a pi agent: its agent is `pi`, or its terminal title has
/// `π` or, lowercased, `pi`.
pub open spec fn is_pi_agent(p: HerdrPaneInfo) -> bool {
    ||| text_view(p.agent) == Some("pi"@)
    ||| match p.terminal_title {
        Some(t) => contains(t@, "π"@) || contains(text_lowercase(t@), "pi"@),
        None => false,
    }
}

/// Index of the first pane that satisfies `pred`.
pub open spec fn first_pane(panes: Seq<HerdrPaneInfo>, pred: spec_fn(HerdrPaneInfo) -> bool) -> Option<int>
    decreases panes.len(),
{
    if panes.len() == 0 {
        None
    } else {
        match first_pane(panes.drop_last(), pred) {
            Some(i) => Some(i),
            None => if pred(panes.last()) {
                Some(panes.len() - 1)
            } else {
                None
            },
        }
    }
}

pub open spec fn opt_str_view(o: Option<&str>) -> Option<Seq<char>> {
    match o {
        Some(s) => Some(s@),
        None => None,
    }
}

fn text_is(o: &Option<String>, t: &str) -> (r: bool)
    ensures
        r == (text_view(*o) == Some(t@)),
{
    match o {
        Some(s) => chars_eq(chars_of(s.as_str()).as_slice(), chars_of(t).as_slice()),
        None => false,
    }
}

fn in_tab_exec(p: &HerdrPaneInfo, tab_id: Option<&str>) -> (r: bool)
    ensures
        r == in_tab(*p, opt_str_view(tab_id)),
{
    match tab_id {
        None => true,
        Some(t) => text_is(&p.tab_id, t),
    }
}

fn is_sidebar_exec(p: &HerdrPaneInfo, tab_id: Option<&str>) -> (r: bool)
    ensures
        r == is_sidebar_of(*p, opt_str_view(tab_id)),
{
    let l = match &p.label {
        Some(l) => crate::text::lower_chars(chars_of(l.as_str()).as_slice()),
        None => Vec::new(),
    };
    let named = chars_eq(l.as_slice(), chars_of("pi-sidebar").as_slice()) || chars_eq(
        l.as_slice(),
        chars_of("pi sidebar").as_slice(),
    ) || chars_eq(l.as_slice(), chars_of("pi-herdr-sidebar").as_slice()) || chars_eq(
        l.as_slice(),
        chars_of("pi herdr sidebar").as_slice(),
    );
    proof {
        if p.label is None {
            assert(lower_seq(Seq::<char>::empty()) =~= Seq::<char>::empty());
        }
    }
    named && in_tab_exec(p, tab_id)
}

fn is_pi_agent_exec(p: &HerdrPaneInfo) -> (r: bool)
    ensures
        r == is_pi_agent(*p),
{
    if text_is(&p.agent, "pi") {
        return true;
    }
    match &p.terminal_title {
        Some(t) => {
            let tc = chars_of(t.as_str());
            crate::text::contains_chars(tc.as_slice(), chars_of("π").as_slice())
                || crate::text::contains_chars(
                crate::text::unicode_lower_chars(tc.as_slice()).as_slice(),
                chars_of("pi").as_slice(),
            )
        },
        None => false,
    }
}

/// Index of the sidebar pane of the tab (any tab when none is given).
pub fn find_sidebar_pane(panes: &[HerdrPaneInfo], tab_id: Option<&str>) -> (r: Option<usize>)
    ensures
        index_view(r) == first_pane(panes@, |p: HerdrPaneInfo| is_sidebar_of(p, opt_str_view(tab_id))),
        r matches Some(i) ==> i < panes@.len(),
{
    let ghost pred = |p: HerdrPaneInfo| is_sidebar_of(p, opt_str_view(tab_id));
    let mut i: usize = 0;
    assert(panes@.take(0) =~= Seq::<HerdrPaneInfo>::empty());
    while i < panes.len()
        invariant
            0 <= i <= panes@.len(),
            pred == (|p: HerdrPaneInfo| is_sidebar_of(p, opt_str_view(tab_id))),
            first_pane(panes@.take(i as int), pred) is None,
        decreases panes.len() - i,
    {
        assert(panes@.take(i + 1).drop_last() =~= panes@.take(i as int));
        assert(panes@.take(i + 1).last() == panes@[i as int]);
        if is_sidebar_exec(&panes[i], tab_id) {
            proof {
                lemma_first_pane_prefix(panes@, pred, i + 1);
            }
            return Some(i);
        }
        i = i + 1;
    }
    assert(panes@.take(i as int) =~= panes@);
    None
}

/// Index of the first pi agent pane of the tab (any tab when none is given).
pub fn find_agent_pane(panes: &[HerdrPaneInfo], tab_id: Option<&str>) -> (r: Option<usize>)
    ensures
        index_view(r) == first_pane(panes@, |p: HerdrPaneInfo| in_tab(p, opt_str_view(tab_id)) && is_pi_agent(p)),
        r matches Some(i) ==> i < panes@.len(),
{
    let ghost pred = |p: HerdrPaneInfo| in_tab(p, opt_str_view(tab_id)) && is_pi_agent(p);
    let mut i: usize = 0;
    assert(panes@.take(0) =~= Seq::<HerdrPaneInfo>::empty());
    while i < panes.len()
        invariant
            0 <= i <= panes@.len(),
            pred == (|p: HerdrPaneInfo| in_tab(p, opt_str_view(tab_id)) && is_pi_agent(p)),
            first_pane(panes@.take(i as int), pred) is None,
        decreases panes.len() - i,
    {
        assert(panes@.take(i + 1).drop_last() =~= panes@.take(i as int));
        assert(panes@.take(i + 1).last() == panes@[i as int]);
        if in_tab_exec(&panes[i], tab_id) && is_pi_agent_exec(&panes[i]) {
            proof {
                lemma_first_pane_prefix(panes@, pred, i + 1);
            }
            return Some(i);
        }
        i = i + 1;
    }
    assert(panes@.take(i as int) =~= panes@);
    None
}

pub open spec fn index_view(o: Option<usize>) -> Option<int> {
    match o {
        Some(i) => Some(i as int),
        None => None,
    }
}

proof fn lemma_first_pane_prefix(panes: Seq<HerdrPaneInfo>, pred: spec_fn(HerdrPaneInfo) -> bool, k: int)
    requires
        0 <= k <= panes.len(),
        first_pane(panes.take(k), pred) is Some,
    ensures
        first_pane(panes, pred) == first_pane(panes.take(k), pred),
    decreases panes.len() - k,
{
    if k < panes.len() {
        assert(panes.take(k + 1).drop_last() =~= panes.take(k));
        lemma_first_pane_prefix(panes, pred, k + 1);
    } else {
        assert(panes.take(k) =~= panes);
    }
}

/// The id of the pane `herdr pane split --json` created: `result.pane`'s
/// `pane_id` when the envelope reads and holds that pane.
pub open spec fn created_pane(text: Seq<char>) -> Option<Seq<char>> {
    match crate::json::parsed_json(text) {
        None => None,
        Some(v) => created_pane_in(v),
    }
}

/// The id of the pane a parsed split reply names: `result.pane.pane_id`
/// when the envelope reads.
pub open spec fn created_pane_in(v: Json) -> Option<Seq<char>> {
    if !(v is Object) {
        None
    } else {
        match field(v, "result"@) {
            None => None,
            Some(Json::Null) => None,
            Some(r) => if r is Object && opt_panes_read(field(r, "panes"@)) && opt_pane_reads(
                field(r, "pane"@),
            ) {
                match field(r, "pane"@) {
                    Some(Json::Null) => None,
                    Some(p) => str_of(field(p, "pane_id"@)),
                    None => None,
                }
            } else {
                None
            },
        }
    }
}

fn panes_member_reads(r: &Json) -> (ok: bool)
    ensures
        ok == opt_panes_read(field(*r, "panes"@)),
{
    match get(r, "panes") {
        None => true,
        Some(Json::Null) => true,
        Some(Json::Array(ps)) => all_panes_read(ps),
        Some(_) => false,
    }
}

/// The id of the pane a split created (see [`created_pane`]), `unknown`
/// when the output does not say.
pub fn split_pane_id(text: &str) -> (r: String)
    ensures
        r@ == (match created_pane(text@) {
            Some(id) => id,
            None => "unknown"@,
        }),
{
    match parse_json(text) {
        Some(v) => created_pane_id(&v),
        None => crate::text::to_string("unknown"),
    }
}

/// The id of the pane a parsed split reply names (see [`created_pane_in`]),
/// `unknown` when it does not say.
pub fn created_pane_id(v: &Json) -> (r: String)
    ensures
        r@ == (match created_pane_in(*v) {
            Some(id) => id,
            None => "unknown"@,
        }),
{
    let unknown = crate::text::to_string("unknown");
    match v {
        Json::Object(_, _) => {},
        _ => {
            return unknown;
        },
    }
    let r = match get(v, "result") {
        None => {
            return unknown;
        },
        Some(Json::Null) => {
            return unknown;
        },
        Some(r) => r,
    };
    match r {
        Json::Object(_, _) => {},
        _ => {
            return unknown;
        },
    }
    if !panes_member_reads(r) || !pane_member_reads(r) {
        return unknown;
    }
    match get(r, "pane") {
        Some(Json::Null) => unknown,
        Some(p) => match get_str(p, "pane_id") {
            Some(id) => crate::text::to_string(id.as_str()),
            None => unknown,
        },
        None => unknown,
    }
}

} // verus!

//! Turning the tallies of a scan into the ranked rows of the usage panel.
use crate::shortcuts::usage::model::{plugin_of, spec_plugin_of, Counted, PluginUsage, UsageStats};
use crate::shortcuts::usage::parse::{builtin_sum, distinct_names, tally_view, Counters};
use crate::sorting::{insert_index, insertion_sort, lemma_insert_index_bounds};
use crate::text::{chars_eq, chars_of, lex_less, lex_lt, to_string};
use vstd::prelude::*;

verus! {

/// Fingerprint of the log set: while it is unchanged, a cached aggregate is
/// still valid and no file has to be read.
#[derive(Debug, Clone, Copy, PartialEq, Eq, Structural)]
pub struct Fingerprint {
    pub files: usize,
    pub bytes: u64,
    pub newest_mtime: u64,
}

impl Default for Fingerprint {
    fn default() -> (r: Self)
        ensures
            r.files == 0 && r.bytes == 0 && r.newest_mtime == 0,
    {
        Fingerprint { files: 0, bytes: 0, newest_mtime: 0 }
    }
}

/// Most counted first, then by name.
pub open spec fn count_before(a: (Seq<char>, u64), b: (Seq<char>, u64)) -> bool {
    a.1 > b.1 || (a.1 == b.1 && lex_lt(a.0, b.0))
}

pub open spec fn by_count() -> spec_fn((Seq<char>, u64), (Seq<char>, u64)) -> bool {
    |a: (Seq<char>, u64), b: (Seq<char>, u64)| count_before(a, b)
}

fn count_less(a: &(String, u64), b: &(String, u64)) -> (r: bool)
    ensures
        r == count_before((a.0@, a.1), (b.0@, b.1)),
{
    a.1 > b.1 || (a.1 == b.1 && lex_less(chars_of(a.0.as_str()).as_slice(), chars_of(b.0.as_str()).as_slice()))
}

fn tally_insert_pos(out: &Vec<(String, u64)>, e: &(String, u64)) -> (j: usize)
    ensures
        j == insert_index(tally_view(out@), (e.0@, e.1), by_count()),
        j <= out@.len(),
{
    let ghost ov = tally_view(out@);
    let ghost ev = (e.0@, e.1);
    let mut j: usize = 0;
    assert(ov.skip(0) == ov);
    while j < out.len()
        invariant
            0 <= j <= out@.len(),
            ov == tally_view(out@),
            ov.len() == out@.len(),
            ev == (e.0@, e.1),
            insert_index(ov, ev, by_count()) == j + insert_index(ov.skip(j as int), ev, by_count()),
        decreases out.len() - j,
    {
        assert(ov.skip(j as int)[0] == ov[j as int]);
        if count_less(e, &out[j]) {
            return j;
        }
        assert(ov.skip(j as int).drop_first() == ov.skip(j + 1));
        j = j + 1;
    }
    j
}

fn plugin_insert_pos(out: &Vec<PluginUsage>, e: &PluginUsage) -> (j: usize)
    ensures
        j == insert_index(usage_views(out@), usage_view(*e), by_calls()),
        j <= out@.len(),
{
    let ghost ov = usage_views(out@);
    let ghost ev = usage_view(*e);
    let mut j: usize = 0;
    assert(ov.skip(0) == ov);
    while j < out.len()
        invariant
            0 <= j <= out@.len(),
            ov == usage_views(out@),
            ov.len() == out@.len(),
            ev == usage_view(*e),
            insert_index(ov, ev, by_calls()) == j + insert_index(ov.skip(j as int), ev, by_calls()),
        decreases out.len() - j,
    {
        assert(ov.skip(j as int)[0] == ov[j as int]);
        if plugin_less(e, &out[j]) {
            return j;
        }
        assert(ov.skip(j as int).drop_first() == ov.skip(j + 1));
        j = j + 1;
    }
    j
}

/// A tally sorted by count (most first), then by name.
pub fn sort_tally(v: Vec<(String, u64)>) -> (r: Vec<(String, u64)>)
    ensures
        tally_view(r@) == insertion_sort(tally_view(v@), by_count()),
{
    let ghost all = v@;
    let ghost tv = tally_view(all);
    let total = v.len();
    let mut rest = v;
    let mut out: Vec<(String, u64)> = Vec::new();
    let mut i: usize = 0;
    assert(tally_view(out@) =~= Seq::<(Seq<char>, u64)>::empty());
    assert(tv.take(0) =~= Seq::<(Seq<char>, u64)>::empty());
    while rest.len() > 0
        invariant
            tv == tally_view(all),
            total == all.len(),
            i + rest@.len() == all.len(),
            rest@ == all.skip(i as int),
            tally_view(out@) == insertion_sort(tv.take(i as int), by_count()),
        decreases rest.len(),
    {
        let e = rest.remove(0);
        assert(e == all[i as int]);
        assert(rest@ == all.skip(i + 1));
        let ghost ov = tally_view(out@);
        let ghost ev = (e.0@, e.1);
        let j = tally_insert_pos(&out, &e);
        proof {
            assert(tv.take(i + 1).drop_last() == tv.take(i as int));
            assert(tv.take(i + 1).last() == ev);
        }
        out.insert(j, e);
        assert(tally_view(out@) == ov.insert(j as int, ev));
        i = i + 1;
    }
    assert(tv.take(i as int) == tv);
    out
}

/// Counted rows as plain values.
pub open spec fn counted_view(v: Seq<Counted>) -> Seq<(Seq<char>, u64)> {
    v.map_values(|c: Counted| (c.name@, c.count))
}

/// The rows of a tally, most counted first (then by name), at most `limit`.
pub open spec fn spec_top(t: Seq<(Seq<char>, u64)>, limit: int) -> Seq<(Seq<char>, u64)> {
    let s = insertion_sort(t, by_count());
    if s.len() > limit {
        s.take(limit)
    } else {
        s
    }
}

/// The rows of a tally, most counted first (then by name), at most `limit`.
pub fn top(map: &[(String, u64)], limit: usize) -> (r: Vec<Counted>)
    ensures
        counted_view(r@) == spec_top(tally_view(map@), limit as int),
{
    let mut copy: Vec<(String, u64)> = Vec::new();
    let mut i: usize = 0;
    while i < map.len()
        invariant
            0 <= i <= map@.len(),
            tally_view(copy@) == tally_view(map@).take(i as int),
        decreases map.len() - i,
    {
        let ghost before = copy@;
        copy.push((map[i].0.clone(), map[i].1));
        assert(tally_view(copy@) == tally_view(before).push((map@[i as int].0@, map@[i as int].1)));
        assert(tally_view(map@).take(i + 1) == tally_view(map@).take(i as int).push(
            tally_view(map@)[i as int],
        ));
        i = i + 1;
    }
    assert(tally_view(map@).take(i as int) == tally_view(map@));
    let sorted = sort_tally(copy);
    let ghost sv = tally_view(sorted@);
    let mut out: Vec<Counted> = Vec::new();
    let mut k: usize = 0;
    let n = if sorted.len() > limit {
        limit
    } else {
        sorted.len()
    };
    while k < n
        invariant
            0 <= k <= n <= sorted@.len(),
            sv == tally_view(sorted@),
            counted_view(out@) == sv.take(k as int),
        decreases n - k,
    {
        let ghost before = out@;
        out.push(Counted { name: sorted[k].0.clone(), count: sorted[k].1 });
        assert(counted_view(out@) == counted_view(before).push(sv[k as int]));
        assert(sv.take(k + 1) == sv.take(k as int).push(sv[k as int]));
        k = k + 1;
    }
    out
}

// ---------------------------------------------------------------------------
// Plugins
// ---------------------------------------------------------------------------

/// Index of the group of plugin `p`.
pub open spec fn group_index(g: Seq<(Seq<char>, Seq<(Seq<char>, u64)>)>, p: Seq<char>) -> Option<
    int,
> {
    if exists|i: int|
        0 <= i < g.len() && (#[trigger] g[i]).0 == p && forall|j: int|
            0 <= j < i ==> (#[trigger] g[j]).0 != p {
        Some(
            choose|i: int|
                0 <= i < g.len() && (#[trigger] g[i]).0 == p && forall|j: int|
                    0 <= j < i ==> (#[trigger] g[j]).0 != p,
        )
    } else {
        None
    }
}

/// The tools of a tally grouped by the plugin that answers them; groups in
/// the order their plugin first appears, tools in tally order.
pub open spec fn group_tools(t: Seq<(Seq<char>, u64)>) -> Seq<(Seq<char>, Seq<(Seq<char>, u64)>)>
    decreases t.len(),
{
    if t.len() == 0 {
        Seq::empty()
    } else {
        let g = group_tools(t.drop_last());
        let e = t.last();
        let p = spec_plugin_of(e.0);
        match group_index(g, p) {
            Some(i) => g.update(i, (p, g[i].1.push(e))),
            None => g.push((p, seq![e])),
        }
    }
}

/// Sum of the counts.
pub open spec fn sum_counts(t: Seq<(Seq<char>, u64)>) -> int
    decreases t.len(),
{
    if t.len() == 0 {
        0
    } else {
        sum_counts(t.drop_last()) + t.last().1
    }
}

/// A plugin row: the plugin, its calls, and its tools most used first.
pub open spec fn plugin_row(g: (Seq<char>, Seq<(Seq<char>, u64)>)) -> (Seq<char>, u64, Seq<(Seq<char>, u64)>) {
    (g.0, sum_counts(g.1) as u64, insertion_sort(g.1, by_count()))
}

/// Most calls first, then by plugin name.
pub open spec fn plugin_before(
    a: (Seq<char>, u64, Seq<(Seq<char>, u64)>),
    b: (Seq<char>, u64, Seq<(Seq<char>, u64)>),
) -> bool {
    a.1 > b.1 || (a.1 == b.1 && lex_lt(a.0, b.0))
}

pub open spec fn by_calls() -> spec_fn(
    (Seq<char>, u64, Seq<(Seq<char>, u64)>),
    (Seq<char>, u64, Seq<(Seq<char>, u64)>),
) -> bool {
    |a: (Seq<char>, u64, Seq<(Seq<char>, u64)>), b: (Seq<char>, u64, Seq<(Seq<char>, u64)>)|
        plugin_before(a, b)
}

/// The plugin rows of a tool tally, most calls first (then by name).
pub open spec fn spec_rank_plugins(t: Seq<(Seq<char>, u64)>) -> Seq<(Seq<char>, u64, Seq<(Seq<char>, u64)>)> {
    insertion_sort(
        group_tools(t).map_values(|g: (Seq<char>, Seq<(Seq<char>, u64)>)| plugin_row(g)),
        by_calls(),
    )
}

pub open spec fn usage_view(p: PluginUsage) -> (Seq<char>, u64, Seq<(Seq<char>, u64)>) {
    (p.plugin@, p.calls, tally_view(p.tools@))
}

pub open spec fn usage_views(v: Seq<PluginUsage>) -> Seq<(Seq<char>, u64, Seq<(Seq<char>, u64)>)> {
    v.map_values(|p: PluginUsage| usage_view(p))
}

proof fn lemma_sum_nonneg(t: Seq<(Seq<char>, u64)>)
    ensures
        sum_counts(t) >= 0,
    decreases t.len(),
{
    if t.len() > 0 {
        lemma_sum_nonneg(t.drop_last());
    }
}

/// Each group's calls are part of the whole tally's calls.
proof fn lemma_group_sums(t: Seq<(Seq<char>, u64)>)
    ensures
        forall|i: int|
            0 <= i < group_tools(t).len() ==> 0 <= sum_counts((#[trigger] group_tools(t)[i]).1)
                <= sum_counts(t),
    decreases t.len(),
{
    if t.len() > 0 {
        let d = t.drop_last();
        lemma_group_sums(d);
        lemma_sum_nonneg(d);
        let g = group_tools(d);
        let e = t.last();
        let p = spec_plugin_of(e.0);
        assert(sum_counts(t) == sum_counts(d) + e.1);
        match group_index(g, p) {
            Some(k) => {
                assert(0 <= k < g.len());
                let gk = g[k].1.push(e);
                assert(gk.drop_last() == g[k].1);
                assert(sum_counts(gk) == sum_counts(g[k].1) + e.1);
                assert(group_tools(t) == g.update(k, (p, gk)));
                assert forall|i: int| 0 <= i < group_tools(t).len() implies 0 <= sum_counts(
                    (#[trigger] group_tools(t)[i]).1,
                ) <= sum_counts(t) by {
                    if i != k {
                        assert(group_tools(t)[i] == g[i]);
                    }
                }
            },
            None => {
                let ge = seq![e];
                assert(ge.drop_last() =~= Seq::<(Seq<char>, u64)>::empty());
                assert(ge.last() == e);
                assert(sum_counts(Seq::<(Seq<char>, u64)>::empty()) == 0);
                assert(sum_counts(ge) == e.1);
                assert(group_tools(t) == g.push((p, ge)));
                assert forall|i: int| 0 <= i < group_tools(t).len() implies 0 <= sum_counts(
                    (#[trigger] group_tools(t)[i]).1,
                ) <= sum_counts(t) by {
                    if i < g.len() {
                        assert(group_tools(t)[i] == g[i]);
                    }
                }
            },
        }
    }
}

struct Group {
    plugin: String,
    tools: Vec<(String, u64)>,
}

spec fn group_views(v: Seq<Group>) -> Seq<(Seq<char>, Seq<(Seq<char>, u64)>)> {
    v.map_values(|g: Group| (g.plugin@, tally_view(g.tools@)))
}

fn group_of(groups: &Vec<Group>, p: &str) -> (r: Option<usize>)
    ensures
        match r {
            Some(i) => group_index(group_views(groups@), p@) == Some(i as int) && i < groups@.len(),
            None => group_index(group_views(groups@), p@) is None,
        },
{
    let ghost gv = group_views(groups@);
    let mut i: usize = 0;
    while i < groups.len()
        invariant
            0 <= i <= groups@.len(),
            gv == group_views(groups@),
            gv.len() == groups@.len(),
            forall|j: int| 0 <= j < i ==> (#[trigger] gv[j]).0 != p@,
        decreases groups.len() - i,
    {
        assert(gv[i as int].0 == groups@[i as int].plugin@);
        if chars_eq(chars_of(groups[i].plugin.as_str()).as_slice(), chars_of(p).as_slice()) {
            let ghost c = choose|c: int|
                0 <= c < gv.len() && (#[trigger] gv[c]).0 == p@ && forall|j: int|
                    0 <= j < c ==> (#[trigger] gv[j]).0 != p@;
            assert(c == i) by {
                if c < i {
                    assert(gv[c].0 != p@);
                }
                if c > i {
                    assert(gv[i as int].0 == p@);
                }
            }
            return Some(i);
        }
        i = i + 1;
    }
    assert forall|c: int| 0 <= c < gv.len() implies (#[trigger] gv[c]).0 != p@ by {}
    None
}

#[verifier::rlimit(40)]
fn group_all(tools: &[(String, u64)]) -> (r: Vec<Group>)
    ensures
        group_views(r@) == group_tools(tally_view(tools@)),
{
    let ghost tv = tally_view(tools@);
    let mut groups: Vec<Group> = Vec::new();
    let mut i: usize = 0;
    assert(group_views(groups@) =~= Seq::<(Seq<char>, Seq<(Seq<char>, u64)>)>::empty());
    while i < tools.len()
        invariant
            0 <= i <= tools@.len(),
            tv == tally_view(tools@),
            group_views(groups@) == group_tools(tv.take(i as int)),
        decreases tools.len() - i,
    {
        let ghost gv = group_views(groups@);
        let ghost e = tv[i as int];
        assert(tv.take(i + 1).drop_last() == tv.take(i as int));
        assert(tv.take(i + 1).last() == e);
        let name = tools[i].0.clone();
        let count = tools[i].1;
        let p = plugin_of(name.as_str());
        match group_of(&groups, p) {
            Some(k) => {
                assert(gv[k as int].0 == p@);
                let ghost og = groups@;
                let mut g = groups.remove(k);
                assert(g == og[k as int]);
                assert(g.plugin@ == p@);
                assert((name@, count) == e);
                let ghost ot = g.tools@;
                g.tools.push((name, count));
                assert(tally_view(g.tools@) =~= tally_view(ot).push(e));
                groups.insert(k, g);
                assert(groups@ =~= og.update(k as int, g));
                assert(group_views(groups@) =~= gv.update(k as int, (p@, gv[k as int].1.push(e))));
            },
            None => {
                let mut ts: Vec<(String, u64)> = Vec::new();
                ts.push((name, count));
                let g = Group { plugin: to_string(p), tools: ts };
                groups.push(g);
                assert(tally_view(ts@) =~= seq![e]);
                assert(group_views(groups@) =~= gv.push((p@, seq![e])));
            },
        }
        i = i + 1;
    }
    assert(tv.take(i as int) == tv);
    groups
}

fn sum_tally(t: &Vec<(String, u64)>) -> (n: u64)
    requires
        sum_counts(tally_view(t@)) <= u64::MAX,
    ensures
        n == sum_counts(tally_view(t@)),
{
    let ghost tv = tally_view(t@);
    let mut n: u64 = 0;
    let mut i: usize = 0;
    while i < t.len()
        invariant
            0 <= i <= t@.len(),
            tv == tally_view(t@),
            sum_counts(tv) <= u64::MAX,
            n == sum_counts(tv.take(i as int)),
        decreases t.len() - i,
    {
        assert(tv.take(i + 1).drop_last() == tv.take(i as int));
        proof {
            lemma_sum_prefix(tv, i + 1);
        }
        n = n + t[i].1;
        i = i + 1;
    }
    assert(tv.take(i as int) == tv);
    n
}

proof fn lemma_sum_prefix(t: Seq<(Seq<char>, u64)>, k: int)
    requires
        0 <= k <= t.len(),
    ensures
        0 <= sum_counts(t.take(k)) <= sum_counts(t),
    decreases t.len() - k,
{
    if k < t.len() {
        lemma_sum_prefix(t, k + 1);
        assert(t.take(k + 1).drop_last() == t.take(k));
    } else {
        assert(t.take(k) == t);
    }
    lemma_sum_nonneg(t.take(k));
}

fn plugin_less(a: &PluginUsage, b: &PluginUsage) -> (r: bool)
    ensures
        r == plugin_before(usage_view(*a), usage_view(*b)),
{
    a.calls > b.calls || (a.calls == b.calls && lex_less(
        chars_of(a.plugin.as_str()).as_slice(),
        chars_of(b.plugin.as_str()).as_slice(),
    ))
}

fn sort_plugins(v: Vec<PluginUsage>) -> (r: Vec<PluginUsage>)
    ensures
        usage_views(r@) == insertion_sort(usage_views(v@), by_calls()),
{
    let ghost all = v@;
    let ghost tv = usage_views(all);
    let total = v.len();
    let mut rest = v;
    let mut out: Vec<PluginUsage> = Vec::new();
    let mut i: usize = 0;
    assert(usage_views(out@) =~= Seq::<(Seq<char>, u64, Seq<(Seq<char>, u64)>)>::empty());
    assert(tv.take(0) =~= Seq::<(Seq<char>, u64, Seq<(Seq<char>, u64)>)>::empty());
    while rest.len() > 0
        invariant
            tv == usage_views(all),
            total == all.len(),
            i + rest@.len() == all.len(),
            rest@ == all.skip(i as int),
            usage_views(out@) == insertion_sort(tv.take(i as int), by_calls()),
        decreases rest.len(),
    {
        let e = rest.remove(0);
        assert(e == all[i as int]);
        assert(rest@ == all.skip(i + 1));
        let ghost ov = usage_views(out@);
        let ghost ev = usage_view(e);
        let j = plugin_insert_pos(&out, &e);
        proof {
            assert(tv.take(i + 1).drop_last() == tv.take(i as int));
            assert(tv.take(i + 1).last() == ev);
        }
        out.insert(j, e);
        assert(usage_views(out@) == ov.insert(j as int, ev));
        i = i + 1;
    }
    assert(tv.take(i as int) == tv);
    out
}

/// The plugin rows of a tool tally: each plugin with its calls and its tools
/// most used first; plugins with most calls first, then by name.
pub fn rank_plugins(tools: &[(String, u64)]) -> (r: Vec<PluginUsage>)
    requires
        sum_counts(tally_view(tools@)) <= u64::MAX,
    ensures
        usage_views(r@) == spec_rank_plugins(tally_view(tools@)),
{
    let groups = group_all(tools);
    let ghost gv = group_views(groups@);
    proof {
        lemma_group_sums(tally_view(tools@));
    }
    let ghost target = gv.map_values(|g: (Seq<char>, Seq<(Seq<char>, u64)>)| plugin_row(g));
    let mut rows: Vec<PluginUsage> = Vec::new();
    let mut rest = groups;
    let ghost all = rest@;
    let total = rest.len();
    let mut i: usize = 0;
    assert(usage_views(rows@) =~= target.take(0));
    while rest.len() > 0
        invariant
            gv == group_views(all),
            total == all.len(),
            i + rest@.len() == all.len(),
            rest@ == all.skip(i as int),
            target == gv.map_values(|g: (Seq<char>, Seq<(Seq<char>, u64)>)| plugin_row(g)),
            gv == group_tools(tally_view(tools@)),
            sum_counts(tally_view(tools@)) <= u64::MAX,
            forall|k: int|
                0 <= k < gv.len() ==> 0 <= sum_counts((#[trigger] gv[k]).1) <= sum_counts(
                    tally_view(tools@),
                ),
            usage_views(rows@) == target.take(i as int),
        decreases rest.len(),
    {
        let g = rest.remove(0);
        assert(g == all[i as int]);
        assert(rest@ == all.skip(i + 1));
        assert(gv[i as int] == (g.plugin@, tally_view(g.tools@)));
        let calls = sum_tally(&g.tools);
        let sorted = sort_tally(g.tools);
        let row = PluginUsage { plugin: g.plugin, calls, tools: sorted };
        let ghost before = rows@;
        rows.push(row);
        assert(usage_views(rows@) == usage_views(before).push(usage_view(row)));
        assert(usage_view(row) == plugin_row(gv[i as int]));
        assert(target.take(i + 1) == target.take(i as int).push(target[i as int]));
        i = i + 1;
    }
    assert(target.take(i as int) == target);
    sort_plugins(rows)
}

// ---------------------------------------------------------------------------
// The aggregate of a pass
// ---------------------------------------------------------------------------

/// The fingerprint with one more log file of `len` bytes, modified at
/// `mtime` (Unix seconds) when the system could tell.
pub open spec fn with_file_spec(fp: Fingerprint, len: u64, mtime: Option<u64>) -> Fingerprint {
    Fingerprint {
        files: fp.files,
        bytes: (fp.bytes + len) as u64,
        newest_mtime: match mtime {
            Some(m) => if m > fp.newest_mtime {
                m
            } else {
                fp.newest_mtime
            },
            None => fp.newest_mtime,
        },
    }
}

impl Fingerprint {
    /// The fingerprint with one more log file (see [`with_file_spec`]).
    pub fn with_file(self, len: u64, mtime: Option<u64>) -> (r: Fingerprint)
        requires
            self.bytes + len <= u64::MAX,
        ensures
            r == with_file_spec(self, len, mtime),
            r.bytes == self.bytes + len,
    {
        let newest_mtime = match mtime {
            Some(m) => if m > self.newest_mtime {
                m
            } else {
                self.newest_mtime
            },
            None => self.newest_mtime,
        };
        Fingerprint { files: self.files, bytes: self.bytes + len, newest_mtime }
    }
}

/// A log that grew changes the fingerprint, so a cached aggregate is not
/// taken for the grown log set.
pub proof fn lemma_growth_changes_fingerprint(fp: Fingerprint, a: u64, b: u64, mtime: Option<u64>)
    requires
        fp.bytes + a <= u64::MAX,
        fp.bytes + b <= u64::MAX,
        a != b,
    ensures
        with_file_spec(fp, a, mtime) != with_file_spec(fp, b, mtime),
{
    assert(with_file_spec(fp, a, mtime).bytes != with_file_spec(fp, b, mtime).bytes);
}

/// The newest modification time seen so far, with one more file's.
pub fn newest_of(newest: Option<u64>, secs: u64) -> (r: Option<u64>)
    ensures
        r == Some(
            match newest {
                Some(n) => if n > secs {
                    n
                } else {
                    secs
                },
                None => secs,
            },
        ),
{
    match newest {
        Some(n) => Some(if n > secs {
            n
        } else {
            secs
        }),
        None => Some(secs),
    }
}

proof fn lemma_builtin_within(t: Seq<(Seq<char>, u64)>)
    ensures
        0 <= builtin_sum(t) <= sum_counts(t),
    decreases t.len(),
{
    if t.len() > 0 {
        lemma_builtin_within(t.drop_last());
    }
}

/// All calls of a tally, `None` when they do not fit in a `u64`.
pub fn checked_total(t: &[(String, u64)]) -> (r: Option<u64>)
    ensures
        r == (if sum_counts(tally_view(t@)) <= u64::MAX {
            Some(sum_counts(tally_view(t@)) as u64)
        } else {
            None
        }),
{
    let ghost tv = tally_view(t@);
    let mut n: u64 = 0;
    let mut i: usize = 0;
    while i < t.len()
        invariant
            0 <= i <= t@.len(),
            tv == tally_view(t@),
            n == sum_counts(tv.take(i as int)),
        decreases t.len() - i,
    {
        assert(tv.take(i + 1).drop_last() == tv.take(i as int));
        match n.checked_add(t[i].1) {
            Some(m) => {
                n = m;
            },
            None => {
                proof {
                    lemma_sum_prefix(tv, i + 1);
                }
                return None;
            },
        }
        i = i + 1;
    }
    assert(tv.take(i as int) == tv);
    Some(n)
}

/// The aggregate of a scan pass over `files` logs, `None` when the tool
/// calls together do not fit in a `u64`. Every plugin, tool, skill and
/// command is listed.
pub fn summarize(counters: &Counters, files: usize, newest: Option<u64>, elapsed_ms: u64) -> (r:
    Option<UsageStats>)
    ensures
        r is None <==> sum_counts(tally_view(counters.tools@)) > u64::MAX,
        r matches Some(s) ==> {
            &&& s.files == files
            &&& s.messages == counters.messages
            &&& s.tool_calls == sum_counts(tally_view(counters.tools@))
            &&& s.builtin_calls == builtin_sum(tally_view(counters.tools@))
            &&& usage_views(s.plugins@) == spec_rank_plugins(tally_view(counters.tools@))
            &&& counted_view(s.tools@) == spec_top(tally_view(counters.tools@), usize::MAX as int)
            &&& counted_view(s.skills@) == spec_top(tally_view(counters.skills@), usize::MAX as int)
            &&& counted_view(s.commands@) == spec_top(tally_view(counters.commands@), usize::MAX as int)
            &&& s.elapsed_ms == elapsed_ms
            &&& s.newest_session == newest
        },
{
    let tool_calls = match checked_total(counters.tools.as_slice()) {
        Some(n) => n,
        None => {
            return None;
        },
    };
    proof {
        lemma_builtin_within(tally_view(counters.tools@));
    }
    let builtin_calls = counters.builtin_calls();
    Some(
        UsageStats {
            files,
            messages: counters.messages,
            tool_calls,
            builtin_calls,
            plugins: rank_plugins(counters.tools.as_slice()),
            tools: top(counters.tools.as_slice(), usize::MAX),
            skills: top(counters.skills.as_slice(), usize::MAX),
            commands: top(counters.commands.as_slice(), usize::MAX),
            elapsed_ms,
            newest_session: newest,
        },
    )
}

} // verus!

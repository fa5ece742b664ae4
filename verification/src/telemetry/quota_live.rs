//! Quota gauges: the countdown to a quota window's reset, and the token
//! consumption of the session over sliding windows.
use crate::json::{field, parsed_json, str_of};
use crate::telemetry::skills_live::{iso_to_epoch_ms, spec_iso_ms};
use crate::text::{chars_of, concat_chars, dec_digits, decimal_chars, string_of};
use vstd::prelude::*;

verus! {

/// Antigravity quota as the sidebar shows it: remaining percentages and the
/// time until each window resets.
#[derive(Debug, Clone)]
pub struct AntigravityQuota {
    pub five_hour_pct: Option<u32>,
    pub five_hour_time: Option<String>,
    pub weekly_pct: Option<u32>,
    pub weekly_time: Option<String>,
}

/// Quota gauges of the sidebar.
pub struct QuotaTelemetry {
    pub antigravity: Option<AntigravityQuota>,
    /// Tokens of the session over the last 5 minutes, hour and 5 hours.
    pub session_sliding_5m_tokens: u64,
    pub session_sliding_1h_tokens: u64,
    pub session_sliding_5h_tokens: u64,
}

/// The time from `now_ms` to `epoch_ms` as the gauge shows it: `now` once
/// reached, else days and hours (`5d 21h`, `5d`), hours and minutes
/// (`2h 25m`, `2h`), or minutes, at least one (`15m`).
pub open spec fn countdown_text(epoch_ms: u64, now_ms: u64) -> Seq<char> {
    if epoch_ms <= now_ms {
        "now"@
    } else {
        let mins = (epoch_ms - now_ms) / 1000 / 60;
        let days = mins / 1440;
        let hours = mins % 1440 / 60;
        let m = mins % 60;
        if days > 0 {
            if hours > 0 {
                dec_digits(days as nat) + "d "@ + dec_digits(hours as nat) + "h"@
            } else {
                dec_digits(days as nat) + "d"@
            }
        } else if hours > 0 {
            if m > 0 {
                dec_digits(hours as nat) + "h "@ + dec_digits(m as nat) + "m"@
            } else {
                dec_digits(hours as nat) + "h"@
            }
        } else {
            dec_digits(
                if m > 1 {
                    m as nat
                } else {
                    1
                },
            ) + "m"@
        }
    }
}

fn num_then(n: u64, unit: &str) -> (r: Vec<char>)
    ensures
        r@ == dec_digits(n as nat) + unit@,
{
    concat_chars(decimal_chars(n as u128).as_slice(), chars_of(unit).as_slice())
}

/// The time until `epoch_ms` from `now_ms` (see [`countdown_text`]).
pub fn countdown_label(epoch_ms: u64, now_ms: u64) -> (r: String)
    ensures
        r@ == countdown_text(epoch_ms, now_ms),
{
    if epoch_ms <= now_ms {
        return crate::text::to_string("now");
    }
    let mins = (epoch_ms - now_ms) / 1000 / 60;
    let days = mins / 1440;
    let hours = mins % 1440 / 60;
    let m = mins % 60;
    let out = if days > 0 {
        if hours > 0 {
            concat_chars(num_then(days, "d ").as_slice(), num_then(hours, "h").as_slice())
        } else {
            num_then(days, "d")
        }
    } else if hours > 0 {
        if m > 0 {
            concat_chars(num_then(hours, "h ").as_slice(), num_then(m, "m").as_slice())
        } else {
            num_then(hours, "h")
        }
    } else {
        num_then(
            if m > 1 {
                m
            } else {
                1
            },
            "m",
        )
    };
    string_of(out.as_slice())
}

/// Formats an ISO-8601 timestamp as the countdown to it from `now_ms`
/// (epoch milliseconds): e.g. "2h 25m", "5d 21h", "15m", "now"; `None`
/// when the timestamp does not read.
pub fn format_relative_countdown(iso_str: &str, now_ms: u64) -> (r: Option<String>)
    ensures
        match spec_iso_ms(iso_str@) {
            Some(e) => r matches Some(s) && s@ == countdown_text(e as u64, now_ms),
            None => r is None,
        },
{
    match iso_to_epoch_ms(iso_str) {
        Some(e) => Some(countdown_label(e, now_ms)),
        None => None,
    }
}

} // verus!

verus! {

/// A count member read as `u64`, 0 when absent or not one.
pub open spec fn count_of(o: Option<crate::json::Json>) -> int {
    match o {
        Some(x) => match crate::json::u64_of(x) {
            Some(n) => n as int,
            None => 0,
        },
        None => 0,
    }
}

/// The usage point of a log line: a `message` with a usage and a timestamp
/// that reads gives its time and its input plus output tokens.
pub open spec fn usage_point(line: Seq<char>) -> Option<(int, int)> {
    match crate::json::parsed_json(line) {
        None => None,
        Some(v) => if crate::json::str_of(crate::json::field(v, "type"@)) != Some("message"@) {
            None
        } else {
            match crate::json::field(v, "message"@) {
                None => None,
                Some(msg) => match crate::json::field(msg, "usage"@) {
                    None => None,
                    Some(u) => {
                        let ts_str = match crate::json::str_of(crate::json::field(v, "timestamp"@)) {
                            Some(t) => t,
                            None => Seq::empty(),
                        };
                        match spec_iso_ms(ts_str) {
                            None => None,
                            Some(ts) => Some(
                                (
                                    ts,
                                    count_of(crate::json::field(u, "input"@)) + count_of(
                                        crate::json::field(u, "output"@),
                                    ),
                                ),
                            ),
                        }
                    },
                },
            }
        },
    }
}

/// The usage points of a log's lines, in order.
pub open spec fn usage_points(ls: Seq<Seq<char>>) -> Seq<(int, int)>
    decreases ls.len(),
{
    if ls.len() == 0 {
        Seq::empty()
    } else {
        match usage_point(ls.last()) {
            Some(p) => usage_points(ls.drop_last()).push(p),
            None => usage_points(ls.drop_last()),
        }
    }
}

/// The latest time of the points (0 for none).
pub open spec fn latest_ts(ps: Seq<(int, int)>) -> int
    decreases ps.len(),
{
    if ps.len() == 0 {
        0
    } else {
        let l = latest_ts(ps.drop_last());
        if ps.last().0 > l {
            ps.last().0
        } else {
            l
        }
    }
}

/// Tokens of the points at most `w` milliseconds older than `latest`.
pub open spec fn window_sum(ps: Seq<(int, int)>, latest: int, w: int) -> int
    decreases ps.len(),
{
    if ps.len() == 0 {
        0
    } else {
        window_sum(ps.drop_last(), latest, w) + if latest - ps.last().0 <= w {
            ps.last().1
        } else {
            0
        }
    }
}

pub open spec fn five_minutes() -> int {
    300000
}

pub open spec fn one_hour() -> int {
    3600000
}

pub open spec fn five_hours() -> int {
    18000000
}

/// Sliding window token sums of a session log: the tokens of the points at
/// most 5 minutes, 1 hour and 5 hours older than the latest point.
pub open spec fn sliding_sums(content: Seq<char>) -> (int, int, int) {
    let ps = usage_points(crate::text::lines(content));
    let l = latest_ts(ps);
    (window_sum(ps, l, five_minutes()), window_sum(ps, l, one_hour()), window_sum(ps, l, five_hours()))
}

/// Every point's tokens and every window's sum fit in `u64`.
pub open spec fn sliding_fits(content: Seq<char>) -> bool {
    let ps = usage_points(crate::text::lines(content));
    &&& forall|i: int| 0 <= i < ps.len() ==> (#[trigger] ps[i]).1 <= u64::MAX
    &&& sliding_sums(content).0 <= u64::MAX
    &&& sliding_sums(content).1 <= u64::MAX
    &&& sliding_sums(content).2 <= u64::MAX
}

fn count_exec(v: &crate::json::Json, key: &str) -> (r: u64)
    ensures
        r == count_of(crate::json::field(*v, key@)),
{
    match crate::json::get(v, key) {
        Some(x) => match crate::json::json_u64(x) {
            Some(n) => n,
            None => 0,
        },
        None => 0,
    }
}

fn usage_point_exec(line: &[char]) -> (r: Option<(u64, u128)>)
    ensures
        match r {
            Some((ts, tok)) => usage_point(line@) == Some((ts as int, tok as int)),
            None => usage_point(line@) is None,
        },
{
    let s = string_of(line);
    let v = match crate::json::parse_json(s.as_str()) {
        Some(v) => v,
        None => {
            return None;
        },
    };
    let is_message = match crate::json::get_str(&v, "type") {
        Some(t) => crate::text::chars_eq(chars_of(t.as_str()).as_slice(), chars_of("message").as_slice()),
        None => false,
    };
    if !is_message {
        return None;
    }
    let msg = match crate::json::get(&v, "message") {
        Some(m) => m,
        None => {
            return None;
        },
    };
    let u = match crate::json::get(msg, "usage") {
        Some(u) => u,
        None => {
            return None;
        },
    };
    proof {
        reveal_strlit("");
    }
    let ts = match crate::json::get_str(&v, "timestamp") {
        Some(t) => iso_to_epoch_ms(t.as_str()),
        None => iso_to_epoch_ms(""),
    };
    match ts {
        Some(ts) => Some((ts, count_exec(u, "input") as u128 + count_exec(u, "output") as u128)),
        None => None,
    }
}

proof fn lemma_window_mono(ps: Seq<(int, int)>, latest: int, w: int, k: int)
    requires
        0 <= k <= ps.len(),
        forall|i: int| 0 <= i < ps.len() ==> 0 <= (#[trigger] ps[i]).1,
    ensures
        0 <= window_sum(ps.take(k), latest, w) <= window_sum(ps, latest, w),
    decreases ps.len() - k,
{
    if k < ps.len() {
        lemma_window_mono(ps, latest, w, k + 1);
        assert(ps.take(k + 1).drop_last() =~= ps.take(k));
        assert(ps.take(k + 1).last() == ps[k]);
        lemma_window_nonneg(ps.take(k), latest, w);
    } else {
        assert(ps.take(k) =~= ps);
        lemma_window_nonneg(ps, latest, w);
    }
}

proof fn lemma_window_nonneg(ps: Seq<(int, int)>, latest: int, w: int)
    requires
        forall|i: int| 0 <= i < ps.len() ==> 0 <= (#[trigger] ps[i]).1,
    ensures
        0 <= window_sum(ps, latest, w),
    decreases ps.len(),
{
    if ps.len() > 0 {
        lemma_window_nonneg(ps.drop_last(), latest, w);
    }
}

proof fn lemma_latest_bound(ps: Seq<(int, int)>, i: int)
    requires
        0 <= i < ps.len(),
    ensures
        ps[i].0 <= latest_ts(ps),
    decreases ps.len(),
{
    if i < ps.len() - 1 {
        lemma_latest_bound(ps.drop_last(), i);
    }
}

/// One window's sum over the points, `None` where it leaves `u64`.
fn window_exec(ps: &Vec<(u64, u64)>, latest: u64, w: u64) -> (r: Option<u64>)
    requires
        forall|i: int| 0 <= i < ps@.len() ==> (#[trigger] ps@[i]).0 <= latest,
    ensures
        match r {
            Some(s) => s == window_sum(point_views(ps@), latest as int, w as int),
            None => window_sum(point_views(ps@), latest as int, w as int) > u64::MAX,
        },
{
    let ghost pv = point_views(ps@);
    let mut sum: u64 = 0;
    let mut i: usize = 0;
    assert(pv.take(0) =~= Seq::<(int, int)>::empty());
    while i < ps.len()
        invariant
            0 <= i <= ps@.len(),
            pv == point_views(ps@),
            forall|j: int| 0 <= j < ps@.len() ==> (#[trigger] ps@[j]).0 <= latest,
            sum == window_sum(pv.take(i as int), latest as int, w as int),
        decreases ps.len() - i,
    {
        assert(pv.take(i + 1).drop_last() =~= pv.take(i as int));
        assert(pv.take(i + 1).last() == pv[i as int]);
        let (ts, tok) = ps[i];
        if latest - ts <= w {
            sum = match sum.checked_add(tok) {
                Some(s) => s,
                None => {
                    proof {
                        lemma_window_mono(pv, latest as int, w as int, i + 1);
                    }
                    return None;
                },
            };
        }
        i = i + 1;
    }
    assert(pv.take(i as int) =~= pv);
    Some(sum)
}

pub open spec fn point_views(ps: Seq<(u64, u64)>) -> Seq<(int, int)> {
    ps.map_values(|p: (u64, u64)| (p.0 as int, p.1 as int))
}

/// The sliding window sums, `None` where a count leaves `u64`.
#[verifier::rlimit(40)]
fn sliding_engine(content: &str) -> (r: Option<(u64, u64, u64)>)
    ensures
        r is Some <==> sliding_fits(content@),
        r matches Some((a, b, c)) ==> sliding_sums(content@) == (a as int, b as int, c as int),
{
    let ls = crate::text::lines_exec(chars_of(content).as_slice());
    let ghost lv = crate::text::views(ls@);
    let mut ps: Vec<(u64, u64)> = Vec::new();
    let mut i: usize = 0;
    assert(lv.take(0) =~= Seq::<Seq<char>>::empty());
    while i < ls.len()
        invariant
            0 <= i <= ls@.len(),
            lv == crate::text::views(ls@),
            lv == crate::text::lines(content@),
            point_views(ps@) == usage_points(lv.take(i as int)),
        decreases ls.len() - i,
    {
        assert(lv.take(i + 1).drop_last() =~= lv.take(i as int));
        assert(lv.take(i + 1).last() == ls@[i as int]@);
        match usage_point_exec(ls[i].as_slice()) {
            Some((ts, tok)) => {
                if tok > u64::MAX as u128 {
                    proof {
                        let pts = usage_points(lv);
                        lemma_points_prefix(lv, i + 1);
                        let k = usage_points(lv.take(i + 1)).len() - 1;
                        assert(usage_points(lv.take(i + 1))[k] == (ts as int, tok as int));
                        assert(pts[k] == (ts as int, tok as int));
                    }
                    return None;
                }
                let ghost before = ps@;
                ps.push((ts, tok as u64));
                assert(point_views(ps@) =~= point_views(before).push((ts as int, tok as int)));
            },
            None => {},
        }
        i = i + 1;
    }
    assert(lv.take(i as int) =~= lv);
    let ghost pv = point_views(ps@);
    if ps.len() == 0 {
        return Some((0, 0, 0));
    }
    let mut latest: u64 = 0;
    let mut j: usize = 0;
    assert(pv.take(0) =~= Seq::<(int, int)>::empty());
    while j < ps.len()
        invariant
            0 <= j <= ps@.len(),
            pv == point_views(ps@),
            latest == latest_ts(pv.take(j as int)),
        decreases ps.len() - j,
    {
        assert(pv.take(j + 1).drop_last() =~= pv.take(j as int));
        assert(pv.take(j + 1).last() == pv[j as int]);
        if ps[j].0 > latest {
            latest = ps[j].0;
        }
        j = j + 1;
    }
    assert(pv.take(j as int) =~= pv);
    assert forall|k: int| 0 <= k < ps@.len() implies (#[trigger] ps@[k]).0 <= latest by {
        lemma_latest_bound(pv, k);
    }
    assert forall|k: int| 0 <= k < pv.len() implies (#[trigger] pv[k]).1 <= u64::MAX by {
        assert(pv[k].1 == ps@[k].1);
    }
    let a = match window_exec(&ps, latest, 300000) {
        Some(x) => x,
        None => {
            return None;
        },
    };
    let b = match window_exec(&ps, latest, 3600000) {
        Some(x) => x,
        None => {
            return None;
        },
    };
    let c = match window_exec(&ps, latest, 18000000) {
        Some(x) => x,
        None => {
            return None;
        },
    };
    Some((a, b, c))
}

/// The usage points of a prefix of the lines are a prefix of all of them.
proof fn lemma_points_prefix(ls: Seq<Seq<char>>, k: int)
    requires
        0 <= k <= ls.len(),
    ensures
        usage_points(ls.take(k)).len() <= usage_points(ls).len(),
        forall|i: int| 0 <= i < usage_points(ls.take(k)).len() ==> #[trigger] usage_points(ls.take(k))[i]
            == usage_points(ls)[i],
    decreases ls.len() - k,
{
    if k < ls.len() {
        lemma_points_prefix(ls, k + 1);
        assert(ls.take(k + 1).drop_last() =~= ls.take(k));
        assert(ls.take(k + 1).last() == ls[k]);
        let a = usage_points(ls.take(k));
        let b = usage_points(ls.take(k + 1));
        assert(a.len() <= b.len());
        assert forall|i: int| 0 <= i < a.len() implies #[trigger] a[i] == usage_points(ls)[i] by {
            assert(a[i] == b[i]);
        }
    } else {
        assert(ls.take(k) =~= ls);
    }
}

/// Session token consumption over sliding windows (5 minutes, 1 hour,
/// 5 hours back from the latest usage), from the session log's text.
pub fn session_sliding_windows(content: &str) -> (r: (u64, u64, u64))
    requires
        sliding_fits(content@),
    ensures
        sliding_sums(content@) == (r.0 as int, r.1 as int, r.2 as int),
{
    match sliding_engine(content) {
        Some(t) => t,
        None => (0, 0, 0),
    }
}

/// [`session_sliding_windows`] where the counts fit in `u64`; `None` where
/// they would not.
pub fn checked_session_sliding_windows(content: &str) -> (r: Option<(u64, u64, u64)>)
    ensures
        r is Some <==> sliding_fits(content@),
        r matches Some((a, b, c)) ==> sliding_sums(content@) == (a as int, b as int, c as int),
{
    match sliding_engine(content) {
        Some(_) => Some(session_sliding_windows(content)),
        None => None,
    }
}

} // verus!

verus! {

// ---------------------------------------------------------------------------
// Antigravity quota summary and credentials
// ---------------------------------------------------------------------------

/// A bucket of the quota summary, without its remaining fraction.
#[derive(Debug, Clone)]
pub struct QuotaBucket {
    pub bucket_id: Option<String>,
    pub window: Option<String>,
    pub reset_time: Option<String>,
}

pub open spec fn text_has(o: Option<String>, p: Seq<char>) -> bool {
    match o {
        Some(s) => crate::text::contains(s@, p),
        None => false,
    }
}

/// The 5-hour bucket: its window or id mentions `5h`.
pub open spec fn is_five_hour(b: QuotaBucket) -> bool {
    text_has(b.window, "5h"@) || text_has(b.bucket_id, "5h"@)
}

/// The weekly bucket: its window mentions `weekly` or `week`, or its id `weekly`.
pub open spec fn is_weekly(b: QuotaBucket) -> bool {
    text_has(b.window, "weekly"@) || text_has(b.window, "week"@) || text_has(b.bucket_id, "weekly"@)
}

/// Index of the first bucket satisfying `pred`.
pub open spec fn first_bucket(bs: Seq<QuotaBucket>, pred: spec_fn(QuotaBucket) -> bool) -> Option<int>
    decreases bs.len(),
{
    if bs.len() == 0 {
        None
    } else {
        match first_bucket(bs.drop_last(), pred) {
            Some(i) => Some(i),
            None => if pred(bs.last()) {
                Some(bs.len() - 1)
            } else {
                None
            },
        }
    }
}

fn text_has_exec(o: &Option<String>, p: &str) -> (r: bool)
    ensures
        r == text_has(*o, p@),
{
    match o {
        Some(s) => crate::text::contains_chars(chars_of(s.as_str()).as_slice(), chars_of(p).as_slice()),
        None => false,
    }
}

proof fn lemma_first_bucket_prefix(bs: Seq<QuotaBucket>, pred: spec_fn(QuotaBucket) -> bool, k: int)
    requires
        0 <= k <= bs.len(),
        first_bucket(bs.take(k), pred) is Some,
    ensures
        first_bucket(bs, pred) == first_bucket(bs.take(k), pred),
    decreases bs.len() - k,
{
    if k < bs.len() {
        assert(bs.take(k + 1).drop_last() =~= bs.take(k));
        lemma_first_bucket_prefix(bs, pred, k + 1);
    } else {
        assert(bs.take(k) =~= bs);
    }
}

pub open spec fn index_of_opt(o: Option<usize>) -> Option<int> {
    match o {
        Some(i) => Some(i as int),
        None => None,
    }
}

/// The first 5-hour bucket and the first weekly bucket of the summary.
pub fn pick_quota_buckets(buckets: &[QuotaBucket]) -> (r: (Option<usize>, Option<usize>))
    ensures
        index_of_opt(r.0) == first_bucket(buckets@, |b: QuotaBucket| is_five_hour(b)),
        index_of_opt(r.1) == first_bucket(buckets@, |b: QuotaBucket| is_weekly(b)),
        r.0 matches Some(i) ==> i < buckets@.len(),
        r.1 matches Some(i) ==> i < buckets@.len(),
{
    let ghost p5 = |b: QuotaBucket| is_five_hour(b);
    let ghost pw = |b: QuotaBucket| is_weekly(b);
    let mut five: Option<usize> = None;
    let mut weekly: Option<usize> = None;
    let mut i: usize = 0;
    assert(buckets@.take(0) =~= Seq::<QuotaBucket>::empty());
    while i < buckets.len()
        invariant
            0 <= i <= buckets@.len(),
            p5 == (|b: QuotaBucket| is_five_hour(b)),
            pw == (|b: QuotaBucket| is_weekly(b)),
            five is None ==> first_bucket(buckets@.take(i as int), p5) is None,
            five matches Some(k) ==> k < i && first_bucket(buckets@, p5) == Some(k as int),
            weekly is None ==> first_bucket(buckets@.take(i as int), pw) is None,
            weekly matches Some(k) ==> k < i && first_bucket(buckets@, pw) == Some(k as int),
        decreases buckets.len() - i,
    {
        assert(buckets@.take(i + 1).drop_last() =~= buckets@.take(i as int));
        assert(buckets@.take(i + 1).last() == buckets@[i as int]);
        let b = &buckets[i];
        if five.is_none() && (text_has_exec(&b.window, "5h") || text_has_exec(&b.bucket_id, "5h")) {
            proof {
                lemma_first_bucket_prefix(buckets@, p5, i + 1);
            }
            five = Some(i);
        }
        if weekly.is_none() && (text_has_exec(&b.window, "weekly") || text_has_exec(&b.window, "week")
            || text_has_exec(&b.bucket_id, "weekly")) {
            proof {
                lemma_first_bucket_prefix(buckets@, pw, i + 1);
            }
            weekly = Some(i);
        }
        i = i + 1;
    }
    assert(buckets@.take(i as int) =~= buckets@);
    (five, weekly)
}

/// What an auth entry gives: the access token (empty when it has none),
/// the project id, and the refresh token to get a new access token with.
pub struct AntigravityAuth {
    pub token: String,
    pub project_id: String,
    pub refresh: Option<String>,
}

/// An entry of `auth.json` reads: absent, `null`, or an object whose
/// `refresh` and `projectId` are absent, `null` or strings.
pub open spec fn auth_entry_reads(o: Option<crate::json::Json>) -> bool {
    match o {
        None => true,
        Some(crate::json::Json::Null) => true,
        Some(e) => e is Object && crate::telemetry::session_log::opt_text_member(e, "refresh"@)
            is Some && crate::telemetry::session_log::opt_text_member(e, "projectId"@) is Some,
    }
}

/// The entry used: `antigravity`, else `google-antigravity`, else `google`.
pub open spec fn chosen_entry(v: crate::json::Json) -> Option<crate::json::Json> {
    match crate::telemetry::session_log::opt_value_member(v, "antigravity"@) {
        Some(e) => Some(e),
        None => match crate::telemetry::session_log::opt_value_member(v, "google-antigravity"@) {
            Some(e) => Some(e),
            None => crate::telemetry::session_log::opt_value_member(v, "google"@),
        },
    }
}

/// The nested form of `access`: a JSON object text whose `token` and
/// `projectId` are absent, `null` or strings; `None` when it is not.
pub open spec fn nested_access(s: Seq<char>) -> Option<(Option<Seq<char>>, Option<Seq<char>>)> {
    match crate::json::parsed_json(s) {
        Some(v) => if v is Object {
            match (
                crate::telemetry::session_log::opt_text_member(v, "token"@),
                crate::telemetry::session_log::opt_text_member(v, "projectId"@),
            ) {
                (Some(t), Some(p)) => Some((t, p)),
                _ => None,
            }
        } else {
            None
        },
        None => None,
    }
}

/// Token and project id of an auth entry: a string `access` is either the
/// nested form (its token, and its project id when the entry has none) or
/// the raw token; the project id defaults to `aicode-consumers`.
pub open spec fn auth_of(e: crate::json::Json) -> (Seq<char>, Seq<char>) {
    let p0 = match crate::telemetry::session_log::opt_text_member(e, "projectId"@) {
        Some(Some(p)) => p,
        _ => Seq::empty(),
    };
    let (tok, p1) = match crate::json::str_of(crate::json::field(e, "access"@)) {
        Some(s) => match nested_access(s) {
            Some((t, np)) => (
                match t {
                    Some(t) => t,
                    None => Seq::empty(),
                },
                match np {
                    Some(q) => if p0.len() == 0 {
                        q
                    } else {
                        p0
                    },
                    None => p0,
                },
            ),
            None => (s, p0),
        },
        None => (Seq::empty(), p0),
    };
    (tok, if p1.len() == 0 {
        "aicode-consumers"@
    } else {
        p1
    })
}

/// Reads `~/.pi/agent/auth.json`: `None` when it does not parse, an entry
/// does not read, or there is no entry; else the chosen entry's token,
/// project id and refresh token.
pub open spec fn spec_auth(text: Seq<char>) -> Option<(Seq<char>, Seq<char>, Option<Seq<char>>)> {
    match crate::json::parsed_json(text) {
        None => None,
        Some(v) => auth_in(v),
    }
}

/// The Antigravity credentials of a parsed `auth.json` (see [`spec_auth`]).
pub open spec fn auth_in(v: crate::json::Json) -> Option<(Seq<char>, Seq<char>, Option<Seq<char>>)> {
    if v is Object && auth_entry_reads(crate::json::field(v, "antigravity"@)) && auth_entry_reads(
        crate::json::field(v, "google"@),
    ) && auth_entry_reads(crate::json::field(v, "google-antigravity"@)) {
        match chosen_entry(v) {
            Some(e) => {
                let (t, p) = auth_of(e);
                Some(
                    (
                        t,
                        p,
                        match crate::telemetry::session_log::opt_text_member(e, "refresh"@) {
                            Some(r) => r,
                            None => None,
                        },
                    ),
                )
            },
            None => None,
        }
    } else {
        None
    }
}

fn entry_reads_exec(o: Option<&crate::json::Json>) -> (r: bool)
    ensures
        r == auth_entry_reads(crate::telemetry::session_log::deref_json(o)),
{
    match o {
        None => true,
        Some(crate::json::Json::Null) => true,
        Some(e) => {
            let is_obj = match e {
                crate::json::Json::Object(_, _) => true,
                _ => false,
            };
            is_obj && crate::telemetry::session_log::text_member(e, "refresh").is_some()
                && crate::telemetry::session_log::text_member(e, "projectId").is_some()
        },
    }
}

fn pick_entry(v: &crate::json::Json) -> (r: Option<&crate::json::Json>)
    ensures
        crate::telemetry::session_log::deref_json(r) == chosen_entry(*v),
{
    match crate::json::get(v, "antigravity") {
        Some(crate::json::Json::Null) => {},
        Some(e) => {
            return Some(e);
        },
        None => {},
    }
    match crate::json::get(v, "google-antigravity") {
        Some(crate::json::Json::Null) => {},
        Some(e) => {
            return Some(e);
        },
        None => {},
    }
    match crate::json::get(v, "google") {
        Some(crate::json::Json::Null) => None,
        Some(e) => Some(e),
        None => None,
    }
}

fn nested_access_exec(s: &String) -> (r: Option<(Option<String>, Option<String>)>)
    ensures
        match r {
            Some((t, p)) => nested_access(s@) == Some(
                (
                    crate::telemetry::session_log::text_view(t),
                    crate::telemetry::session_log::text_view(p),
                ),
            ),
            None => nested_access(s@) is None,
        },
{
    let v = match crate::json::parse_json(s.as_str()) {
        Some(v) => v,
        None => {
            return None;
        },
    };
    match &v {
        crate::json::Json::Object(_, _) => {},
        _ => {
            return None;
        },
    }
    let t = match crate::telemetry::session_log::text_member(&v, "token") {
        Some(t) => t,
        None => {
            return None;
        },
    };
    let p = match crate::telemetry::session_log::text_member(&v, "projectId") {
        Some(p) => p,
        None => {
            return None;
        },
    };
    Some((t, p))
}

/// Reads `auth.json` (see [`spec_auth`]).
#[verifier::rlimit(40)]
pub fn read_antigravity_auth(auth_text: &str) -> (r: Option<AntigravityAuth>)
    ensures
        match (r, spec_auth(auth_text@)) {
            (Some(a), Some((t, p, rf))) => a.token@ == t && a.project_id@ == p
                && crate::telemetry::session_log::text_view(a.refresh) == rf,
            (None, None) => true,
            _ => false,
        },
{
    match crate::json::parse_json(auth_text) {
        Some(v) => antigravity_auth_of(&v),
        None => None,
    }
}

/// The Antigravity credentials of a parsed `auth.json` (see [`auth_in`]).
pub fn antigravity_auth_of(v: &crate::json::Json) -> (r: Option<AntigravityAuth>)
    ensures
        match (r, auth_in(*v)) {
            (Some(a), Some((t, p, rf))) => a.token@ == t && a.project_id@ == p
                && crate::telemetry::session_log::text_view(a.refresh) == rf,
            (None, None) => true,
            _ => false,
        },
{
    match v {
        crate::json::Json::Object(_, _) => {},
        _ => {
            return None;
        },
    }
    if !entry_reads_exec(crate::json::get(v, "antigravity")) || !entry_reads_exec(
        crate::json::get(v, "google"),
    ) || !entry_reads_exec(crate::json::get(v, "google-antigravity")) {
        return None;
    }
    let e = match pick_entry(v) {
        Some(e) => e,
        None => {
            return None;
        },
    };
    let p0: String = match crate::telemetry::session_log::text_member(e, "projectId") {
        Some(Some(p)) => p,
        _ => String::new(),
    };
    let refresh = match crate::telemetry::session_log::text_member(e, "refresh") {
        Some(r) => r,
        None => None,
    };
    let (tok, p1): (String, String) = match crate::json::get_str(e, "access") {
        Some(s) => match nested_access_exec(s) {
            Some((t, np)) => (
                match t {
                    Some(t) => t,
                    None => String::new(),
                },
                match np {
                    Some(q) => if chars_of(p0.as_str()).len() == 0 {
                        q
                    } else {
                        p0
                    },
                    None => p0,
                },
            ),
            None => (s.clone(), p0),
        },
        None => (String::new(), p0),
    };
    let project = if chars_of(p1.as_str()).len() == 0 {
        crate::text::to_string("aicode-consumers")
    } else {
        p1
    };
    Some(AntigravityAuth { token: tok, project_id: project, refresh })
}

/// The form body of a Google OAuth refresh request.
pub open spec fn spec_token_request_body(client_id: Seq<char>, client_secret: Seq<char>, refresh_token: Seq<char>) -> Seq<
    char,
> {
    "client_id="@ + client_id + "&client_secret="@ + client_secret + "&refresh_token="@
        + refresh_token + "&grant_type=refresh_token"@
}

/// The form body of a Google OAuth refresh request (see
/// [`spec_token_request_body`]).
pub fn token_request_body(client_id: &str, client_secret: &str, refresh_token: &str) -> (r: String)
    ensures
        r@ == spec_token_request_body(client_id@, client_secret@, refresh_token@),
{
    let a = crate::text::concat_chars(chars_of("client_id=").as_slice(), chars_of(client_id).as_slice());
    let b = crate::text::concat_chars(a.as_slice(), chars_of("&client_secret=").as_slice());
    let c = crate::text::concat_chars(b.as_slice(), chars_of(client_secret).as_slice());
    let d = crate::text::concat_chars(c.as_slice(), chars_of("&refresh_token=").as_slice());
    let e = crate::text::concat_chars(d.as_slice(), chars_of(refresh_token).as_slice());
    let f = crate::text::concat_chars(e.as_slice(), chars_of("&grant_type=refresh_token").as_slice());
    crate::text::string_of(f.as_slice())
}

/// The `access_token` of a token endpoint's reply, when the reply is JSON
/// and that member is a string.
pub fn access_token_of(reply: &str) -> (r: Option<String>)
    ensures
        match r {
            Some(t) => parsed_json(reply@) matches Some(v) && str_of(field(v, "access_token"@)) == Some(t@),
            None => !(parsed_json(reply@) matches Some(v) && str_of(field(v, "access_token"@)) is Some),
        },
{
    match crate::json::parse_json(reply) {
        Some(v) => match crate::json::get_str(&v, "access_token") {
            Some(t) => Some(crate::text::to_string(t.as_str())),
            None => None,
        },
        None => None,
    }
}

// ---------------------------------------------------------------------------
// The quota summary reply
// ---------------------------------------------------------------------------

/// A bucket as the quota summary reply gives it: the bucket, and the text of
/// its remaining fraction (a JSON number) when it has one.
#[derive(Debug, Clone)]
pub struct QuotaReplyBucket {
    pub bucket: QuotaBucket,
    pub remaining_fraction: Option<String>,
}

/// What a reply bucket holds: id, window, remaining fraction (number text)
/// and reset time.
pub type ReplyBucketView = (Option<Seq<char>>, Option<Seq<char>>, Option<Seq<char>>, Option<Seq<char>>);

pub open spec fn reply_bucket_view_of(q: QuotaReplyBucket) -> ReplyBucketView {
    (
        crate::telemetry::session_log::text_view(q.bucket.bucket_id),
        crate::telemetry::session_log::text_view(q.bucket.window),
        crate::telemetry::session_log::text_view(q.remaining_fraction),
        crate::telemetry::session_log::text_view(q.bucket.reset_time),
    )
}

pub open spec fn reply_bucket_views_of(s: Seq<QuotaReplyBucket>) -> Seq<ReplyBucketView> {
    s.map_values(|q: QuotaReplyBucket| reply_bucket_view_of(q))
}

/// An optional number member: absent or `null` reads as none, a number as
/// its text, anything else does not read.
pub open spec fn opt_num_member(v: crate::json::Json, key: Seq<char>) -> Option<Option<Seq<char>>> {
    match field(v, key) {
        None => Some(None),
        Some(crate::json::Json::Null) => Some(None),
        Some(crate::json::Json::Num(n)) => Some(Some(n@)),
        _ => None,
    }
}

/// A bucket document: an object whose `bucketId`, `window` and `resetTime`
/// are absent, `null` or strings and whose `remainingFraction` is absent,
/// `null` or a number.
pub open spec fn reply_bucket(b: crate::json::Json) -> Option<ReplyBucketView> {
    if b is Object {
        match (
            crate::telemetry::session_log::opt_text_member(b, "bucketId"@),
            crate::telemetry::session_log::opt_text_member(b, "window"@),
            opt_num_member(b, "remainingFraction"@),
            crate::telemetry::session_log::opt_text_member(b, "resetTime"@),
        ) {
            (Some(i), Some(w), Some(f), Some(t)) => Some((i, w, f, t)),
            _ => None,
        }
    } else {
        None
    }
}

/// The buckets of a list, when every one of them reads.
pub open spec fn reply_bucket_list(bs: Seq<crate::json::Json>) -> Option<Seq<ReplyBucketView>> {
    if forall|i: int| 0 <= i < bs.len() ==> #[trigger] reply_bucket(bs[i]) is Some {
        Some(Seq::new(bs.len(), |i: int| reply_bucket(bs[i]).unwrap()))
    } else {
        None
    }
}

/// A `buckets` member: absent is an empty list, an array must read, anything
/// else does not.
pub open spec fn buckets_member(m: Option<crate::json::Json>) -> Option<Seq<ReplyBucketView>> {
    match m {
        None => Some(Seq::empty()),
        Some(crate::json::Json::Array(bs)) => reply_bucket_list(bs@),
        _ => None,
    }
}

/// The buckets of the groups, group after group; each group is an object
/// with a `buckets` member that reads.
pub open spec fn group_buckets(gs: Seq<crate::json::Json>) -> Option<Seq<ReplyBucketView>>
    decreases gs.len(),
{
    if gs.len() == 0 {
        Some(Seq::empty())
    } else {
        match group_buckets(gs.drop_last()) {
            Some(p) => if gs.last() is Object {
                match buckets_member(field(gs.last(), "buckets"@)) {
                    Some(b) => Some(p + b),
                    None => None,
                }
            } else {
                None
            },
            None => None,
        }
    }
}

/// The buckets of a parsed quota summary: its own `buckets`, then those of
/// each of its `groups` (both lists may be absent); none when the summary
/// does not read.
pub open spec fn summary_buckets(v: crate::json::Json) -> Option<Seq<ReplyBucketView>> {
    if v is Object {
        let groups = match field(v, "groups"@) {
            None => Some(Seq::empty()),
            Some(crate::json::Json::Array(gs)) => group_buckets(gs@),
            _ => None,
        };
        match (buckets_member(field(v, "buckets"@)), groups) {
            (Some(b), Some(g)) => Some(b + g),
            _ => None,
        }
    } else {
        None
    }
}

/// The buckets of a quota summary reply (see [`summary_buckets`]).
pub open spec fn reply_buckets(reply: Seq<char>) -> Option<Seq<ReplyBucketView>> {
    match parsed_json(reply) {
        Some(v) => summary_buckets(v),
        None => None,
    }
}

proof fn lemma_group_buckets_prefix(gs: Seq<crate::json::Json>, k: int)
    requires
        0 <= k <= gs.len(),
        group_buckets(gs.take(k)) is None,
    ensures
        group_buckets(gs) is None,
    decreases gs.len() - k,
{
    if k < gs.len() {
        assert(gs.take(k + 1).drop_last() == gs.take(k));
        lemma_group_buckets_prefix(gs, k + 1);
    } else {
        assert(gs.take(k) == gs);
    }
}

fn num_member(v: &crate::json::Json, key: &str) -> (r: Option<Option<String>>)
    ensures
        match r {
            Some(o) => opt_num_member(*v, key@) == Some(crate::telemetry::session_log::text_view(o)),
            None => opt_num_member(*v, key@) is None,
        },
{
    match crate::json::get(v, key) {
        None => Some(None),
        Some(crate::json::Json::Null) => Some(None),
        Some(crate::json::Json::Num(n)) => Some(Some(n.clone())),
        _ => None,
    }
}

fn read_reply_bucket(b: &crate::json::Json) -> (r: Option<QuotaReplyBucket>)
    ensures
        match r {
            Some(q) => reply_bucket(*b) == Some(reply_bucket_view_of(q)),
            None => reply_bucket(*b) is None,
        },
{
    match b {
        crate::json::Json::Object(_, _) => {},
        _ => {
            return None;
        },
    }
    let id = match crate::telemetry::session_log::text_member(b, "bucketId") {
        Some(o) => o,
        None => {
            return None;
        },
    };
    let window = match crate::telemetry::session_log::text_member(b, "window") {
        Some(o) => o,
        None => {
            return None;
        },
    };
    let frac = match num_member(b, "remainingFraction") {
        Some(o) => o,
        None => {
            return None;
        },
    };
    let reset = match crate::telemetry::session_log::text_member(b, "resetTime") {
        Some(o) => o,
        None => {
            return None;
        },
    };
    Some(
        QuotaReplyBucket {
            bucket: QuotaBucket { bucket_id: id, window, reset_time: reset },
            remaining_fraction: frac,
        },
    )
}

/// Appends the buckets of a `buckets` member; false when it does not read.
fn push_buckets_member(m: Option<&crate::json::Json>, out: &mut Vec<QuotaReplyBucket>) -> (ok: bool)
    ensures
        ok == (buckets_member(
            match m {
                Some(j) => Some(*j),
                None => None,
            },
        ) is Some),
        ok ==> reply_bucket_views_of(final(out)@) == reply_bucket_views_of(old(out)@)
            + buckets_member(
            match m {
                Some(j) => Some(*j),
                None => None,
            },
        ).unwrap(),
{
    let bs = match m {
        None => {
            assert(reply_bucket_views_of(out@) + Seq::<ReplyBucketView>::empty()
                == reply_bucket_views_of(out@));
            return true;
        },
        Some(crate::json::Json::Array(bs)) => bs,
        Some(_) => {
            return false;
        },
    };
    let ghost start = reply_bucket_views_of(out@);
    let ghost docs = bs@;
    let ghost target = buckets_member(
        match m {
            Some(j) => Some(*j),
            None => None,
        },
    );
    assert(target == reply_bucket_list(docs));
    let mut i: usize = 0;
    while i < bs.len()
        invariant
            0 <= i <= bs@.len(),
            docs == bs@,
            target == reply_bucket_list(docs),
            target == buckets_member(
                match m {
                    Some(j) => Some(*j),
                    None => None,
                },
            ),
            forall|j: int| 0 <= j < i ==> #[trigger] reply_bucket(docs[j]) is Some,
            reply_bucket_views_of(out@) == start + Seq::new(
                i as nat,
                |j: int| reply_bucket(docs[j]).unwrap(),
            ),
        decreases bs.len() - i,
    {
        let ghost before = out@;
        match read_reply_bucket(&bs[i]) {
            Some(q) => {
                out.push(q);
                assert(reply_bucket_views_of(out@) == reply_bucket_views_of(before).push(
                    reply_bucket_view_of(q),
                ));
                assert(Seq::new((i + 1) as nat, |j: int| reply_bucket(docs[j]).unwrap())
                    == Seq::new(i as nat, |j: int| reply_bucket(docs[j]).unwrap()).push(
                    reply_bucket(docs[i as int]).unwrap(),
                ));
            },
            None => {
                assert(reply_bucket(docs[i as int]) is None);
                return false;
            },
        }
        i = i + 1;
    }
    assert(Seq::new(i as nat, |j: int| reply_bucket(docs[j]).unwrap()) == reply_bucket_list(
        docs,
    ).unwrap());
    true
}

/// The buckets of a parsed quota summary (see [`summary_buckets`]).
pub fn quota_summary_buckets(v: &crate::json::Json) -> (r: Option<Vec<QuotaReplyBucket>>)
    ensures
        match r {
            Some(bs) => summary_buckets(*v) == Some(reply_bucket_views_of(bs@)),
            None => summary_buckets(*v) is None,
        },
{
    match v {
        crate::json::Json::Object(_, _) => {},
        _ => {
            return None;
        },
    }
    let mut out: Vec<QuotaReplyBucket> = Vec::new();
    assert(reply_bucket_views_of(out@) == Seq::<ReplyBucketView>::empty());
    if !push_buckets_member(crate::json::get(v, "buckets"), &mut out) {
        return None;
    }
    let ghost own = reply_bucket_views_of(out@);
    let gs = match crate::json::get(v, "groups") {
        None => {
            assert(own + Seq::<ReplyBucketView>::empty() == own);
            return Some(out);
        },
        Some(crate::json::Json::Array(gs)) => gs,
        Some(_) => {
            return None;
        },
    };
    let ghost docs = gs@;
    let mut i: usize = 0;
    assert(docs.take(0) == Seq::<crate::json::Json>::empty());
    while i < gs.len()
        invariant
            0 <= i <= gs@.len(),
            docs == gs@,
            *v is Object,
            field(*v, "groups"@) == Some(crate::json::Json::Array(*gs)),
            buckets_member(field(*v, "buckets"@)) == Some(own),
            group_buckets(docs.take(i as int)) is Some,
            reply_bucket_views_of(out@) == own + group_buckets(docs.take(i as int)).unwrap(),
        decreases gs.len() - i,
    {
        assert(docs.take(i + 1).drop_last() == docs.take(i as int));
        assert(docs.take(i + 1).last() == docs[i as int]);
        let g = &gs[i];
        match g {
            crate::json::Json::Object(_, _) => {},
            _ => {
                proof {
                    lemma_group_buckets_prefix(docs, i + 1);
                }
                return None;
            },
        }
        let ghost before = reply_bucket_views_of(out@);
        if !push_buckets_member(crate::json::get(g, "buckets"), &mut out) {
            proof {
                lemma_group_buckets_prefix(docs, i + 1);
            }
            return None;
        }
        i = i + 1;
    }
    assert(docs.take(i as int) == docs);
    Some(out)
}

/// The buckets of a quota summary reply (see [`reply_buckets`]).
pub fn quota_reply_buckets(reply: &str) -> (r: Option<Vec<QuotaReplyBucket>>)
    ensures
        match r {
            Some(bs) => reply_buckets(reply@) == Some(reply_bucket_views_of(bs@)),
            None => reply_buckets(reply@) is None,
        },
{
    match crate::json::parse_json(reply) {
        Some(v) => quota_summary_buckets(&v),
        None => None,
    }
}

} // verus!

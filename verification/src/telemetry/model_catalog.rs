//! Lookups in pi's model catalog (`models.json` overrides, the models.dev
//! snapshot in `models-store.json`, and models extensions register at
//! runtime), given as providers in load order with their models.
use crate::telemetry::session_log::Usage;
use crate::text::{chars_eq, chars_of};
use vstd::prelude::*;

verus! {

/// One model row of the catalog.
#[derive(Debug, Clone)]
pub struct ModelEntry {
    pub id: String,
    /// Context window in tokens; 0 when the catalog does not say.
    pub context_window: u64,
}

/// Index of the first model with this id.
pub open spec fn first_model(ms: Seq<ModelEntry>, id: Seq<char>) -> Option<int>
    decreases ms.len(),
{
    if ms.len() == 0 {
        None
    } else {
        match first_model(ms.drop_last(), id) {
            Some(i) => Some(i),
            None => if ms.last().id@ == id {
                Some(ms.len() - 1)
            } else {
                None
            },
        }
    }
}

/// The first provider (named `name`, or any when `None`) that has a model
/// with this id, with that model's index.
pub open spec fn first_hit(cat: Seq<(String, Vec<ModelEntry>)>, name: Option<Seq<char>>, id: Seq<char>) -> Option<(int, int)>
    decreases cat.len(),
{
    if cat.len() == 0 {
        None
    } else {
        match first_hit(cat.drop_last(), name, id) {
            Some(h) => Some(h),
            None => if (name is None || name == Some(cat.last().0@)) && first_model(
                cat.last().1@,
                id,
            ) is Some {
                Some((cat.len() - 1, first_model(cat.last().1@, id)->0))
            } else {
                None
            },
        }
    }
}

/// The catalog row for a model: the first of the provider itself; with no
/// provider given, one of an unnamed provider, else the first of any.
pub open spec fn lookup(cat: Seq<(String, Vec<ModelEntry>)>, provider: Seq<char>, id: Seq<char>) -> Option<(int, int)> {
    match first_hit(cat, Some(provider), id) {
        Some(h) => Some(h),
        None => if provider.len() == 0 {
            first_hit(cat, None, id)
        } else {
            None
        },
    }
}

fn first_model_exec(ms: &Vec<ModelEntry>, id: &[char]) -> (r: Option<usize>)
    ensures
        match r {
            Some(i) => first_model(ms@, id@) == Some(i as int) && i < ms@.len(),
            None => first_model(ms@, id@) is None,
        },
{
    let mut i: usize = 0;
    assert(ms@.take(0) =~= Seq::<ModelEntry>::empty());
    while i < ms.len()
        invariant
            0 <= i <= ms@.len(),
            first_model(ms@.take(i as int), id@) is None,
        decreases ms.len() - i,
    {
        assert(ms@.take(i + 1).drop_last() =~= ms@.take(i as int));
        if chars_eq(chars_of(ms[i].id.as_str()).as_slice(), id) {
            proof {
                lemma_first_model_prefix(ms@, id@, i + 1);
            }
            return Some(i);
        }
        i = i + 1;
    }
    assert(ms@.take(i as int) =~= ms@);
    None
}

/// A hit within a prefix is the hit of the whole sequence.
proof fn lemma_first_model_prefix(ms: Seq<ModelEntry>, id: Seq<char>, k: int)
    requires
        0 <= k <= ms.len(),
        first_model(ms.take(k), id) is Some,
    ensures
        first_model(ms, id) == first_model(ms.take(k), id),
    decreases ms.len() - k,
{
    if k < ms.len() {
        assert(ms.take(k + 1).drop_last() =~= ms.take(k));
        lemma_first_model_prefix(ms, id, k + 1);
    } else {
        assert(ms.take(k) =~= ms);
    }
}

proof fn lemma_first_hit_prefix(cat: Seq<(String, Vec<ModelEntry>)>, name: Option<Seq<char>>, id: Seq<char>, k: int)
    requires
        0 <= k <= cat.len(),
        first_hit(cat.take(k), name, id) is Some,
    ensures
        first_hit(cat, name, id) == first_hit(cat.take(k), name, id),
    decreases cat.len() - k,
{
    if k < cat.len() {
        assert(cat.take(k + 1).drop_last() =~= cat.take(k));
        lemma_first_hit_prefix(cat, name, id, k + 1);
    } else {
        assert(cat.take(k) =~= cat);
    }
}

fn first_hit_exec(cat: &[(String, Vec<ModelEntry>)], name: Option<&[char]>, id: &[char]) -> (r: Option<(usize, usize)>)
    ensures
        match r {
            Some((p, m)) => first_hit(cat@, view_name(name), id@) == Some((p as int, m as int)) && p
                < cat@.len() && m < cat@[p as int].1@.len(),
            None => first_hit(cat@, view_name(name), id@) is None,
        },
{
    let mut p: usize = 0;
    assert(cat@.take(0) =~= Seq::<(String, Vec<ModelEntry>)>::empty());
    while p < cat.len()
        invariant
            0 <= p <= cat@.len(),
            first_hit(cat@.take(p as int), view_name(name), id@) is None,
        decreases cat.len() - p,
    {
        assert(cat@.take(p + 1).drop_last() =~= cat@.take(p as int));
        assert(cat@.take(p + 1).last() == cat@[p as int]);
        let named = match name {
            None => true,
            Some(n) => chars_eq(chars_of(cat[p].0.as_str()).as_slice(), n),
        };
        if named {
            match first_model_exec(&cat[p].1, id) {
                Some(m) => {
                    proof {
                        lemma_first_hit_prefix(cat@, view_name(name), id@, p + 1);
                    }
                    return Some((p, m));
                },
                None => {},
            }
        }
        p = p + 1;
    }
    assert(cat@.take(p as int) =~= cat@);
    None
}

pub open spec fn view_name(name: Option<&[char]>) -> Option<Seq<char>> {
    match name {
        Some(n) => Some(n@),
        None => None,
    }
}

/// Provider and model index of the catalog row for a model (see [`lookup`]).
pub fn catalog_lookup(catalog: &[(String, Vec<ModelEntry>)], provider: &str, model_id: &str) -> (r: Option<(usize, usize)>)
    ensures
        match r {
            Some((p, m)) => lookup(catalog@, provider@, model_id@) == Some((p as int, m as int)) && p
                < catalog@.len() && m < catalog@[p as int].1@.len(),
            None => lookup(catalog@, provider@, model_id@) is None,
        },
{
    let pc = chars_of(provider);
    let mc = chars_of(model_id);
    match first_hit_exec(catalog, Some(pc.as_slice()), mc.as_slice()) {
        Some(h) => Some(h),
        None => if pc.len() == 0 {
            first_hit_exec(catalog, None, mc.as_slice())
        } else {
            None
        },
    }
}

/// The context window the catalog gives a model, 0 when it has no row.
pub fn context_window_for(catalog: &[(String, Vec<ModelEntry>)], provider: &str, model_id: &str) -> (r: u64)
    ensures
        r == match lookup(catalog@, provider@, model_id@) {
            Some((p, m)) => catalog@[p].1@[m].context_window,
            None => 0,
        },
{
    match catalog_lookup(catalog, provider, model_id) {
        Some((p, m)) => catalog[p].1[m].context_window,
        None => 0,
    }
}

/// The prompt tokens of a usage: input, cache reads and cache writes.
pub open spec fn prompt_tokens(u: Usage) -> int {
    u.input + u.cache_read + u.cache_write
}

/// The pricing tier chosen among the first `n`: walking them in order, a
/// tier is taken when the prompt exceeds its threshold and that threshold
/// exceeds the one taken so far (zero before any).
pub open spec fn tier_walk(thresholds: Seq<u64>, prompt: int, n: int) -> Option<int>
    decreases n,
{
    if n <= 0 {
        None
    } else {
        let prev = tier_walk(thresholds, prompt, n - 1);
        let matched: int = match prev {
            Some(i) => thresholds[i] as int,
            None => 0,
        };
        if prompt > thresholds[n - 1] && thresholds[n - 1] > matched {
            Some(n - 1)
        } else {
            prev
        }
    }
}

proof fn lemma_tier_walk_bounds(thresholds: Seq<u64>, prompt: int, n: int)
    requires
        0 <= n <= thresholds.len(),
    ensures
        tier_walk(thresholds, prompt, n) matches Some(i) ==> 0 <= i < n,
    decreases n,
{
    if n > 0 {
        lemma_tier_walk_bounds(thresholds, prompt, n - 1);
    }
}

/// Which pricing tier's rates apply to a usage (see [`tier_walk`]); `None`
/// keeps the model's base rates. `thresholds` are the tiers'
/// `inputTokensAbove`, in order.
pub fn select_tier(thresholds: &[u64], u: &Usage) -> (r: Option<usize>)
    ensures
        match r {
            Some(i) => tier_walk(thresholds@, prompt_tokens(*u), thresholds@.len() as int) == Some(i as int),
            None => tier_walk(thresholds@, prompt_tokens(*u), thresholds@.len() as int) is None,
        },
{
    let prompt: u128 = u.input as u128 + u.cache_read as u128 + u.cache_write as u128;
    let mut chosen: Option<usize> = None;
    let mut matched: u64 = 0;
    let mut i: usize = 0;
    while i < thresholds.len()
        invariant
            0 <= i <= thresholds@.len(),
            prompt == prompt_tokens(*u),
            tier_walk(thresholds@, prompt as int, i as int) == (match chosen {
                Some(c) => Some(c as int),
                None => None,
            }),
            matched == (match chosen {
                Some(c) => thresholds@[c as int],
                None => 0,
            }),
            chosen matches Some(c) ==> c < i,
        decreases thresholds.len() - i,
    {
        proof {
            lemma_tier_walk_bounds(thresholds@, prompt as int, i as int);
        }
        let t = thresholds[i];
        if prompt > t as u128 && t > matched {
            chosen = Some(i);
            matched = t;
        }
        i = i + 1;
    }
    chosen
}

/// Cache writes split into short-lived and one-hour ones: the one-hour
/// writes, at most all writes, bill at twice the input rate.
pub fn cache_write_split(u: &Usage) -> (r: (u64, u64))
    ensures
        r.1 == (if u.cache_write_1h < u.cache_write {
            u.cache_write_1h
        } else {
            u.cache_write
        }),
        r.0 == u.cache_write - r.1,
{
    let long = if u.cache_write_1h < u.cache_write {
        u.cache_write_1h
    } else {
        u.cache_write
    };
    (u.cache_write - long, long)
}

} // verus!

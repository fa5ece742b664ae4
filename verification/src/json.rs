//! JSON documents as plain values, and the lookups the telemetry readers
//! make on them. Parsing itself is serde_json's.
use crate::text::{chars_eq, chars_of, string_of};
use vstd::prelude::*;

verus! {

/// A JSON value. Object members keep serde_json's map order (sorted by key,
/// each key once); a number keeps the text serde_json prints for it.
#[derive(Debug)]
pub enum Json {
    Null,
    Bool(bool),
    Num(String),
    Str(String),
    Array(Vec<Json>),
    /// Keys and values of the members, index by index.
    Object(Vec<String>, Vec<Json>),
}

#[verifier::external_type_specification]
#[verifier::external_body]
pub struct ExJsonValue(serde_json::Value);

/// What `serde_json::from_str::<serde_json::Value>` gives for a text, as a
/// `Json` (`None` when the text is not one JSON document).
pub uninterp spec fn parsed_json(text: Seq<char>) -> Option<Json>;

/// `serde_json::from_str::<serde_json::Value>`: the document of a text, or
/// `None` when serde_json rejects it. The result is named, not restated:
/// it depends on the text alone.
#[verifier::external_body]
pub(crate) fn parse_json(text: &str) -> (r: Option<Json>)
    ensures
        r == parsed_json(text@),
{
    match serde_json::from_str::<serde_json::Value>(text) {
        Ok(v) => Some(json_of_value(&v)),
        Err(_) => None,
    }
}

/// The `Json` form of a `serde_json::Value`, variant by variant (a number by
/// its printed text).
#[verifier::external_body]
fn json_of_value(v: &serde_json::Value) -> Json {
    match v {
        serde_json::Value::Null => Json::Null,
        serde_json::Value::Bool(b) => Json::Bool(*b),
        serde_json::Value::Number(n) => Json::Num(n.to_string()),
        serde_json::Value::String(s) => Json::Str(s.clone()),
        serde_json::Value::Array(a) => Json::Array(a.iter().map(json_of_value).collect()),
        serde_json::Value::Object(m) => Json::Object(
            m.keys().cloned().collect(),
            m.values().map(json_of_value).collect(),
        ),
    }
}

/// The member `key` of an object (the first with that key).
#[verifier::opaque]
pub open spec fn field(v: Json, key: Seq<char>) -> Option<Json> {
    match v {
        Json::Object(ks, vs) => {
            if exists|i: int| 0 <= i < ks@.len() && i < vs@.len() && (#[trigger] ks@[i])@ == key {
                let i = choose|i: int|
                    0 <= i < ks@.len() && i < vs@.len() && (#[trigger] ks@[i])@ == key && forall|j: int|
                        0 <= j < i ==> (#[trigger] ks@[j])@ != key;
                Some(vs@[i])
            } else {
                None
            }
        },
        _ => None,
    }
}

proof fn lemma_field_at(ks: Vec<String>, vs: Vec<Json>, key: Seq<char>, i: int)
    requires
        0 <= i < ks@.len(),
        i < vs@.len(),
        ks@[i]@ == key,
        forall|j: int| 0 <= j < i ==> (#[trigger] ks@[j])@ != key,
    ensures
        field(Json::Object(ks, vs), key) == Some(vs@[i]),
{
    reveal(field);
    assert(field(Json::Null, key) is None);
    assert(exists|c: int| 0 <= c < ks@.len() && c < vs@.len() && (#[trigger] ks@[c])@ == key) by {
        assert(ks@[i]@ == key);
    }
    let c = choose|c: int|
        0 <= c < ks@.len() && c < vs@.len() && (#[trigger] ks@[c])@ == key && forall|j: int|
            0 <= j < c ==> (#[trigger] ks@[j])@ != key;
    assert(0 <= i < ks@.len() && i < vs@.len() && (#[trigger] ks@[i])@ == key && forall|j: int|
            0 <= j < i ==> (#[trigger] ks@[j])@ != key);
    assert(c == i) by {
        if c < i {
            assert(ks@[c]@ != key);
        }
        if c > i {
            assert(ks@[i]@ == key);
        }
    }
    assert(field(Json::Object(ks, vs), key) == Some(vs@[c]));
}

/// The text of a string value.
pub open spec fn str_of(v: Option<Json>) -> Option<Seq<char>> {
    match v {
        Some(Json::Str(s)) => Some(s@),
        _ => None,
    }
}

/// The member `key` of an object.
pub fn get<'a>(v: &'a Json, key: &str) -> (r: Option<&'a Json>)
    ensures
        match (r, field(*v, key@)) {
            (Some(a), Some(b)) => *a == b,
            (None, None) => true,
            _ => false,
        },
{
    proof {
        reveal(field);
    }
    match v {
        Json::Object(ks, vs) => {
            let k = chars_of(key);
            let mut i: usize = 0;
            while i < ks.len() && i < vs.len()
                invariant
                    0 <= i <= ks@.len(),
                    *v == Json::Object(*ks, *vs),
                    k@ == key@,
                    forall|j: int| 0 <= j < i ==> (#[trigger] ks@[j])@ != key@,
                decreases ks.len() - i,
            {
                if chars_eq(chars_of(ks[i].as_str()).as_slice(), k.as_slice()) {
                    assert(0 <= i < ks@.len() && i < vs@.len() && (#[trigger] ks@[i as int])@ == key@);
                    proof {
                        lemma_field_at(*ks, *vs, key@, i as int);
                    }
                    return Some(&vs[i]);
                }
                i = i + 1;
            }
            proof {
                if exists|c: int| 0 <= c < ks@.len() && c < vs@.len() && (#[trigger] ks@[c])@ == key@ {
                    let c = choose|c: int| 0 <= c < ks@.len() && c < vs@.len() && (#[trigger] ks@[c])@ == key@;
                    assert(c < i);
                    assert(ks@[c]@ != key@);
                }
            }
            None
        },
        _ => None,
    }
}

/// The text of a string member `key`.
pub fn get_str<'a>(v: &'a Json, key: &str) -> (r: Option<&'a String>)
    ensures
        match (r, str_of(field(*v, key@))) {
            (Some(a), Some(b)) => a@ == b,
            (None, None) => true,
            _ => false,
        },
{
    match get(v, key) {
        Some(Json::Str(s)) => Some(s),
        _ => None,
    }
}

/// The text of a string value.
pub fn as_str(v: &Json) -> (r: Option<&String>)
    ensures
        match (r, str_of(Some(*v))) {
            (Some(a), Some(b)) => a@ == b,
            (None, None) => true,
            _ => false,
        },
{
    match v {
        Json::Str(s) => Some(s),
        _ => None,
    }
}

/// The elements of an array member `key`.
pub fn get_array<'a>(v: &'a Json, key: &str) -> (r: Option<&'a Vec<Json>>)
    ensures
        match (r, field(*v, key@)) {
            (Some(a), Some(Json::Array(b))) => *a == b,
            (None, Some(Json::Array(_))) => false,
            (Some(_), _) => false,
            _ => true,
        },
{
    match get(v, key) {
        Some(Json::Array(a)) => Some(a),
        _ => None,
    }
}

} // verus!

verus! {

/// The value of a boolean.
pub open spec fn bool_of(v: Option<Json>) -> Option<bool> {
    match v {
        Some(Json::Bool(b)) => Some(b),
        _ => None,
    }
}

/// The value of a boolean member `key`.
pub fn get_bool(v: &Json, key: &str) -> (r: Option<bool>)
    ensures
        r == bool_of(field(*v, key@)),
{
    match get(v, key) {
        Some(Json::Bool(b)) => Some(*b),
        _ => None,
    }
}

} // verus!

verus! {

/// Index of the member `key` of an object (the first with that key).
pub fn member_index(ks: &Vec<String>, vs: &Vec<Json>, key: &str) -> (r: Option<usize>)
    ensures
        match r {
            Some(i) => i < ks@.len() && i < vs@.len() && ks@[i as int]@ == key@ && field(
                Json::Object(*ks, *vs),
                key@,
            ) == Some(vs@[i as int]),
            None => field(Json::Object(*ks, *vs), key@) is None,
        },
{
    proof {
        reveal(field);
    }
    let k = chars_of(key);
    let mut i: usize = 0;
    while i < ks.len() && i < vs.len()
        invariant
            0 <= i <= ks@.len(),
            k@ == key@,
            forall|j: int| 0 <= j < i ==> (#[trigger] ks@[j])@ != key@,
        decreases ks.len() - i,
    {
        if chars_eq(chars_of(ks[i].as_str()).as_slice(), k.as_slice()) {
            proof {
                lemma_field_at(*ks, *vs, key@, i as int);
            }
            return Some(i);
        }
        i = i + 1;
    }
    proof {
        if exists|c: int| 0 <= c < ks@.len() && c < vs@.len() && (#[trigger] ks@[c])@ == key@ {
            let c = choose|c: int| 0 <= c < ks@.len() && c < vs@.len() && (#[trigger] ks@[c])@ == key@;
            assert(ks@[c]@ != key@);
        }
    }
    None
}

/// Moves the value at `i` out, leaving `null` in its place.
pub fn take_at(vs: &mut Vec<Json>, i: usize) -> (r: Json)
    requires
        i < old(vs)@.len(),
    ensures
        r == old(vs)@[i as int],
        final(vs)@ == old(vs)@.update(i as int, Json::Null),
{
    let x = vs.remove(i);
    vs.insert(i, Json::Null);
    assert(vs@ =~= old(vs)@.update(i as int, Json::Null));
    x
}

/// Value of a text of decimal digits.
pub open spec fn digits_of(t: Seq<char>) -> int
    decreases t.len(),
{
    if t.len() == 0 {
        0
    } else {
        digits_of(t.drop_last()) * 10 + (t.last() as int - '0' as int)
    }
}

/// The `u64` a number is read as: one printed without sign, fraction or
/// exponent, and small enough.
pub open spec fn u64_of(v: Json) -> Option<u64> {
    match v {
        Json::Num(t) => if t@.len() > 0 && (forall|i: int|
            0 <= i < t@.len() ==> '0' <= #[trigger] t@[i] <= '9') && digits_of(t@) <= u64::MAX {
            Some(digits_of(t@) as u64)
        } else {
            None
        },
        _ => None,
    }
}

/// The `u64` a number is read as, if it is one.
pub fn json_u64(v: &Json) -> (r: Option<u64>)
    ensures
        r == u64_of(*v),
{
    match v {
        Json::Num(t) => {
            let cs = chars_of(t.as_str());
            if cs.len() == 0 {
                return None;
            }
            let mut acc: u64 = 0;
            let mut i: usize = 0;
            while i < cs.len()
                invariant
                    0 <= i <= cs@.len(),
                    *v == Json::Num(*t),
                    cs@ == t@,
                    cs@.len() > 0,
                    forall|k: int| 0 <= k < i ==> '0' <= #[trigger] cs@[k] <= '9',
                    acc == digits_of(cs@.take(i as int)),
                decreases cs.len() - i,
            {
                let c = cs[i];
                assert(cs@.take(i + 1).drop_last() =~= cs@.take(i as int));
                if !('0' <= c && c <= '9') {
                    assert(!('0' <= cs@[i as int] <= '9'));
                    return None;
                }
                let d = (c as u32 - '0' as u32) as u64;
                if acc > (u64::MAX - d) / 10 {
                    proof {
                        assert(digits_of(cs@.take(i + 1)) == acc * 10 + d);
                        if forall|k: int| 0 <= k < cs@.len() ==> '0' <= #[trigger] cs@[k] <= '9' {
                            lemma_digits_prefix_le(cs@, i + 1);
                        }
                    }
                    return None;
                }
                acc = acc * 10 + d;
                i = i + 1;
            }
            assert(cs@.take(i as int) =~= cs@);
            Some(acc)
        },
        _ => None,
    }
}

/// A longer run of digits is worth at least as much as its prefix.
pub proof fn lemma_digits_prefix_le(t: Seq<char>, k: int)
    requires
        0 <= k <= t.len(),
        forall|i: int| 0 <= i < t.len() ==> '0' <= #[trigger] t[i] <= '9',
    ensures
        digits_of(t.take(k)) <= digits_of(t),
    decreases t.len() - k,
{
    if k < t.len() {
        lemma_digits_prefix_le(t, k + 1);
        assert(t.take(k + 1).drop_last() =~= t.take(k));
        assert(digits_of(t.take(k)) >= 0) by {
            lemma_digits_nonneg(t.take(k));
        }
    } else {
        assert(t.take(k) =~= t);
    }
}

pub proof fn lemma_digits_nonneg(t: Seq<char>)
    requires
        forall|i: int| 0 <= i < t.len() ==> '0' <= #[trigger] t[i] <= '9',
    ensures
        digits_of(t) >= 0,
    decreases t.len(),
{
    if t.len() > 0 {
        lemma_digits_nonneg(t.drop_last());
    }
}

/// What `serde_json::Value::to_string` prints for the value `v` stands for
/// (compact JSON).
pub uninterp spec fn json_text(v: Json) -> Seq<char>;

/// `Display` of `serde_json::Value` (compact JSON text) on the value `v`
/// stands for. The text is named, not restated: it depends on `v` alone.
#[verifier::external_body]
pub(crate) fn json_to_text(v: &Json) -> (r: String)
    ensures
        r@ == json_text(*v),
{
    value_of_json(v).to_string()
}

/// The `serde_json::Value` a `Json` stands for, variant by variant (a
/// number from its printed text).
#[verifier::external_body]
fn value_of_json(v: &Json) -> serde_json::Value {
    match v {
        Json::Null => serde_json::Value::Null,
        Json::Bool(b) => serde_json::Value::Bool(*b),
        Json::Num(s) => s.parse::<serde_json::Number>().map_or(serde_json::Value::Null, serde_json::Value::Number),
        Json::Str(s) => serde_json::Value::String(s.clone()),
        Json::Array(a) => serde_json::Value::Array(a.iter().map(value_of_json).collect()),
        Json::Object(ks, vs) => serde_json::Value::Object(
            ks.iter().cloned().zip(vs.iter().map(value_of_json)).collect(),
        ),
    }
}

} // verus!

verus! {

/// The value of a run of ASCII digits, if it is one (non-empty) and fits
/// in `u64`.
pub open spec fn digits_u64_spec(t: Seq<char>) -> Option<u64> {
    if t.len() > 0 && (forall|i: int| 0 <= i < t.len() ==> '0' <= #[trigger] t[i] <= '9')
        && digits_of(t) <= u64::MAX {
        Some(digits_of(t) as u64)
    } else {
        None
    }
}

/// The value of a run of ASCII digits (see [`digits_u64_spec`]).
pub fn digits_u64(cs: &[char]) -> (r: Option<u64>)
    ensures
        r == digits_u64_spec(cs@),
{
    if cs.len() == 0 {
        return None;
    }
    let mut acc: u64 = 0;
    let mut i: usize = 0;
    while i < cs.len()
        invariant
            0 <= i <= cs@.len(),
            cs@.len() > 0,
            forall|k: int| 0 <= k < i ==> '0' <= #[trigger] cs@[k] <= '9',
            acc == digits_of(cs@.take(i as int)),
        decreases cs.len() - i,
    {
        let c = cs[i];
        assert(cs@.take(i + 1).drop_last() =~= cs@.take(i as int));
        if !('0' <= c && c <= '9') {
            assert(!('0' <= cs@[i as int] <= '9'));
            return None;
        }
        let d = (c as u32 - '0' as u32) as u64;
        if acc > (u64::MAX - d) / 10 {
            proof {
                assert(digits_of(cs@.take(i + 1)) == acc * 10 + d);
                if forall|k: int| 0 <= k < cs@.len() ==> '0' <= #[trigger] cs@[k] <= '9' {
                    lemma_digits_prefix_le(cs@, i + 1);
                }
            }
            return None;
        }
        acc = acc * 10 + d;
        i = i + 1;
    }
    assert(cs@.take(i as int) =~= cs@);
    Some(acc)
}

} // verus!

//! OpenRouter accounts: provider detection, where each account's key comes
//! from, and which accounts are asked for their credits.
use crate::text::{chars_eq, chars_of, contains, starts_with, trim, text_lowercase};
use vstd::prelude::*;

verus! {

/// A provider name is OpenRouter's: trimmed and lowercased, it is
/// `openrouter`, starts with `openrouter-`, or contains `openrouter`.
pub open spec fn spec_is_openrouter(provider: Seq<char>) -> bool {
    let p = text_lowercase(trim(provider));
    p == "openrouter"@ || starts_with(p, "openrouter-"@) || contains(p, "openrouter"@)
}

/// Whether a provider name is OpenRouter's (see [`spec_is_openrouter`]).
pub fn is_openrouter_provider(provider: &str) -> (r: bool)
    ensures
        r == spec_is_openrouter(provider@),
{
    let t = crate::text::trim_chars(chars_of(provider).as_slice());
    let p = crate::text::unicode_lower_chars(t.as_slice());
    crate::text::chars_eq(p.as_slice(), chars_of("openrouter").as_slice())
        || crate::text::starts_with_chars(p.as_slice(), chars_of("openrouter-").as_slice())
        || crate::text::contains_chars(p.as_slice(), chars_of("openrouter").as_slice())
}

} // verus!

verus! {

/// A char kept in a provider slug: ASCII alphanumeric, `.`, `_` or `-`;
/// any other becomes `-`.
pub open spec fn slug_char(c: char) -> char {
    if crate::text::is_ascii_alnum(c) || c == '.' || c == '_' || c == '-' {
        c
    } else {
        '-'
    }
}

/// The pi provider id of an OpenRouter account: `openrouter-<slug>` of its
/// trimmed, lowercased id (other chars as `-`, `-` trimmed at both ends),
/// or `openrouter` itself for an empty slug or `openrouter`.
pub open spec fn spec_provider_id(account_id: Seq<char>) -> Seq<char> {
    let slug = crate::text::trim_char(
        text_lowercase(trim(account_id)).map_values(|c: char| slug_char(c)),
        '-',
    );
    if slug.len() == 0 || slug == "openrouter"@ {
        "openrouter"@
    } else {
        "openrouter-"@ + slug
    }
}

fn map_chars_slug(v: &[char]) -> (r: Vec<char>)
    ensures
        r@ == v@.map_values(|c: char| slug_char(c)),
{
    let mut out: Vec<char> = Vec::new();
    let mut i: usize = 0;
    while i < v.len()
        invariant
            0 <= i <= v@.len(),
            out@ == v@.take(i as int).map_values(|c: char| slug_char(c)),
        decreases v.len() - i,
    {
        let c = v[i];
        out.push(
            if crate::text::is_ascii_alphanumeric(c) || c == '.' || c == '_' || c == '-' {
                c
            } else {
                '-'
            },
        );
        i = i + 1;
        assert(out@ =~= v@.take(i as int).map_values(|c: char| slug_char(c)));
    }
    assert(v@.take(i as int) =~= v@);
    out
}

/// The pi provider id of an OpenRouter account (see [`spec_provider_id`]).
pub fn provider_id_for(account_id: &str) -> (r: String)
    ensures
        r@ == spec_provider_id(account_id@),
{
    let t = crate::text::trim_chars(chars_of(account_id).as_slice());
    let l = crate::text::unicode_lower_chars(t.as_slice());
    let m = map_chars_slug(l.as_slice());
    let slug = crate::text::trim_char_exec(m.as_slice(), '-');
    if slug.len() == 0 || crate::text::chars_eq(slug.as_slice(), chars_of("openrouter").as_slice()) {
        crate::text::to_string("openrouter")
    } else {
        crate::text::string_of(
            crate::text::concat_chars(chars_of("openrouter-").as_slice(), slug.as_slice()).as_slice(),
        )
    }
}

/// Where an account's `apiKey` points.
pub enum KeySource {
    /// Empty.
    Missing,
    /// `$NAME` or `${NAME}`: an environment variable.
    Env(String),
    /// `!command`: the trimmed output of a shell command.
    Command(String),
    /// The key itself.
    Literal(String),
}

/// `s` with `{` and `}` removed at both ends.
pub open spec fn trim_braces(s: Seq<char>) -> Seq<char> {
    s.subrange(lead_braces(s), s.len() - trail_braces(s.subrange(lead_braces(s), s.len() as int)))
}

/// Number of leading `{`/`}` chars.
pub open spec fn lead_braces(s: Seq<char>) -> int
    decreases s.len(),
{
    if s.len() > 0 && (s[0] == '{' || s[0] == '}') {
        1 + lead_braces(s.drop_first())
    } else {
        0
    }
}

/// Number of trailing `{`/`}` chars.
pub open spec fn trail_braces(s: Seq<char>) -> int
    decreases s.len(),
{
    if s.len() > 0 && (s.last() == '{' || s.last() == '}') {
        1 + trail_braces(s.drop_last())
    } else {
        0
    }
}

/// The source a raw `apiKey` names, after trimming.
pub open spec fn spec_key_source(raw: Seq<char>) -> (int, Seq<char>) {
    let s = trim(raw);
    if s.len() == 0 {
        (0, Seq::empty())
    } else if s[0] == '$' {
        (1, trim_braces(s.drop_first()))
    } else if s[0] == '!' {
        (2, trim(s.drop_first()))
    } else {
        (3, s)
    }
}

pub open spec fn key_source_view(k: KeySource) -> (int, Seq<char>) {
    match k {
        KeySource::Missing => (0, Seq::empty()),
        KeySource::Env(v) => (1, v@),
        KeySource::Command(c) => (2, c@),
        KeySource::Literal(l) => (3, l@),
    }
}

proof fn lemma_lead_braces(s: Seq<char>)
    ensures
        0 <= lead_braces(s) <= s.len(),
        forall|j: int| 0 <= j < lead_braces(s) ==> s[j] == '{' || s[j] == '}',
        lead_braces(s) < s.len() ==> !(s[lead_braces(s)] == '{' || s[lead_braces(s)] == '}'),
    decreases s.len(),
{
    if s.len() > 0 && (s[0] == '{' || s[0] == '}') {
        lemma_lead_braces(s.drop_first());
        assert forall|j: int| 0 <= j < lead_braces(s) implies s[j] == '{' || s[j] == '}' by {
            if j > 0 {
                assert(s[j] == s.drop_first()[j - 1]);
            }
        }
        if lead_braces(s) < s.len() {
            assert(s[lead_braces(s)] == s.drop_first()[lead_braces(s.drop_first())]);
        }
    }
}

proof fn lemma_trail_braces(s: Seq<char>)
    ensures
        0 <= trail_braces(s) <= s.len(),
        forall|j: int| s.len() - trail_braces(s) <= j < s.len() ==> s[j] == '{' || s[j] == '}',
        trail_braces(s) < s.len() ==> !(s[s.len() - trail_braces(s) - 1] == '{' || s[s.len()
            - trail_braces(s) - 1] == '}'),
    decreases s.len(),
{
    if s.len() > 0 && (s.last() == '{' || s.last() == '}') {
        lemma_trail_braces(s.drop_last());
        assert forall|j: int| s.len() - trail_braces(s) <= j < s.len() implies s[j] == '{' || s[j]
            == '}' by {
            if j < s.len() - 1 {
                assert(s[j] == s.drop_last()[j]);
            }
        }
        if trail_braces(s) < s.len() {
            assert(s[s.len() - trail_braces(s) - 1] == s.drop_last()[s.drop_last().len()
                - trail_braces(s.drop_last()) - 1]);
        }
    }
}

proof fn lemma_lead_unique(s: Seq<char>, k: int)
    requires
        0 <= k <= s.len(),
        forall|j: int| 0 <= j < k ==> s[j] == '{' || s[j] == '}',
        k < s.len() ==> !(s[k] == '{' || s[k] == '}'),
    ensures
        lead_braces(s) == k,
    decreases k,
{
    if k > 0 {
        assert forall|j: int| 0 <= j < k - 1 implies s.drop_first()[j] == '{' || s.drop_first()[j]
            == '}' by {
            assert(s.drop_first()[j] == s[j + 1]);
        }
        if k < s.len() {
            assert(s.drop_first()[k - 1] == s[k]);
        }
        lemma_lead_unique(s.drop_first(), k - 1);
    }
}

proof fn lemma_trail_unique(s: Seq<char>, k: int)
    requires
        0 <= k <= s.len(),
        forall|j: int| s.len() - k <= j < s.len() ==> s[j] == '{' || s[j] == '}',
        k < s.len() ==> !(s[s.len() - k - 1] == '{' || s[s.len() - k - 1] == '}'),
    ensures
        trail_braces(s) == k,
    decreases k,
{
    if k > 0 {
        let d = s.drop_last();
        assert forall|j: int| d.len() - (k - 1) <= j < d.len() implies d[j] == '{' || d[j] == '}' by {
            assert(d[j] == s[j]);
        }
        if k < s.len() {
            assert(d[d.len() - (k - 1) - 1] == s[s.len() - k - 1]);
        }
        lemma_trail_unique(d, k - 1);
    }
}

fn trim_braces_exec(v: &[char]) -> (r: Vec<char>)
    ensures
        r@ == trim_braces(v@),
{
    let mut a: usize = 0;
    while a < v.len() && (v[a] == '{' || v[a] == '}')
        invariant
            0 <= a <= v@.len(),
            forall|j: int| 0 <= j < a ==> v@[j] == '{' || v@[j] == '}',
        decreases v.len() - a,
    {
        a = a + 1;
    }
    proof {
        lemma_lead_unique(v@, a as int);
    }
    let mid = crate::text::slice_chars(v, a, v.len());
    let mut b: usize = mid.len();
    while b > 0 && (mid[b - 1] == '{' || mid[b - 1] == '}')
        invariant
            0 <= b <= mid@.len(),
            forall|j: int| b <= j < mid@.len() ==> mid@[j] == '{' || mid@[j] == '}',
        decreases b,
    {
        b = b - 1;
    }
    proof {
        lemma_trail_unique(mid@, mid@.len() - b);
    }
    let r = crate::text::slice_chars(mid.as_slice(), 0, b);
    assert(r@ =~= trim_braces(v@));
    r
}

/// Classifies a raw `apiKey` (see [`spec_key_source`]).
pub fn key_source(raw: &str) -> (r: KeySource)
    ensures
        key_source_view(r) == spec_key_source(raw@),
{
    let s = crate::text::trim_chars(chars_of(raw).as_slice());
    if s.len() == 0 {
        return KeySource::Missing;
    }
    let rest = crate::text::slice_chars(s.as_slice(), 1, s.len());
    assert(rest@ == s@.drop_first());
    if s[0] == '$' {
        KeySource::Env(crate::text::string_of(trim_braces_exec(rest.as_slice()).as_slice()))
    } else if s[0] == '!' {
        KeySource::Command(crate::text::string_of(crate::text::trim_chars(rest.as_slice()).as_slice()))
    } else {
        KeySource::Literal(crate::text::string_of(s.as_slice()))
    }
}

/// A char of an account id in an environment variable name: ASCII
/// alphanumeric, or `_`.
pub open spec fn env_char(c: char) -> char {
    if crate::text::is_ascii_alnum(c) {
        c
    } else {
        '_'
    }
}

/// The environment variable an account's key may sit in:
/// `OPENROUTER_<ID>_API_KEY` of its uppercased id.
pub open spec fn spec_account_key_var(account_id: Seq<char>) -> Seq<char> {
    "OPENROUTER_"@ + crate::text::unicode_uppercase(account_id).map_values(|c: char| env_char(c))
        + "_API_KEY"@
}

/// The environment variable an account's key may sit in (see
/// [`spec_account_key_var`]).
pub fn account_key_var(account_id: &str) -> (r: String)
    ensures
        r@ == spec_account_key_var(account_id@),
{
    let u = crate::text::unicode_upper_chars(chars_of(account_id).as_slice());
    let mut out: Vec<char> = Vec::new();
    let mut i: usize = 0;
    while i < u.len()
        invariant
            0 <= i <= u@.len(),
            out@ == u@.take(i as int).map_values(|c: char| env_char(c)),
        decreases u.len() - i,
    {
        let c = u[i];
        out.push(
            if crate::text::is_ascii_alphanumeric(c) {
                c
            } else {
                '_'
            },
        );
        i = i + 1;
        assert(out@ =~= u@.take(i as int).map_values(|c: char| env_char(c)));
    }
    assert(u@.take(i as int) =~= u@);
    let a = crate::text::concat_chars(chars_of("OPENROUTER_").as_slice(), out.as_slice());
    crate::text::string_of(crate::text::concat_chars(a.as_slice(), chars_of("_API_KEY").as_slice()).as_slice())
}

// ---------------------------------------------------------------------------
// Keys and the accounts to ask
// ---------------------------------------------------------------------------

/// A stored credential of pi's `auth.json`, under its provider id.
pub struct Credential {
    pub provider: String,
    pub key: Option<String>,
    pub access: Option<String>,
}

/// An account of `openrouter-accounts.json`.
pub struct AccountConfig {
    pub id: String,
    pub label: Option<String>,
    pub api_key: Option<String>,
}

/// An account whose credits are asked for (when it has a key).
pub struct AccountToCheck {
    pub id: String,
    pub label: String,
    pub key: Option<String>,
}

pub open spec fn opt_view(o: Option<String>) -> Option<Seq<char>> {
    match o {
        Some(s) => Some(s@),
        None => None,
    }
}

/// `s` trimmed, when something is left.
pub open spec fn trimmed_nonblank(s: Seq<char>) -> Option<Seq<char>> {
    if trim(s).len() > 0 {
        Some(trim(s))
    } else {
        None
    }
}

/// The key of a credential: its `key`, else its `access` (a present but
/// blank `key` still wins), trimmed; nothing when blank.
pub open spec fn spec_credential_key(c: Credential) -> Option<Seq<char>> {
    match c.key {
        Some(k) => trimmed_nonblank(k@),
        None => match c.access {
            Some(a) => trimmed_nonblank(a@),
            None => None,
        },
    }
}

/// The first credential stored under `provider`.
pub open spec fn first_credential(auth: Seq<Credential>, provider: Seq<char>) -> Option<Credential>
    decreases auth.len(),
{
    if auth.len() == 0 {
        None
    } else if auth[0].provider@ == provider {
        Some(auth[0])
    } else {
        first_credential(auth.skip(1), provider)
    }
}

/// The key stored for `provider`, if any.
pub open spec fn spec_auth_key(auth: Seq<Credential>, provider: Seq<char>) -> Option<Seq<char>> {
    match first_credential(auth, provider) {
        Some(c) => spec_credential_key(c),
        None => None,
    }
}

/// The key an `apiKey` source yields: a literal as it is, an environment
/// variable's value when it is not blank, a command's trimmed output when
/// the command succeeded and printed something.
pub open spec fn spec_key_from_source(
    source: (int, Seq<char>),
    env_value: Option<Seq<char>>,
    command_output: Option<Seq<char>>,
) -> Option<Seq<char>> {
    if source.0 == 1 {
        match env_value {
            Some(v) => if trim(v).len() > 0 {
                Some(v)
            } else {
                None
            },
            None => None,
        }
    } else if source.0 == 2 {
        match command_output {
            Some(o) => trimmed_nonblank(o),
            None => None,
        }
    } else if source.0 == 3 {
        Some(source.1)
    } else {
        None
    }
}

/// The key of an account: the credential stored for its provider, else its
/// `apiKey` source, else its own environment variable, else (for the root
/// account) the `openrouter` credential or `OPENROUTER_API_KEY`.
pub open spec fn spec_account_key(
    account_id: Seq<char>,
    provider_id: Seq<char>,
    auth: Seq<Credential>,
    source_key: Option<Seq<char>>,
    account_env: Option<Seq<char>>,
    root_env: Option<Seq<char>>,
) -> Option<Seq<char>> {
    if spec_auth_key(auth, provider_id) is Some {
        spec_auth_key(auth, provider_id)
    } else if source_key is Some {
        source_key
    } else if account_env is Some && trimmed_nonblank(account_env->0) is Some {
        trimmed_nonblank(account_env->0)
    } else if account_id == "default"@ || provider_id == "openrouter"@ {
        if spec_auth_key(auth, "openrouter"@) is Some {
            spec_auth_key(auth, "openrouter"@)
        } else {
            match root_env {
                Some(v) => trimmed_nonblank(v),
                None => None,
            }
        }
    } else {
        None
    }
}

pub open spec fn check_view(a: AccountToCheck) -> (Seq<char>, Seq<char>, Option<Seq<char>>) {
    (a.id@, a.label@, opt_view(a.key))
}

pub open spec fn check_views(v: Seq<AccountToCheck>) -> Seq<(Seq<char>, Seq<char>, Option<Seq<char>>)> {
    v.map_values(|a: AccountToCheck| check_view(a))
}

/// Configured accounts with their keys: the label defaults to the id.
pub open spec fn configured_rows(accounts: Seq<(AccountConfig, Option<String>)>) -> Seq<
    (Seq<char>, Seq<char>, Option<Seq<char>>),
> {
    accounts.map_values(
        |a: (AccountConfig, Option<String>)|
            (
                a.0.id@,
                match a.0.label {
                    Some(l) => l@,
                    None => a.0.id@,
                },
                opt_view(a.1),
            ),
    )
}

/// Some row is the root account (`default` or `openrouter`).
pub open spec fn has_root(rows: Seq<(Seq<char>, Seq<char>, Option<Seq<char>>)>) -> bool {
    exists|i: int| 0 <= i < rows.len() && (rows[i].0 == "default"@ || rows[i].0 == "openrouter"@)
}

/// The root row added when no configured account is the root: the
/// `openrouter` credential's key, else `OPENROUTER_API_KEY` when not blank
/// (as it is, untrimmed).
pub open spec fn root_rows(
    rows: Seq<(Seq<char>, Seq<char>, Option<Seq<char>>)>,
    auth: Seq<Credential>,
    root_env: Option<Seq<char>>,
) -> Seq<(Seq<char>, Seq<char>, Option<Seq<char>>)> {
    let key = if spec_auth_key(auth, "openrouter"@) is Some {
        spec_auth_key(auth, "openrouter"@)
    } else {
        match root_env {
            Some(v) => if trim(v).len() > 0 {
                Some(v)
            } else {
                None
            },
            None => None,
        }
    };
    if !has_root(rows) && key is Some {
        seq![("openrouter"@, "OpenRouter"@, key)]
    } else {
        Seq::empty()
    }
}

/// Some row has this id.
pub open spec fn listed(rows: Seq<(Seq<char>, Seq<char>, Option<Seq<char>>)>, id: Seq<char>) -> bool {
    exists|i: int| 0 <= i < rows.len() && rows[i].0 == id
}

/// Credentials stored as `openrouter-<slug>` whose slug is not listed yet
/// join with their key, in the order they are stored.
pub open spec fn slug_rows(
    rows: Seq<(Seq<char>, Seq<char>, Option<Seq<char>>)>,
    auth: Seq<Credential>,
) -> Seq<(Seq<char>, Seq<char>, Option<Seq<char>>)>
    decreases auth.len(),
{
    if auth.len() == 0 {
        rows
    } else {
        let before = slug_rows(rows, auth.drop_last());
        let c = auth.last();
        let slug = c.provider@.skip(11);
        if starts_with(c.provider@, "openrouter-"@) && !listed(before, slug)
            && spec_credential_key(c) is Some {
            before.push((slug, slug, spec_credential_key(c)))
        } else {
            before
        }
    }
}

/// The accounts whose credits are asked for: the configured ones, the root
/// account when none of them is it, then the stored `openrouter-*` ones.
pub open spec fn spec_accounts_to_check(
    accounts: Seq<(AccountConfig, Option<String>)>,
    auth: Seq<Credential>,
    root_env: Option<Seq<char>>,
) -> Seq<(Seq<char>, Seq<char>, Option<Seq<char>>)> {
    let rows = configured_rows(accounts);
    slug_rows(rows + root_rows(rows, auth, root_env), auth)
}

fn trimmed_nonblank_exec(s: &str) -> (r: Option<String>)
    ensures
        opt_view(r) == trimmed_nonblank(s@),
{
    let t = crate::text::trim_chars(chars_of(s).as_slice());
    if t.len() > 0 {
        Some(crate::text::string_of(t.as_slice()))
    } else {
        None
    }
}

fn is_blank(s: &str) -> (r: bool)
    ensures
        r == (trim(s@).len() == 0),
{
    crate::text::trim_chars(chars_of(s).as_slice()).len() == 0
}

fn copy_opt(o: &Option<String>) -> (r: Option<String>)
    ensures
        opt_view(r) == opt_view(*o),
{
    match o {
        Some(s) => Some(crate::text::to_string(s.as_str())),
        None => None,
    }
}

/// The key of a credential (see [`spec_credential_key`]).
pub fn credential_key(c: &Credential) -> (r: Option<String>)
    ensures
        opt_view(r) == spec_credential_key(*c),
{
    match &c.key {
        Some(k) => trimmed_nonblank_exec(k.as_str()),
        None => match &c.access {
            Some(a) => trimmed_nonblank_exec(a.as_str()),
            None => None,
        },
    }
}

proof fn lemma_first_credential_skip(auth: Seq<Credential>, provider: Seq<char>, i: int)
    requires
        0 <= i < auth.len(),
        auth[i].provider@ != provider,
    ensures
        first_credential(auth.skip(i), provider) == first_credential(auth.skip(i + 1), provider),
{
    let t = auth.skip(i);
    assert(t[0] == auth[i]);
    assert(t.skip(1) =~= auth.skip(i + 1));
}

/// The key stored for `provider` (see [`spec_auth_key`]).
pub fn auth_key(auth: &[Credential], provider: &str) -> (r: Option<String>)
    ensures
        opt_view(r) == spec_auth_key(auth@, provider@),
{
    let p = chars_of(provider);
    let mut i: usize = 0;
    assert(auth@.skip(0) =~= auth@);
    while i < auth.len()
        invariant
            0 <= i <= auth@.len(),
            p@ == provider@,
            first_credential(auth@.skip(i as int), provider@) == first_credential(auth@, provider@),
        decreases auth.len() - i,
    {
        if chars_eq(chars_of(auth[i].provider.as_str()).as_slice(), p.as_slice()) {
            assert(auth@.skip(i as int)[0] == auth@[i as int]);
            return credential_key(&auth[i]);
        }
        proof {
            lemma_first_credential_skip(auth@, provider@, i as int);
        }
        i = i + 1;
    }
    assert(auth@.skip(i as int) =~= Seq::<Credential>::empty());
    None
}

/// The key an `apiKey` source yields (see [`spec_key_from_source`]); the
/// caller reads the variable or runs the command the source names.
pub fn key_from_source(source: &KeySource, env_value: Option<String>, command_output: Option<String>) -> (r:
    Option<String>)
    ensures
        opt_view(r) == spec_key_from_source(key_source_view(*source), opt_view(env_value), opt_view(command_output)),
{
    match source {
        KeySource::Missing => None,
        KeySource::Env(_) => match env_value {
            Some(v) => if is_blank(v.as_str()) {
                None
            } else {
                Some(v)
            },
            None => None,
        },
        KeySource::Command(_) => match command_output {
            Some(o) => trimmed_nonblank_exec(o.as_str()),
            None => None,
        },
        KeySource::Literal(l) => Some(crate::text::to_string(l.as_str())),
    }
}

/// The key of an account (see [`spec_account_key`]). `source_key` is what
/// its `apiKey` source yielded; it is only consulted when no credential is
/// stored for the provider, so a caller may skip running the source then.
pub fn resolve_account_key(
    account_id: &str,
    provider_id: &str,
    auth: &[Credential],
    source_key: Option<String>,
    account_env: Option<String>,
    root_env: Option<String>,
) -> (r: Option<String>)
    ensures
        opt_view(r) == spec_account_key(
            account_id@,
            provider_id@,
            auth@,
            opt_view(source_key),
            opt_view(account_env),
            opt_view(root_env),
        ),
{
    let stored = auth_key(auth, provider_id);
    if stored.is_some() {
        return stored;
    }
    if source_key.is_some() {
        return source_key;
    }
    match &account_env {
        Some(v) => {
            let t = trimmed_nonblank_exec(v.as_str());
            if t.is_some() {
                return t;
            }
        },
        None => {},
    }
    let is_root = chars_eq(chars_of(account_id).as_slice(), chars_of("default").as_slice())
        || chars_eq(chars_of(provider_id).as_slice(), chars_of("openrouter").as_slice());
    if is_root {
        let root = auth_key(auth, "openrouter");
        if root.is_some() {
            return root;
        }
        match &root_env {
            Some(v) => trimmed_nonblank_exec(v.as_str()),
            None => None,
        }
    } else {
        None
    }
}

fn row_of(id: &str, label: &str, key: &Option<String>) -> (r: AccountToCheck)
    ensures
        check_view(r) == (id@, label@, opt_view(*key)),
{
    AccountToCheck {
        id: crate::text::to_string(id),
        label: crate::text::to_string(label),
        key: copy_opt(key),
    }
}

fn is_listed(rows: &Vec<AccountToCheck>, id: &[char]) -> (r: bool)
    ensures
        r == listed(check_views(rows@), id@),
{
    let ghost v = check_views(rows@);
    let mut i: usize = 0;
    while i < rows.len()
        invariant
            0 <= i <= rows@.len(),
            v == check_views(rows@),
            forall|j: int| 0 <= j < i ==> v[j].0 != id@,
        decreases rows.len() - i,
    {
        if chars_eq(chars_of(rows[i].id.as_str()).as_slice(), id) {
            assert(v[i as int].0 == id@);
            return true;
        }
        i = i + 1;
    }
    false
}

fn push_row(out: &mut Vec<AccountToCheck>, r: AccountToCheck)
    ensures
        check_views(final(out)@) == check_views(old(out)@).push(check_view(r)),
{
    let ghost before = check_views(out@);
    out.push(r);
    assert(check_views(out@) =~= before.push(check_view(r)));
}

/// The accounts whose credits are asked for (see
/// [`spec_accounts_to_check`]): `accounts` are the configured ones with
/// the keys resolved for them, `auth` the stored credentials in the order
/// they are walked, `root_env` the value of `OPENROUTER_API_KEY`.
#[verifier::rlimit(40)]
pub fn accounts_to_check(
    accounts: &[(AccountConfig, Option<String>)],
    auth: &[Credential],
    root_env: Option<String>,
) -> (r: Vec<AccountToCheck>)
    ensures
        check_views(r@) == spec_accounts_to_check(accounts@, auth@, opt_view(root_env)),
{
    let ghost cr = configured_rows(accounts@);
    let mut out: Vec<AccountToCheck> = Vec::new();
    let mut root_found = false;
    let mut i: usize = 0;
    while i < accounts.len()
        invariant
            0 <= i <= accounts@.len(),
            cr == configured_rows(accounts@),
            check_views(out@) == cr.take(i as int),
            root_found == has_root(cr.take(i as int)),
        decreases accounts.len() - i,
    {
        let a = &accounts[i].0;
        let label: &str = match &a.label {
            Some(l) => l.as_str(),
            None => a.id.as_str(),
        };
        let ghost before = cr.take(i as int);
        push_row(&mut out, row_of(a.id.as_str(), label, &accounts[i].1));
        let is_root = chars_eq(chars_of(a.id.as_str()).as_slice(), chars_of("default").as_slice())
            || chars_eq(chars_of(a.id.as_str()).as_slice(), chars_of("openrouter").as_slice());
        assert(cr.take(i + 1) =~= before.push(cr[i as int]));
        proof {
            let now = cr.take(i + 1);
            if has_root(before) {
                let w = choose|w: int| 0 <= w < before.len() && (before[w].0 == "default"@ || before[w].0 == "openrouter"@);
                assert(now[w] == before[w]);
            }
            if is_root {
                assert(now[i as int] == cr[i as int]);
            }
            if has_root(now) {
                let w = choose|w: int| 0 <= w < now.len() && (now[w].0 == "default"@ || now[w].0 == "openrouter"@);
                if w < i {
                    assert(before[w] == now[w]);
                }
            }
        }
        root_found = root_found || is_root;
        i = i + 1;
    }
    assert(cr.take(i as int) =~= cr);
    let ghost rows = cr;
    if !root_found {
        let stored = auth_key(auth, "openrouter");
        let key: Option<String> = if stored.is_some() {
            stored
        } else {
            match root_env {
                Some(v) => if is_blank(v.as_str()) {
                    None
                } else {
                    Some(v)
                },
                None => None,
            }
        };
        if key.is_some() {
            push_row(&mut out, row_of("openrouter", "OpenRouter", &key));
        }
    }
    let ghost base = check_views(out@);
    assert(base =~= rows + root_rows(rows, auth@, opt_view(root_env)));
    let mut k: usize = 0;
    while k < auth.len()
        invariant
            0 <= k <= auth@.len(),
            check_views(out@) == slug_rows(base, auth@.take(k as int)),
        decreases auth.len() - k,
    {
        let c = &auth[k];
        assert(auth@.take(k + 1).drop_last() =~= auth@.take(k as int));
        assert(auth@.take(k + 1).last() == auth@[k as int]);
        let pv = chars_of(c.provider.as_str());
        if crate::text::starts_with_chars(pv.as_slice(), chars_of("openrouter-").as_slice()) {
            proof {
                reveal_strlit("openrouter-");
            }
            let slug = crate::text::slice_chars(pv.as_slice(), 11, pv.len());
            assert(slug@ =~= c.provider@.skip(11));
            if !is_listed(&out, slug.as_slice()) {
                let key = credential_key(c);
                if key.is_some() {
                    let s = crate::text::string_of(slug.as_slice());
                    push_row(&mut out, row_of(s.as_str(), s.as_str(), &key));
                }
            }
        }
        k = k + 1;
    }
    assert(auth@.take(k as int) =~= auth@);
    out
}

} // verus!

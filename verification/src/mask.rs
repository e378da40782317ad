//! Redaction of secret material in `action_config` on the way out, and
//! restoration of it on the way back in.
//!
//! `action_config` holds two kinds of credential: the base64 AES-256 keys under
//! `secrets` (see [`crate::secrets`]) and the inline OAuth or bearer material
//! under `auth`. [`mask_action_config`] replaces the protected string leaves by
//! [`MASK`]; [`unmask_merge`] walks an incoming config and restores the stored
//! value wherever it finds that sentinel. So a config can be read, edited and
//! written back whole without losing the keys that were never shown:
//! [`lemma_round_trip`] and [`lemma_edit_round_trip`].

use vstd::prelude::*;
use vstd::string::*;

use crate::json::{key_index, lemma_key_index, lemma_key_index_is, lemma_ordered_key_index};
use crate::json::{find_key, member, slot_from, well_formed, with_member};
use crate::text::{cat2, cat3, concat_texts, concatenated, decimal, ends_with, print_u64, same, texts};
use crate::value::{items, members, opt_json, Json, Value};

verus! {

broadcast use crate::value::group_value_views;

/// Sentinel written in place of a redacted value.
pub const MASK: &'static str = "***";

/// Keys under `auth` whose values are not secret and stay readable: endpoint
/// and flow metadata, the pair that points into the keyring, and `*_env`, which
/// names an environment variable. Every other key is redacted.
pub open spec fn auth_visible(key: Seq<char>) -> bool {
    ||| key == "type"@
    ||| key == "auth_url"@
    ||| key == "token_url"@
    ||| key == "redirect_uri"@
    ||| key == "scope"@
    ||| key == "keyring_service"@
    ||| key == "keyring_account"@
    ||| "_env"@.is_suffix_of(key)
}

pub fn auth_key_is_visible(key: &str) -> (r: bool)
    ensures
        r == auth_visible(key@),
{
    same(key, "type") || same(key, "auth_url") || same(key, "token_url") || same(key, "redirect_uri")
        || same(key, "scope") || same(key, "keyring_service") || same(key, "keyring_account")
        || ends_with(key, "_env")
}

/// A value with every string in it redacted.
pub open spec fn masked_strings(v: Json) -> Json
    decreases v,
{
    match v {
        Json::Str(_) => Json::Str(MASK@),
        Json::Array(s) => Json::Array(
            Seq::new(
                s.len(),
                |i: int|
                    if 0 <= i < s.len() {
                        masked_strings(s[i])
                    } else {
                        Json::Null
                    },
            ),
        ),
        Json::Object(m) => Json::Object(
            Seq::new(
                m.len(),
                |i: int|
                    if 0 <= i < m.len() {
                        (m[i].0, masked_strings(m[i].1))
                    } else {
                        (Seq::empty(), Json::Null)
                    },
            ),
        ),
        _ => v,
    }
}

/// An `auth` block with its credentials redacted: every string in it but those
/// under a visible key, where everything stays as it is.
pub open spec fn masked_auth(v: Json) -> Json
    decreases v,
{
    match v {
        Json::Str(_) => Json::Str(MASK@),
        Json::Array(s) => Json::Array(
            Seq::new(
                s.len(),
                |i: int|
                    if 0 <= i < s.len() {
                        masked_auth(s[i])
                    } else {
                        Json::Null
                    },
            ),
        ),
        Json::Object(m) => Json::Object(
            Seq::new(
                m.len(),
                |i: int|
                    if 0 <= i < m.len() {
                        (
                            m[i].0,
                            if auth_visible(m[i].0) {
                                m[i].1
                            } else {
                                masked_auth(m[i].1)
                            },
                        )
                    } else {
                        (Seq::empty(), Json::Null)
                    },
            ),
        ),
        _ => v,
    }
}

/// The members of a config with `secrets` and `auth` redacted.
pub open spec fn masked_members(m: Seq<(Seq<char>, Json)>) -> Seq<(Seq<char>, Json)> {
    Seq::new(
        m.len(),
        |i: int|
            (
                m[i].0,
                if i == key_index(m, "secrets"@) {
                    masked_strings(m[i].1)
                } else if i == key_index(m, "auth"@) {
                    masked_auth(m[i].1)
                } else {
                    m[i].1
                },
            ),
    )
}

/// A config redacted for outbound reads.
pub open spec fn masked_config(v: Json) -> Json {
    match v {
        Json::Object(m) => Json::Object(masked_members(m)),
        _ => v,
    }
}

fn mask_all_strings(v: &Value) -> (r: Value)
    ensures
        r@ == masked_strings(v@),
    decreases v,
{
    match v {
        Value::Str(_) => Value::text(MASK),
        Value::Array(s) => {
            let mut out: Vec<Value> = Vec::new();
            let mut i: usize = 0;
            while i < s.len()
                invariant
                    i <= s.len(),
                    out.len() == i,
                    v == Value::Array(*s),
                    forall|j: int| 0 <= j < i ==> (#[trigger] out@[j])@ == masked_strings(s@[j]@),
                decreases s.len() - i,
            {
                assert(decreases_to!(v => v->Array_0));
                assert(decreases_to!(s => s@));
                assert(decreases_to!(s@ => s@[i as int]));
                let x = mask_all_strings(&s[i]);
                out.push(x);
                i += 1;
            }
            proof {
                match masked_strings(v@) {
                    Json::Array(t) => {
                        assert(items(out@) =~= t);
                    },
                    _ => {},
                }
            }
            Value::Array(out)
        },
        Value::Object(m) => {
            let mut out: Vec<(String, Value)> = Vec::new();
            let mut i: usize = 0;
            while i < m.len()
                invariant
                    i <= m.len(),
                    out.len() == i,
                    v == Value::Object(*m),
                    forall|j: int|
                        0 <= j < i ==> (#[trigger] out@[j]).0@ == m@[j].0@ && out@[j].1@
                            == masked_strings(m@[j].1@),
                decreases m.len() - i,
            {
                assert(decreases_to!(v => v->Object_0));
                assert(decreases_to!(m => m@));
                assert(decreases_to!(m@ => m@[i as int]));
                assert(decreases_to!(m@[i as int] => m@[i as int].1));
                let x = mask_all_strings(&m[i].1);
                out.push((m[i].0.clone(), x));
                i += 1;
            }
            proof {
                match masked_strings(v@) {
                    Json::Object(t) => {
                        assert(members(out@) =~= t);
                    },
                    _ => {},
                }
            }
            Value::Object(out)
        },
        _ => v.clone(),
    }
}

fn mask_auth(v: &Value) -> (r: Value)
    ensures
        r@ == masked_auth(v@),
    decreases v,
{
    match v {
        Value::Str(_) => Value::text(MASK),
        Value::Array(s) => {
            let mut out: Vec<Value> = Vec::new();
            let mut i: usize = 0;
            while i < s.len()
                invariant
                    i <= s.len(),
                    out.len() == i,
                    v == Value::Array(*s),
                    forall|j: int| 0 <= j < i ==> (#[trigger] out@[j])@ == masked_auth(s@[j]@),
                decreases s.len() - i,
            {
                assert(decreases_to!(v => v->Array_0));
                assert(decreases_to!(s => s@));
                assert(decreases_to!(s@ => s@[i as int]));
                let x = mask_auth(&s[i]);
                out.push(x);
                i += 1;
            }
            proof {
                match masked_auth(v@) {
                    Json::Array(t) => {
                        assert(items(out@) =~= t);
                    },
                    _ => {},
                }
            }
            Value::Array(out)
        },
        Value::Object(m) => {
            let mut out: Vec<(String, Value)> = Vec::new();
            let mut i: usize = 0;
            while i < m.len()
                invariant
                    i <= m.len(),
                    out.len() == i,
                    v == Value::Object(*m),
                    forall|j: int|
                        0 <= j < i ==> (#[trigger] out@[j]).0@ == m@[j].0@ && out@[j].1@ == (
                        if auth_visible(m@[j].0@) {
                            m@[j].1@
                        } else {
                            masked_auth(m@[j].1@)
                        }),
                decreases m.len() - i,
            {
                assert(decreases_to!(v => v->Object_0));
                assert(decreases_to!(m => m@));
                assert(decreases_to!(m@ => m@[i as int]));
                assert(decreases_to!(m@[i as int] => m@[i as int].1));
                let x = if auth_key_is_visible(m[i].0.as_str()) {
                    m[i].1.clone()
                } else {
                    mask_auth(&m[i].1)
                };
                out.push((m[i].0.clone(), x));
                i += 1;
            }
            proof {
                match masked_auth(v@) {
                    Json::Object(t) => {
                        assert(members(out@) =~= t);
                    },
                    _ => {},
                }
            }
            Value::Object(out)
        },
        _ => v.clone(),
    }
}

/// Redact secret material in an `action_config` for outbound reads: every
/// string under `secrets`, and every string under `auth` but those under a
/// visible key. Anything else is left alone.
pub fn mask_action_config(cfg: &mut Value)
    ensures
        final(cfg)@ == masked_config(old(cfg)@),
{
    let ghost before = cfg@;
    let masked: Option<Value> = match &*cfg {
        Value::Object(m) => {
            let s = find_key(m, "secrets");
            let a = find_key(m, "auth");
            let mut out: Vec<(String, Value)> = Vec::new();
            let mut i: usize = 0;
            while i < m.len()
                invariant
                    i <= m.len(),
                    out.len() == i,
                    s == key_index(members(m@), "secrets"@),
                    a == key_index(members(m@), "auth"@),
                    forall|j: int|
                        0 <= j < i ==> (#[trigger] out@[j]).0@ == m@[j].0@ && out@[j].1@
                            == masked_members(members(m@))[j].1,
                decreases m.len() - i,
            {
                let x = if i == s {
                    mask_all_strings(&m[i].1)
                } else if i == a {
                    mask_auth(&m[i].1)
                } else {
                    m[i].1.clone()
                };
                out.push((m[i].0.clone(), x));
                i += 1;
            }
            assert(members(out@) =~= masked_members(members(m@)));
            Some(Value::Object(out))
        },
        _ => None,
    };
    if let Some(v) = masked {
        *cfg = v;
    }
}

/// [`mask_action_config`] on the optional config that an action carries.
pub fn mask_action_config_opt(cfg: &mut Option<Value>)
    ensures
        match *old(cfg) {
            Some(v) => *final(cfg) is Some && (*final(cfg))->0@ == masked_config(v@),
            None => *final(cfg) is None,
        },
{
    match cfg.take() {
        Some(v) => {
            let mut v = v;
            mask_action_config(&mut v);
            *cfg = Some(v);
        },
        None => {},
    }
}

/// The refusal of a sentinel at `path` that has nothing to restore.
pub open spec fn nothing_to_restore(path: Seq<char>) -> Seq<char> {
    "action_config"@ + path
        + " is \"***\" but there is no stored value to restore; reads are redacted, so set this field explicitly"@
}

/// `incoming` with every sentinel in it replaced by what is stored at the same
/// place; refused at the first sentinel where nothing is stored.
pub open spec fn unmasked(incoming: Json, existing: Option<Json>, path: Seq<char>) -> Result<
    Json,
    Seq<char>,
>
    decreases incoming, 0nat,
{
    match incoming {
        Json::Str(s) => if s == MASK@ {
            match existing {
                Some(e) => Ok(e),
                None => Err(nothing_to_restore(path)),
            }
        } else {
            Ok(incoming)
        },
        Json::Array(s) => match unmasked_items(s, existing, path, s.len()) {
            Ok(t) => Ok(Json::Array(t)),
            Err(e) => Err(e),
        },
        Json::Object(m) => match unmasked_members(m, existing, path, m.len()) {
            Ok(t) => Ok(Json::Object(t)),
            Err(e) => Err(e),
        },
        _ => Ok(incoming),
    }
}

pub open spec fn stored_member(existing: Option<Json>, key: Seq<char>) -> Option<Json> {
    match existing {
        Some(e) => e.get(key),
        None => None,
    }
}

pub open spec fn stored_item(existing: Option<Json>, i: int) -> Option<Json> {
    match existing {
        Some(e) => e.at(i),
        None => None,
    }
}

/// The first `n` items, each merged with the item stored at its position.
pub open spec fn unmasked_items(
    s: Seq<Json>,
    existing: Option<Json>,
    path: Seq<char>,
    n: nat,
) -> Result<Seq<Json>, Seq<char>>
    decreases s, n,
{
    if n == 0 || n > s.len() {
        Ok(Seq::empty())
    } else {
        match unmasked_items(s, existing, path, (n - 1) as nat) {
            Err(e) => Err(e),
            Ok(t) => match unmasked(
                s[n - 1],
                stored_item(existing, n - 1),
                path + ("["@ + decimal((n - 1) as nat) + "]"@),
            ) {
                Err(e) => Err(e),
                Ok(v) => Ok(t.push(v)),
            },
        }
    }
}

/// The first `n` members, each merged with the member stored under its key.
pub open spec fn unmasked_members(
    m: Seq<(Seq<char>, Json)>,
    existing: Option<Json>,
    path: Seq<char>,
    n: nat,
) -> Result<Seq<(Seq<char>, Json)>, Seq<char>>
    decreases m, n,
{
    if n == 0 || n > m.len() {
        Ok(Seq::empty())
    } else {
        match unmasked_members(m, existing, path, (n - 1) as nat) {
            Err(e) => Err(e),
            Ok(t) => match unmasked(
                m[n - 1].1,
                stored_member(existing, m[n - 1].0),
                path + ("."@ + m[n - 1].0),
            ) {
                Err(e) => Err(e),
                Ok(v) => Ok(t.push((m[n - 1].0, v))),
            },
        }
    }
}

pub open spec fn result_json(r: Result<Value, String>) -> Result<Json, Seq<char>> {
    match r {
        Ok(v) => Ok(v@),
        Err(e) => Err(e@),
    }
}

/// Merge an incoming `action_config` over the stored one, restoring any value
/// that was echoed back as [`MASK`]. Only the sentinel is special: every other
/// leaf replaces the stored value, and a key left out is removed. A sentinel at
/// a path with no stored value is refused.
pub fn unmask_merge(incoming: Value, existing: Option<&Value>) -> (r: Result<Value, String>)
    ensures
        result_json(r) == unmasked(incoming@, opt_json(existing), Seq::empty()),
{
    let mut path: Vec<String> = Vec::new();
    assert(concatenated(texts(path@)) =~= Seq::<char>::empty());
    walk(&incoming, existing, &mut path)
}

proof fn lemma_concat_push(path: Seq<String>, p: String)
    ensures
        concatenated(texts(path.push(p))) == concatenated(texts(path)) + p@,
{
    assert(texts(path.push(p)).drop_last() =~= texts(path));
}

fn walk(incoming: &Value, existing: Option<&Value>, path: &mut Vec<String>) -> (r: Result<
    Value,
    String,
>)
    ensures
        final(path)@ == old(path)@,
        result_json(r) == unmasked(incoming@, opt_json(existing), concatenated(texts(old(path)@))),
    decreases incoming,
{
    let ghost at = concatenated(texts(path@));
    match incoming {
        Value::Str(s) => if same(s.as_str(), MASK) {
            match existing {
                Some(e) => Ok(e.clone()),
                None => {
                    let p = render_path(path);
                    Err(
                        cat3(
                            "action_config",
                            p.as_str(),
                            " is \"***\" but there is no stored value to restore; reads are redacted, so set this field explicitly",
                        ),
                    )
                },
            }
        } else {
            Ok(incoming.clone())
        },
        Value::Object(m) => {
            let mut out: Vec<(String, Value)> = Vec::new();
            let mut i: usize = 0;
            assert(members(out@) =~= Seq::<(Seq<char>, Json)>::empty());
            while i < m.len()
                invariant
                    i <= m.len(),
                    incoming == Value::Object(*m),
                    path@ == old(path)@,
                    at == concatenated(texts(path@)),
                    unmasked_members(members(m@), opt_json(existing), at, i as nat) == Ok::<
                        _,
                        Seq<char>,
                    >(members(out@)),
                decreases m.len() - i,
            {
                assert(decreases_to!(incoming => incoming->Object_0));
                assert(decreases_to!(m => m@));
                assert(decreases_to!(m@ => m@[i as int]));
                assert(decreases_to!(m@[i as int] => m@[i as int].1));
                let key = m[i].0.as_str();
                let nested = match existing {
                    Some(e) => e.get(key),
                    None => None,
                };
                let step = cat2(".", key);
                proof {
                    lemma_concat_push(path@, step);
                }
                path.push(step);
                let merged = walk(&m[i].1, nested, path);
                path.pop();
                assert(path@ =~= old(path)@);
                proof {
                    lemma_members_fail(members(m@), opt_json(existing), at, (i + 1) as nat);
                }
                match merged {
                    Ok(v) => {
                        let ghost before = members(out@);
                        let ghost val = v@;
                        out.push((m[i].0.clone(), v));
                        assert(members(out@) =~= before.push((m@[i as int].0@, val)));
                    },
                    Err(e) => {
                        return Err(e);
                    },
                }
                i += 1;
            }
            Ok(Value::Object(out))
        },
        Value::Array(s) => {
            let mut out: Vec<Value> = Vec::new();
            let mut i: usize = 0;
            assert(items(out@) =~= Seq::<Json>::empty());
            while i < s.len()
                invariant
                    i <= s.len(),
                    incoming == Value::Array(*s),
                    path@ == old(path)@,
                    at == concatenated(texts(path@)),
                    unmasked_items(items(s@), opt_json(existing), at, i as nat) == Ok::<
                        _,
                        Seq<char>,
                    >(items(out@)),
                decreases s.len() - i,
            {
                assert(decreases_to!(incoming => incoming->Array_0));
                assert(decreases_to!(s => s@));
                assert(decreases_to!(s@ => s@[i as int]));
                let nested = match existing {
                    Some(e) => e.at(i),
                    None => None,
                };
                let digits = print_u64(i as u64);
                let step = cat3("[", digits.as_str(), "]");
                proof {
                    lemma_concat_push(path@, step);
                }
                path.push(step);
                let merged = walk(&s[i], nested, path);
                path.pop();
                assert(path@ =~= old(path)@);
                proof {
                    lemma_items_fail(items(s@), opt_json(existing), at, (i + 1) as nat);
                }
                match merged {
                    Ok(v) => {
                        let ghost before = items(out@);
                        let ghost val = v@;
                        out.push(v);
                        assert(items(out@) =~= before.push(val));
                    },
                    Err(e) => {
                        return Err(e);
                    },
                }
                i += 1;
            }
            Ok(Value::Array(out))
        },
        _ => Ok(incoming.clone()),
    }
}

pub fn render_path(path: &Vec<String>) -> (r: String)
    ensures
        r@ == concatenated(texts(path@)),
{
    concat_texts(path)
}

proof fn lemma_members_fail(
    m: Seq<(Seq<char>, Json)>,
    existing: Option<Json>,
    path: Seq<char>,
    n: nat,
)
    ensures
        n <= m.len() ==> (unmasked_members(m, existing, path, n) matches Err(e) ==> unmasked_members(
            m,
            existing,
            path,
            m.len(),
        ) == Err::<Seq<(Seq<char>, Json)>, _>(e)),
    decreases m.len() - n,
{
    if n < m.len() {
        lemma_members_fail(m, existing, path, n + 1);
    }
}

proof fn lemma_items_fail(s: Seq<Json>, existing: Option<Json>, path: Seq<char>, n: nat)
    ensures
        n <= s.len() ==> (unmasked_items(s, existing, path, n) matches Err(e) ==> unmasked_items(
            s,
            existing,
            path,
            s.len(),
        ) == Err::<Seq<Json>, _>(e)),
    decreases s.len() - n,
{
    if n < s.len() {
        lemma_items_fail(s, existing, path, n + 1);
    }
}

// ── What masking and unmasking promise together ─────────────────────────────

/// Whether `b` is `a` with some of its strings replaced by the sentinel.
pub open spec fn covers(a: Json, b: Json) -> bool
    decreases a,
{
    ||| (a is Str && b == Json::Str(MASK@))
    ||| match (a, b) {
        (Json::Array(s), Json::Array(t)) => s.len() == t.len() && forall|i: int|
            0 <= i < s.len() ==> covers(#[trigger] s[i], t[i]),
        (Json::Object(m), Json::Object(n)) => m.len() == n.len() && forall|i: int|
            0 <= i < m.len() ==> (#[trigger] m[i]).0 == n[i].0 && covers(m[i].1, n[i].1),
        _ => a == b,
    }
}

proof fn lemma_covers_self(v: Json)
    ensures
        covers(v, v),
    decreases v,
{
    match v {
        Json::Array(s) => {
            assert forall|i: int| 0 <= i < s.len() implies covers(#[trigger] s[i], s[i]) by {
                lemma_covers_self(s[i]);
            }
        },
        Json::Object(m) => {
            assert forall|i: int| 0 <= i < m.len() implies (#[trigger] m[i]).0 == m[i].0 && covers(
                m[i].1,
                m[i].1,
            ) by {
                lemma_covers_self(m[i].1);
            }
        },
        _ => {},
    }
}

proof fn lemma_masked_strings_covers(v: Json)
    ensures
        covers(v, masked_strings(v)),
    decreases v,
{
    match v {
        Json::Array(s) => {
            let t = masked_strings(v)->Array_0;
            assert forall|i: int| 0 <= i < s.len() implies covers(#[trigger] s[i], t[i]) by {
                lemma_masked_strings_covers(s[i]);
            }
        },
        Json::Object(m) => {
            let n = masked_strings(v)->Object_0;
            assert forall|i: int| 0 <= i < m.len() implies (#[trigger] m[i]).0 == n[i].0 && covers(
                m[i].1,
                n[i].1,
            ) by {
                lemma_masked_strings_covers(m[i].1);
            }
        },
        _ => {},
    }
}

proof fn lemma_masked_auth_covers(v: Json)
    ensures
        covers(v, masked_auth(v)),
    decreases v,
{
    match v {
        Json::Array(s) => {
            let t = masked_auth(v)->Array_0;
            assert forall|i: int| 0 <= i < s.len() implies covers(#[trigger] s[i], t[i]) by {
                lemma_masked_auth_covers(s[i]);
            }
        },
        Json::Object(m) => {
            let n = masked_auth(v)->Object_0;
            assert forall|i: int| 0 <= i < m.len() implies (#[trigger] m[i]).0 == n[i].0 && covers(
                m[i].1,
                n[i].1,
            ) by {
                lemma_masked_auth_covers(m[i].1);
                lemma_covers_self(m[i].1);
            }
        },
        _ => {},
    }
}

/// Masking only ever replaces strings by the sentinel.
pub proof fn lemma_masked_config_covers(v: Json)
    ensures
        covers(v, masked_config(v)),
{
    match v {
        Json::Object(m) => {
            let n = masked_members(m);
            assert forall|i: int| 0 <= i < m.len() implies (#[trigger] m[i]).0 == n[i].0 && covers(
                m[i].1,
                n[i].1,
            ) by {
                lemma_masked_strings_covers(m[i].1);
                lemma_masked_auth_covers(m[i].1);
                lemma_covers_self(m[i].1);
            }
            assert(covers(Json::Object(m), Json::Object(n)));
        },
        _ => {
            lemma_covers_self(v);
        },
    }
}

/// Merging a value over the one that it covers restores that one.
pub proof fn lemma_unmask_restores(a: Json, b: Json, path: Seq<char>)
    requires
        well_formed(a),
        covers(a, b),
    ensures
        unmasked(b, Some(a), path) == Ok::<Json, Seq<char>>(a),
    decreases a,
{
    match (a, b) {
        (Json::Array(s), Json::Array(t)) => {
            assert forall|i: int, p: Seq<char>| 0 <= i < s.len() implies #[trigger] unmasked(
                t[i],
                Some(s[i]),
                p,
            ) == Ok::<Json, Seq<char>>(s[i]) by {
                assert(covers(s[i], t[i]));
                lemma_unmask_restores(s[i], t[i], p);
            }
            lemma_items_restored(s, t, path, s.len());
            assert(s.take(s.len() as int) =~= s);
        },
        (Json::Object(m), Json::Object(n)) => {
            assert forall|i: int, p: Seq<char>| 0 <= i < m.len() implies #[trigger] unmasked(
                n[i].1,
                stored_member(Some(a), n[i].0),
                p,
            ) == Ok::<Json, Seq<char>>(m[i].1) by {
                assert(m[i].0 == n[i].0);
                lemma_ordered_key_index(m, i);
                lemma_unmask_restores(m[i].1, n[i].1, p);
            }
            lemma_members_restored(n, Some(a), path, m, m.len());
            assert(m.take(m.len() as int) =~= m);
        },
        _ => {},
    }
}

proof fn lemma_items_restored(s: Seq<Json>, t: Seq<Json>, path: Seq<char>, n: nat)
    requires
        n <= s.len(),
        s.len() == t.len(),
        forall|i: int, p: Seq<char>|
            0 <= i < s.len() ==> #[trigger] unmasked(t[i], Some(s[i]), p) == Ok::<Json, Seq<char>>(
                s[i],
            ),
    ensures
        unmasked_items(t, Some(Json::Array(s)), path, n) == Ok::<Seq<Json>, Seq<char>>(
            s.take(n as int),
        ),
    decreases n,
{
    if n > 0 {
        lemma_items_restored(s, t, path, (n - 1) as nat);
        assert(s.take(n as int) =~= s.take(n - 1).push(s[n - 1]));
        let p = path + ("["@ + decimal((n - 1) as nat) + "]"@);
        assert(unmasked(t[n - 1], Some(s[n - 1]), p) == Ok::<Json, Seq<char>>(s[n - 1]));
    } else {
        assert(s.take(0) =~= Seq::<Json>::empty());
    }
}

proof fn lemma_members_restored(
    m: Seq<(Seq<char>, Json)>,
    existing: Option<Json>,
    path: Seq<char>,
    t: Seq<(Seq<char>, Json)>,
    n: nat,
)
    requires
        n <= m.len(),
        m.len() == t.len(),
        forall|i: int| 0 <= i < m.len() ==> (#[trigger] m[i]).0 == t[i].0,
        forall|i: int, p: Seq<char>|
            0 <= i < m.len() ==> #[trigger] unmasked(m[i].1, stored_member(existing, m[i].0), p)
                == Ok::<Json, Seq<char>>(t[i].1),
    ensures
        unmasked_members(m, existing, path, n) == Ok::<Seq<(Seq<char>, Json)>, Seq<char>>(
            t.take(n as int),
        ),
    decreases n,
{
    if n > 0 {
        lemma_members_restored(m, existing, path, t, (n - 1) as nat);
        assert(m[n - 1].0 == t[n - 1].0);
        assert(t.take(n as int) =~= t.take(n - 1).push(t[n - 1]));
        let p = path + ("."@ + m[n - 1].0);
        assert(unmasked(m[n - 1].1, stored_member(existing, m[n - 1].0), p) == Ok::<Json, Seq<char>>(
            t[n - 1].1,
        ));
    } else {
        assert(t.take(0) =~= Seq::<(Seq<char>, Json)>::empty());
    }
}

/// Writing a redacted config back restores the stored config: nothing that
/// masking hid is lost.
pub proof fn lemma_round_trip(stored: Json)
    requires
        well_formed(stored),
    ensures
        unmasked(masked_config(stored), Some(stored), Seq::empty()) == Ok::<Json, Seq<char>>(
            stored,
        ),
{
    lemma_masked_config_covers(stored);
    lemma_unmask_restores(stored, masked_config(stored), Seq::empty());
}

proof fn lemma_same_keys(m: Seq<(Seq<char>, Json)>, n: Seq<(Seq<char>, Json)>, key: Seq<char>)
    requires
        m.len() == n.len(),
        forall|i: int| 0 <= i < m.len() ==> (#[trigger] m[i]).0 == n[i].0,
    ensures
        key_index(m, key) == key_index(n, key),
        slot_from(m, key, 0) == slot_from(n, key, 0),
{
    lemma_key_index(m, key);
    let i = key_index(m, key);
    assert forall|j: int| 0 <= j < i implies (#[trigger] n[j]).0 != key by {
        assert(m[j].0 == n[j].0);
    }
    if i < m.len() {
        assert(m[i].0 == n[i].0);
    }
    lemma_key_index_is(n, key, i);
    lemma_same_slots(m, n, key, 0);
}

proof fn lemma_same_slots(
    m: Seq<(Seq<char>, Json)>,
    n: Seq<(Seq<char>, Json)>,
    key: Seq<char>,
    i: int,
)
    requires
        0 <= i <= m.len(),
        m.len() == n.len(),
        forall|i: int| 0 <= i < m.len() ==> (#[trigger] m[i]).0 == n[i].0,
    ensures
        slot_from(m, key, i) == slot_from(n, key, i),
        i <= slot_from(m, key, i) <= m.len(),
    decreases m.len() - i,
{
    if i < m.len() {
        assert(m[i].0 == n[i].0);
        lemma_same_slots(m, n, key, i + 1);
    }
}

/// Reading a config, setting one member of what was read and writing the whole
/// back sets that member of the stored config and changes nothing else. What
/// the member ends up as is the given value with its own sentinels restored.
pub proof fn lemma_edit_round_trip(
    m: Seq<(Seq<char>, Json)>,
    key: Seq<char>,
    v: Json,
    merged: Json,
)
    requires
        well_formed(Json::Object(m)),
        forall|p: Seq<char>| #[trigger]
            unmasked(v, member(m, key), p) == Ok::<Json, Seq<char>>(merged),
    ensures
        unmasked(
            Json::Object(with_member(masked_members(m), key, v)),
            Some(Json::Object(m)),
            Seq::empty(),
        ) == Ok::<Json, Seq<char>>(Json::Object(with_member(m, key, merged))),
{
    let n = masked_members(m);
    let stored = Json::Object(m);
    lemma_masked_config_covers(stored);
    assert(forall|i: int| 0 <= i < m.len() ==> (#[trigger] m[i]).0 == n[i].0);
    lemma_same_keys(m, n, key);
    lemma_key_index(m, key);
    let a = with_member(n, key, v);
    let t = with_member(m, key, merged);
    let k = key_index(m, key);
    let s = slot_from(m, key, 0);
    lemma_same_slots(m, n, key, 0);
    assert forall|i: int| 0 <= i < a.len() implies (#[trigger] a[i]).0 == t[i].0 by {
        if k >= m.len() {
            if i < s {
                assert(m[i].0 == n[i].0);
            } else if i > s {
                assert(m[i - 1].0 == n[i - 1].0);
            }
        } else if i != k {
            assert(m[i].0 == n[i].0);
        }
    }
    assert forall|i: int, p: Seq<char>| 0 <= i < a.len() implies #[trigger] unmasked(
        a[i].1,
        stored_member(Some(stored), a[i].0),
        p,
    ) == Ok::<Json, Seq<char>>(t[i].1) by {
        if k < m.len() {
            if i == k {
                assert(unmasked(v, member(m, key), p) == Ok::<Json, Seq<char>>(merged));
            } else {
                assert(m[i].0 == n[i].0);
                lemma_ordered_key_index(m, i);
                assert(well_formed(m[i].1));
                lemma_unmask_restores(m[i].1, n[i].1, p);
            }
        } else {
            if i == s {
                assert(unmasked(v, member(m, key), p) == Ok::<Json, Seq<char>>(merged));
            } else {
                let o = if i < s {
                    i
                } else {
                    i - 1
                };
                assert(m[o].0 == n[o].0);
                lemma_ordered_key_index(m, o);
                assert(well_formed(m[o].1));
                lemma_unmask_restores(m[o].1, n[o].1, p);
            }
        }
    }
    lemma_members_restored(a, Some(stored), Seq::empty(), t, a.len());
    assert(t.take(a.len() as int) =~= t);
}

/// Whether the sentinel stands nowhere in a value.
pub open spec fn free_of_mask(v: Json) -> bool
    decreases v,
{
    match v {
        Json::Str(s) => s != MASK@,
        Json::Array(s) => forall|i: int| 0 <= i < s.len() ==> free_of_mask(#[trigger] s[i]),
        Json::Object(m) => forall|i: int| 0 <= i < m.len() ==> free_of_mask((#[trigger] m[i]).1),
        _ => true,
    }
}

/// Only the sentinel is special: a config without it replaces the stored one
/// as it stands.
pub proof fn lemma_unmask_plain(v: Json, existing: Option<Json>, path: Seq<char>)
    requires
        free_of_mask(v),
    ensures
        unmasked(v, existing, path) == Ok::<Json, Seq<char>>(v),
    decreases v,
{
    match v {
        Json::Array(s) => {
            assert forall|i: int, e: Option<Json>, p: Seq<char>|
                0 <= i < s.len() implies #[trigger] unmasked(s[i], e, p) == Ok::<Json, Seq<char>>(
                s[i],
            ) by {
                assert(free_of_mask(s[i]));
                lemma_unmask_plain(s[i], e, p);
            }
            lemma_items_plain(s, existing, path, s.len());
            assert(s.take(s.len() as int) =~= s);
        },
        Json::Object(m) => {
            assert forall|i: int, p: Seq<char>| 0 <= i < m.len() implies #[trigger] unmasked(
                m[i].1,
                stored_member(existing, m[i].0),
                p,
            ) == Ok::<Json, Seq<char>>(m[i].1) by {
                assert(free_of_mask(m[i].1));
                lemma_unmask_plain(m[i].1, stored_member(existing, m[i].0), p);
            }
            lemma_members_restored(m, existing, path, m, m.len());
            assert(m.take(m.len() as int) =~= m);
        },
        _ => {},
    }
}

proof fn lemma_items_plain(s: Seq<Json>, existing: Option<Json>, path: Seq<char>, n: nat)
    requires
        n <= s.len(),
        forall|i: int, e: Option<Json>, p: Seq<char>|
            0 <= i < s.len() ==> #[trigger] unmasked(s[i], e, p) == Ok::<Json, Seq<char>>(s[i]),
    ensures
        unmasked_items(s, existing, path, n) == Ok::<Seq<Json>, Seq<char>>(s.take(n as int)),
    decreases n,
{
    if n > 0 {
        lemma_items_plain(s, existing, path, (n - 1) as nat);
        assert(s.take(n as int) =~= s.take(n - 1).push(s[n - 1]));
        let p = path + ("["@ + decimal((n - 1) as nat) + "]"@);
        assert(unmasked(s[n - 1], stored_item(existing, n - 1), p) == Ok::<Json, Seq<char>>(s[n - 1]));
    } else {
        assert(s.take(0) =~= Seq::<Json>::empty());
    }
}

/// Whether every string in a value is the sentinel.
pub open spec fn only_mask(v: Json) -> bool
    decreases v,
{
    match v {
        Json::Str(s) => s == MASK@,
        Json::Array(s) => forall|i: int| 0 <= i < s.len() ==> only_mask(#[trigger] s[i]),
        Json::Object(m) => forall|i: int| 0 <= i < m.len() ==> only_mask((#[trigger] m[i]).1),
        _ => true,
    }
}

proof fn lemma_masked_strings_only_mask(v: Json)
    ensures
        only_mask(masked_strings(v)),
    decreases v,
{
    match v {
        Json::Array(s) => {
            let t = masked_strings(v)->Array_0;
            assert forall|i: int| 0 <= i < t.len() implies only_mask(#[trigger] t[i]) by {
                lemma_masked_strings_only_mask(s[i]);
            }
        },
        Json::Object(m) => {
            let n = masked_strings(v)->Object_0;
            assert forall|i: int| 0 <= i < n.len() implies only_mask((#[trigger] n[i]).1) by {
                lemma_masked_strings_only_mask(m[i].1);
            }
        },
        _ => {},
    }
}

/// Whether each string of an `auth` block is the sentinel or stands under a
/// visible key.
pub open spec fn auth_hidden(v: Json) -> bool
    decreases v,
{
    match v {
        Json::Str(s) => s == MASK@,
        Json::Array(s) => forall|i: int| 0 <= i < s.len() ==> auth_hidden(#[trigger] s[i]),
        Json::Object(m) => forall|i: int|
            0 <= i < m.len() ==> auth_visible((#[trigger] m[i]).0) || auth_hidden(m[i].1),
        _ => true,
    }
}

proof fn lemma_masked_auth_hidden(v: Json)
    ensures
        auth_hidden(masked_auth(v)),
    decreases v,
{
    match v {
        Json::Array(s) => {
            let t = masked_auth(v)->Array_0;
            assert forall|i: int| 0 <= i < t.len() implies auth_hidden(#[trigger] t[i]) by {
                lemma_masked_auth_hidden(s[i]);
            }
        },
        Json::Object(m) => {
            let n = masked_auth(v)->Object_0;
            assert forall|i: int| 0 <= i < n.len() implies auth_visible((#[trigger] n[i]).0)
                || auth_hidden(n[i].1) by {
                lemma_masked_auth_hidden(m[i].1);
            }
        },
        _ => {},
    }
}

/// What a redacted config shows: under `secrets` no string but the sentinel,
/// under `auth` no credential, and every other member as it is stored.
pub proof fn lemma_masked_config_shows(v: Json, key: Seq<char>)
    ensures
        key == "secrets"@ ==> (masked_config(v).get(key) matches Some(s) ==> only_mask(s)),
        key == "auth"@ ==> (masked_config(v).get(key) matches Some(a) ==> auth_hidden(a)),
        key != "secrets"@ && key != "auth"@ ==> masked_config(v).get(key) == v.get(key),
        masked_config(v).get(key) is Some == v.get(key) is Some,
{
    reveal_strlit("secrets");
    reveal_strlit("auth");
    match v {
        Json::Object(m) => {
            let n = masked_members(m);
            assert(forall|i: int| 0 <= i < m.len() ==> (#[trigger] m[i]).0 == n[i].0);
            lemma_same_keys(m, n, key);
            lemma_key_index(m, key);
            lemma_key_index(m, "secrets"@);
            lemma_key_index(m, "auth"@);
            let i = key_index(m, key);
            assert("secrets"@.len() != "auth"@.len());
            if i < m.len() {
                lemma_masked_strings_only_mask(m[i].1);
                lemma_masked_auth_hidden(m[i].1);
            }
        },
        _ => {},
    }
}

} // verus!

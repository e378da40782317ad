//! Small generators, and an environment store without namespaces.

use vstd::prelude::*;
use vstd::string::*;

use crate::chance::{between, is_utc_time, is_uuid, new_uuid, now_rfc3339, pick};
use crate::json::{json_int, object_of, pairs_view};
use crate::table::Table;
use crate::text::{cat5, decimal_int, print_i64};
use crate::value::{Json, Value};

verus! {

broadcast use crate::value::group_value_views;

/// An object with one member, a text.
pub open spec fn text_reply(key: Seq<char>, t: Seq<char>) -> Json {
    object_of(seq![(key, Json::Str(t))])
}

/// An object with one member, a number.
pub open spec fn number_reply(key: Seq<char>, n: i64) -> Json {
    object_of(seq![(key, json_int(n))])
}

fn single(key: &'static str, v: Value) -> (r: Value)
    ensures
        r@ == object_of(seq![(key@, v@)]),
{
    let pairs: Vec<(&'static str, Value)> = vec![(key, v)];
    assert(pairs_view(pairs@) =~= seq![(key@, v@)]);
    Value::object(pairs)
}

/// The time that it is, in RFC 3339 and in UTC.
pub fn now_value() -> (r: Value)
    ensures
        exists|t: Seq<char>| is_utc_time(t) && r@ == #[trigger] text_reply("now"@, t),
{
    let t = now_rfc3339();
    let r = single("now", Value::text(t.as_str()));
    assert(r@ == text_reply("now"@, t@));
    r
}

/// A fresh identifier.
pub fn uuid_value() -> (r: Value)
    ensures
        exists|t: Seq<char>|
            is_uuid(t) && r@ == #[trigger] text_reply("uuid"@, t),
{
    let t = new_uuid();
    let r = single("uuid", Value::text(t.as_str()));
    assert(is_uuid(t@) && r@ == text_reply("uuid"@, t@));
    r
}

/// The bounds that a call names.
pub open spec fn bounds_in(params: Json) -> (i64, i64) {
    (
        match params.get_i64("lo"@) {
            Some(n) => n,
            None => 0,
        },
        match params.get_i64("hi"@) {
            Some(n) => n,
            None => i64::MAX,
        },
    )
}

/// Whether this is a number between the bounds that some parameters name.
pub open spec fn is_random_int(r: Result<Value, String>, params: Json) -> bool {
    let (lo, hi) = bounds_in(params);
    if lo > hi {
        r is Err && r->Err_0@ == "random_int: lo ("@ + decimal_int(lo as int)
            + ") must be <= hi ("@ + decimal_int(hi as int) + ")"@
    } else {
        r is Ok && exists|n: i64|
            lo <= n <= hi && r->Ok_0@ == #[trigger] number_reply("value"@, n)
    }
}

/// A number between the bounds that a call names, both of them included.
pub fn random_int_value(params: &Value) -> (r: Result<Value, String>)
    ensures
        is_random_int(r, params@),
{
    let lo: i64 = match params.get_i64("lo") {
        Some(n) => n,
        None => 0,
    };
    let hi: i64 = match params.get_i64("hi") {
        Some(n) => n,
        None => i64::MAX,
    };
    if lo > hi {
        let a = print_i64(lo);
        let b = print_i64(hi);
        return Err(cat5("random_int: lo (", a.as_str(), ") must be <= hi (", b.as_str(), ")"));
    }
    let n = between(lo, hi);
    let r = single("value", Value::sint(n));
    assert(r@ == number_reply("value"@, n));
    Ok(r)
}

/// Whether a character is a letter or a digit of ASCII.
pub open spec fn is_alphanumeric(c: char) -> bool {
    'A' <= c <= 'Z' || 'a' <= c <= 'z' || '0' <= c <= '9'
}

fn alphabet() -> (r: Vec<u8>)
    ensures
        r@.len() == 62,
        forall|i: int| 0 <= i < r@.len() ==> is_alphanumeric(#[trigger] r@[i] as char),
{
    let mut v: Vec<u8> = Vec::new();
    let mut b: u8 = 65;
    while b < 91
        invariant
            65 <= b <= 91,
            v@.len() == b - 65,
            forall|i: int| 0 <= i < v@.len() ==> #[trigger] v@[i] == 65 + i,
        decreases 91 - b,
    {
        v.push(b);
        b += 1;
    }
    let mut b: u8 = 97;
    while b < 123
        invariant
            97 <= b <= 123,
            v@.len() == 26 + (b - 97),
            forall|i: int| 0 <= i < 26 ==> #[trigger] v@[i] == 65 + i,
            forall|i: int| 26 <= i < v@.len() ==> #[trigger] v@[i] == 97 + (i - 26),
        decreases 123 - b,
    {
        v.push(b);
        b += 1;
    }
    let mut b: u8 = 48;
    while b < 58
        invariant
            48 <= b <= 58,
            v@.len() == 52 + (b - 48),
            forall|i: int| 0 <= i < 26 ==> #[trigger] v@[i] == 65 + i,
            forall|i: int| 26 <= i < 52 ==> #[trigger] v@[i] == 97 + (i - 26),
            forall|i: int| 52 <= i < v@.len() ==> #[trigger] v@[i] == 48 + (i - 52),
        decreases 58 - b,
    {
        v.push(b);
        b += 1;
    }
    v
}

/// How long a random text a call asks for.
pub open spec fn length_in(params: Json) -> u64 {
    match params.get_u64("length"@) {
        Some(n) => n,
        None => 16,
    }
}

/// A random text of letters and digits, as long as the call asks for.
pub fn random_string_value(params: &Value) -> (r: Result<Value, String>)
    requires
        length_in(params@) <= isize::MAX,
    ensures
        r is Ok,
        exists|t: Seq<char>|
            t.len() == length_in(params@) && (forall|i: int|
                0 <= i < t.len() ==> is_alphanumeric(#[trigger] t[i])) && r->Ok_0@
                == #[trigger] text_reply("value"@, t),
{
    let length: u64 = match params.get_u64("length") {
        Some(n) => n,
        None => 16,
    };
    let letters = alphabet();
    let mut buf = String::new();
    let mut i: u64 = 0;
    while i < length
        invariant
            i <= length,
            buf@.len() == i,
            letters@.len() == 62,
            forall|k: int| 0 <= k < letters@.len() ==> is_alphanumeric(#[trigger] letters@[k] as char),
            forall|k: int| 0 <= k < buf@.len() ==> is_alphanumeric(#[trigger] buf@[k]),
        decreases length - i,
    {
        if let Some(b) = pick(letters.as_slice()) {
            proof {
                let k = choose|k: int| 0 <= k < letters@.len() && letters@[k] == b;
                assert(is_alphanumeric(letters@[k] as char));
            }
            buf.push(b as char);
            i += 1;
        } else {
            assert(false);
            i += 1;
        }
    }
    let ghost t = buf@;
    let r = single("value", Value::Str(buf));
    assert(r@ == text_reply("value"@, t));
    Ok(r)
}

// ── The environment store without namespaces ─────────────────────────────────

/// What a read of a variable answers.
pub open spec fn value_reply(vars: Map<Seq<char>, String>, key: Seq<char>) -> Json {
    object_of(
        seq![
            (
                "value"@,
                if vars.contains_key(key) {
                    Json::Str(vars[key]@)
                } else {
                    Json::Null
                },
            ),
        ],
    )
}

pub fn get_env(store: &Table<String>, params: &Value) -> (r: Value)
    ensures
        r@ == value_reply(store@, params@.str_or("key"@, ""@)),
{
    let key = params.str_or("key", "");
    match store.get(key) {
        Some(s) => single("value", Value::text(s.as_str())),
        None => single("value", Value::Null),
    }
}

pub fn set_env(store: &mut Table<String>, params: &Value) -> (r: Value)
    ensures
        r@ == object_of(seq![("set"@, Json::Bool(true))]),
        final(store)@.contains_key(params@.str_or("key"@, ""@)),
        final(store)@[params@.str_or("key"@, ""@)]@ == params@.str_or("value"@, ""@),
        final(store)@ == old(store)@.insert(
            params@.str_or("key"@, ""@),
            final(store)@[params@.str_or("key"@, ""@)],
        ),
{
    let key = params.str_or("key", "");
    let value = params.str_or("value", "");
    store.insert(key, value.to_owned());
    single("set", Value::Bool(true))
}

} // verus!

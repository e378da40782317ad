//! The two spellings of a parameter. The built-in operations read some
//! parameters in snake case and some in camel case; a caller may use either.

use vstd::prelude::*;
use vstd::string::*;

use crate::json::{find_key, lemma_member_of_with_member, member, set_member, with_member};
use crate::text::chars_of;
use crate::value::{members, Json, Value};

verus! {

broadcast use crate::value::group_value_views;

pub open spec fn is_upper(c: char) -> bool {
    'A' <= c <= 'Z'
}

pub open spec fn is_lower(c: char) -> bool {
    'a' <= c <= 'z'
}

pub open spec fn to_lower_char(c: char) -> char {
    ((c as u32) + 32) as char
}

pub open spec fn to_upper_char(c: char) -> char {
    ((c as u32) - 32) as char
}

/// A name in snake case: an underscore before each capital, which becomes small.
pub open spec fn snake(s: Seq<char>) -> Seq<char>
    decreases s.len(),
{
    if s.len() == 0 {
        Seq::empty()
    } else {
        let before = snake(s.drop_last());
        if is_upper(s.last()) {
            before.push('_').push(to_lower_char(s.last()))
        } else {
            before.push(s.last())
        }
    }
}

/// A name in camel case from a place on: an underscore before a small letter is
/// dropped and the letter becomes a capital.
pub open spec fn camel_from(s: Seq<char>, i: int) -> Seq<char>
    decreases s.len() - i,
{
    if i < 0 || i >= s.len() {
        Seq::empty()
    } else if s[i] == '_' && i + 1 < s.len() && is_lower(s[i + 1]) {
        seq![to_upper_char(s[i + 1])] + camel_from(s, i + 2)
    } else {
        seq![s[i]] + camel_from(s, i + 1)
    }
}

/// A name in camel case.
pub open spec fn camel(s: Seq<char>) -> Seq<char> {
    camel_from(s, 0)
}

fn lower(c: char) -> (r: char)
    requires
        is_upper(c),
    ensures
        r == to_lower_char(c),
{
    let b: u8 = c as u8;
    (b + 32) as char
}

fn capital(c: char) -> (r: char)
    requires
        is_lower(c),
    ensures
        r == to_upper_char(c),
{
    let b: u8 = c as u8;
    (b - 32) as char
}

/// A name in snake case.
pub fn to_snake(s: &str) -> (r: String)
    ensures
        r@ == snake(s@),
{
    let v = chars_of(s);
    let mut out = String::new();
    let mut i: usize = 0;
    assert(v@.take(0) =~= Seq::<char>::empty());
    while i < v.len()
        invariant
            i <= v.len(),
            out@ == snake(v@.take(i as int)),
        decreases v.len() - i,
    {
        let ghost next = v@.take(i + 1);
        assert(next.drop_last() =~= v@.take(i as int));
        assert(next.last() == v@[i as int]);
        let c = v[i];
        if 'A' <= c && c <= 'Z' {
            out.push('_');
            out.push(lower(c));
        } else {
            out.push(c);
        }
        i += 1;
    }
    assert(v@.take(v@.len() as int) =~= v@);
    out
}

/// A name in camel case.
pub fn to_camel(s: &str) -> (r: String)
    ensures
        r@ == camel(s@),
{
    let v = chars_of(s);
    let mut out = String::new();
    let mut i: usize = 0;
    assert(out@ + camel_from(v@, 0) =~= camel_from(v@, 0));
    while i < v.len()
        invariant
            i <= v.len(),
            out@ + camel_from(v@, i as int) == camel(v@),
        decreases v.len() - i,
    {
        let ghost before = out@;
        if v[i] == '_' && i + 1 < v.len() && 'a' <= v[i + 1] && v[i + 1] <= 'z' {
            out.push(capital(v[i + 1]));
            assert(out@ + camel_from(v@, i + 2) =~= before + camel_from(v@, i as int));
            i += 2;
        } else {
            out.push(v[i]);
            assert(out@ + camel_from(v@, i + 1) =~= before + camel_from(v@, i as int));
            i += 1;
        }
    }
    assert(out@ + camel_from(v@, v@.len() as int) =~= out@);
    out
}

/// The members with one more, unless there is one of that name.
pub open spec fn with_alias(m: Seq<(Seq<char>, Json)>, key: Seq<char>, v: Json) -> Seq<
    (Seq<char>, Json),
> {
    if member(m, key) is Some {
        m
    } else {
        with_member(m, key, v)
    }
}

/// The members with the other spellings of the first `n` of them.
pub open spec fn with_aliases(m: Seq<(Seq<char>, Json)>, n: nat) -> Seq<(Seq<char>, Json)>
    decreases n,
{
    if n == 0 || n > m.len() {
        m
    } else {
        let before = with_aliases(m, (n - 1) as nat);
        let (k, v) = m[n - 1];
        with_alias(with_alias(before, snake(k), v), camel(k), v)
    }
}

/// The parameters under both spellings.
pub open spec fn normalized(params: Json) -> Json {
    match params {
        Json::Object(m) => Json::Object(with_aliases(m, m.len())),
        other => other,
    }
}

fn add_alias(m: &mut Vec<(String, Value)>, key: &str, v: &Value)
    ensures
        members(final(m)@) == with_alias(members(old(m)@), key@, v@),
{
    let k: usize = find_key(m, key);
    if k >= m.len() {
        set_member(m, key, v.clone());
    }
}

/// Give every parameter its other spelling too; what was given stays as it is.
pub fn normalize_params(params: &Value) -> (r: Value)
    ensures
        r@ == normalized(params@),
{
    match (params, params.clone()) {
        (Value::Object(given), Value::Object(m)) => {
            let mut m = m;
            let mut i: usize = 0;
            while i < given.len()
                invariant
                    i <= given.len(),
                    members(m@) == with_aliases(members(given@), i as nat),
                decreases given.len() - i,
            {
                let s = to_snake(given[i].0.as_str());
                let c = to_camel(given[i].0.as_str());
                add_alias(&mut m, s.as_str(), &given[i].1);
                add_alias(&mut m, c.as_str(), &given[i].1);
                i += 1;
            }
            Value::Object(m)
        },
        (_, other) => other,
    }
}

proof fn lemma_with_alias(m: Seq<(Seq<char>, Json)>, key: Seq<char>, v: Json, other: Seq<char>)
    ensures
        member(m, other) is Some ==> member(with_alias(m, key, v), other) == member(m, other),
        member(with_alias(m, key, v), key) is Some,
{
    lemma_member_of_with_member(m, key, v, other);
    lemma_member_of_with_member(m, key, v, key);
}

/// Every parameter that was given keeps its value.
pub proof fn lemma_given_params_stay(m: Seq<(Seq<char>, Json)>, n: nat, key: Seq<char>)
    requires
        n <= m.len(),
        member(m, key) is Some,
    ensures
        member(with_aliases(m, n), key) == member(m, key),
    decreases n,
{
    if n > 0 {
        lemma_given_params_stay(m, (n - 1) as nat, key);
        let before = with_aliases(m, (n - 1) as nat);
        let (k, v) = m[n - 1];
        lemma_with_alias(before, snake(k), v, key);
        lemma_with_alias(with_alias(before, snake(k), v), camel(k), v, key);
    }
}

/// Every parameter can be read in snake case and in camel case.
pub proof fn lemma_both_spellings_are_there(m: Seq<(Seq<char>, Json)>, n: nat, i: int)
    requires
        0 <= i < n <= m.len(),
    ensures
        member(with_aliases(m, n), snake(m[i].0)) is Some,
        member(with_aliases(m, n), camel(m[i].0)) is Some,
    decreases n,
{
    let before = with_aliases(m, (n - 1) as nat);
    let (k, v) = m[n - 1];
    let one = with_alias(before, snake(k), v);
    if i < n - 1 {
        lemma_both_spellings_are_there(m, (n - 1) as nat, i);
        lemma_with_alias(before, snake(k), v, snake(m[i].0));
        lemma_with_alias(before, snake(k), v, camel(m[i].0));
        lemma_with_alias(one, camel(k), v, snake(m[i].0));
        lemma_with_alias(one, camel(k), v, camel(m[i].0));
    } else {
        lemma_with_alias(before, snake(k), v, snake(k));
        lemma_with_alias(one, camel(k), v, snake(k));
        lemma_with_alias(one, camel(k), v, camel(k));
    }
}

} // verus!

//! JSON: how values are read, ordered and written.

use vstd::prelude::*;
use vstd::string::*;

use crate::json::{items_text, json_escape, json_escaped, json_int, json_quoted, json_text};
use crate::json::{lemma_key_index, member, members_text, precedes};
use crate::text::{decimal, decimal_int};
use crate::value::Json;

verus! {

/// A member of an object is a value that stands under its key, and there is none only
/// where nothing does. Of anything else there is no member.
pub proof fn lemma_members(m: Seq<(Seq<char>, Json)>, key: Seq<char>, v: Json)
    ensures
        Json::Object(m).get(key) is None <==> forall|i: int|
            0 <= i < m.len() ==> (#[trigger] m[i]).0 != key,
        Json::Object(m).get(key) == Some(v) ==> exists|i: int|
            0 <= i < m.len() && #[trigger] m[i] == (key, v),
        !(v is Object) ==> v.get(key) is None,
{
    lemma_key_index(m, key);
}

/// What is read of a value is what it holds, and nothing is read of a value of
/// another kind.
pub proof fn lemma_accessors(v: Json, s: Seq<char>, b: bool, n: u64, i: i64)
    ensures
        v.as_str() == Some(s) <==> v == Json::Str(s),
        v.as_bool() == Some(b) <==> v == Json::Bool(b),
        v.as_u64() == Some(n) <==> v == Json::UInt(n),
        i >= 0 ==> (v.as_i64() == Some(i) <==> v == Json::UInt(i as u64) || v == Json::NegInt(i)),
        i < 0 ==> (v.as_i64() == Some(i) <==> v == Json::NegInt(i)),
        json_int(i).as_i64() == Some(i),
{
}

/// Keys are ordered by their first difference, and a key before whatever continues
/// it.
pub proof fn lemma_order_of_keys(
    p: Seq<char>,
    a: Seq<char>,
    b: Seq<char>,
    x: char,
    y: char,
)
    requires
        x != y,
    ensures
        precedes(p + (seq![x] + a), p + (seq![y] + b)) <==> x < y,
        precedes(p, p + (seq![x] + a)),
        !precedes(p + (seq![x] + a), p),
    decreases p.len(),
{
    let l = p + (seq![x] + a);
    let r = p + (seq![y] + b);
    if p.len() == 0 {
        assert(l =~= seq![x] + a);
        assert(r =~= seq![y] + b);
    } else {
        lemma_order_of_keys(p.skip(1), a, b, x, y);
        assert(l.skip(1) =~= p.skip(1) + (seq![x] + a));
        assert(r.skip(1) =~= p.skip(1) + (seq![y] + b));
    }
}

/// How a value that holds no other is written.
pub proof fn lemma_plain_values_are_written(n: u64, i: i64, s: Seq<char>)
    ensures
        json_text(Json::Null) == "null"@,
        json_text(Json::Bool(true)) == "true"@,
        json_text(Json::Bool(false)) == "false"@,
        json_text(Json::UInt(n)) == decimal(n as nat),
        json_text(Json::NegInt(i)) == decimal_int(i as int),
        json_text(Json::Float(s)) == s,
        json_text(Json::Str(s)) == seq!['"'] + json_escaped(s) + seq!['"'],
        json_text(Json::Array(Seq::empty())) == "[]"@,
        json_text(Json::Object(Seq::empty())) == "{}"@,
{
    reveal_strlit("[");
    reveal_strlit("]");
    reveal_strlit("[]");
    reveal_strlit("{");
    reveal_strlit("}");
    reveal_strlit("{}");
    assert(json_text(Json::Array(Seq::empty())) =~= "[]"@);
    assert(json_text(Json::Object(Seq::empty())) =~= "{}"@);
}

proof fn lemma_items_text_prefix(s: Seq<Json>, x: Json, n: nat)
    requires
        n <= s.len(),
    ensures
        items_text(s.push(x), n) == items_text(s, n),
    decreases n,
{
    if n > 1 {
        lemma_items_text_prefix(s, x, (n - 1) as nat);
        assert(s.push(x)[n - 1] == s[n - 1]);
    } else if n == 1 {
        assert(s.push(x)[0] == s[0]);
    }
}

/// How an array is written: what is in it, in its order, with a comma between two.
pub proof fn lemma_arrays_are_written(s: Seq<Json>, x: Json)
    ensures
        json_text(Json::Array(seq![x])) == "["@ + json_text(x) + "]"@,
        s.len() > 0 ==> exists|inner: Seq<char>| #[trigger]
            ("["@ + inner + "]"@) == json_text(Json::Array(s)) && json_text(Json::Array(s.push(x)))
                == "["@ + (inner + ","@ + json_text(x)) + "]"@,
{
    lemma_items_text_prefix(s, x, s.len());
    if s.len() > 0 {
        let inner = items_text(s, s.len());
        assert(s.push(x)[s.len() as int] == x);
        assert("["@ + inner + "]"@ == json_text(Json::Array(s)));
    }
    assert(seq![x][0] == x);
}

proof fn lemma_members_text_prefix(m: Seq<(Seq<char>, Json)>, x: (Seq<char>, Json), n: nat)
    requires
        n <= m.len(),
    ensures
        members_text(m.push(x), n) == members_text(m, n),
    decreases n,
{
    if n > 0 {
        lemma_members_text_prefix(m, x, (n - 1) as nat);
        assert(m.push(x)[n - 1] == m[n - 1]);
    }
}

/// How an object is written: its members in their order, each as its key, a colon
/// and its value, with a comma between two.
pub proof fn lemma_objects_are_written(m: Seq<(Seq<char>, Json)>, k: Seq<char>, v: Json)
    ensures
        json_text(Json::Object(seq![(k, v)])) == "{"@ + (json_quoted(k) + ":"@ + json_text(v))
            + "}"@,
        m.len() > 0 ==> exists|inner: Seq<char>| #[trigger]
            ("{"@ + inner + "}"@) == json_text(Json::Object(m)) && json_text(
                Json::Object(m.push((k, v))),
            ) == "{"@ + (inner + ","@ + (json_quoted(k) + ":"@ + json_text(v))) + "}"@,
{
    lemma_members_text_prefix(m, (k, v), m.len());
    if m.len() > 0 {
        let inner = members_text(m, m.len());
        assert(m.push((k, v))[m.len() as int] == (k, v));
        assert("{"@ + inner + "}"@ == json_text(Json::Object(m)));
    }
    assert(seq![(k, v)][0] == (k, v));
}

/// How a string is written: character by character, with a backslash before a quote
/// and before a backslash, and an escape for every control character.
pub proof fn lemma_strings_are_escaped(s: Seq<char>, c: char)
    ensures
        json_escaped(Seq::empty()) == Seq::<char>::empty(),
        json_escaped(s.push(c)) == json_escaped(s) + json_escape(c),
        json_escape('"') == seq!['\\', '"'],
        json_escape('\\') == seq!['\\', '\\'],
        json_escape('\n') == seq!['\\', 'n'],
        json_escape('\r') == seq!['\\', 'r'],
        json_escape('\t') == seq!['\\', 't'],
        (c as int) >= 0x20 && c != '"' && c != '\\' ==> json_escape(c) == seq![c],
        (c as int) < 0x20 ==> json_escape(c)[0] == '\\' && (json_escape(c).len() == 2
            || json_escape(c).len() == 6 && json_escape(c)[1] == 'u'),
{
    assert(s.push(c).drop_last() =~= s);
}

/// A member that is not there reads as null, and a text that is not there as its
/// default.
pub proof fn lemma_missing_members(v: Json, key: Seq<char>, default: Seq<char>)
    ensures
        v.get(key) matches Some(x) ==> v.field(key) == x,
        v.get(key) is None ==> v.field(key) == Json::Null,
        v.get(key) matches Some(Json::Str(s)) ==> v.str_or(key, default) == s && v.get_str(key)
            == Some(s),
        !(v.get(key) matches Some(Json::Str(_))) ==> v.str_or(key, default) == default && v.get_str(
            key,
        ) is None,
        v.get(key) matches Some(Json::UInt(n)) ==> v.get_u64(key) == Some(n),
        !(v.get(key) matches Some(Json::UInt(_))) ==> v.get_u64(key) is None,
        v.get(key) matches Some(Json::Bool(b)) ==> v.get_bool(key) == Some(b),
        !(v.get(key) matches Some(Json::Bool(_))) ==> v.get_bool(key) is None,
{
}

/// Writing a member of an object makes it that, and leaves the others.
pub proof fn lemma_written_members(
    m: Seq<(Seq<char>, Json)>,
    key: Seq<char>,
    v: Json,
    other: Seq<char>,
)
    ensures
        Json::Object(m).with_field(key, v).get(key) == Some(v),
        other != key ==> Json::Object(m).with_field(key, v).get(other) == Json::Object(m).get(other),
        !(v is Object) ==> v.with_field(key, Json::Object(m)) == v,
{
    crate::json::lemma_member_of_with_member(m, key, v, key);
    crate::json::lemma_member_of_with_member(m, key, v, other);
}

} // verus!

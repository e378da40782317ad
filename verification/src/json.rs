//! Reading, building and printing JSON values.

use vstd::prelude::*;
use vstd::string::*;

use crate::text::{cat3, hex_digit, print_i64, print_u64, same, texts};
use crate::value::{items, members, opt_json, Json, Value};
use crate::text::{chars_of, decimal, decimal_int, opt_text};

verus! {

broadcast use crate::value::group_value_views;

/// Whether `a` comes before `b` in the order of their characters.
pub open spec fn precedes(a: Seq<char>, b: Seq<char>) -> bool
    decreases a.len(),
{
    if b.len() == 0 {
        false
    } else if a.len() == 0 {
        true
    } else if a[0] == b[0] {
        precedes(a.skip(1), b.skip(1))
    } else {
        a[0] < b[0]
    }
}

/// The first position from `i` on whose key is `key`, or the length.
pub open spec fn key_from(m: Seq<(Seq<char>, Json)>, key: Seq<char>, i: int) -> int
    decreases m.len() - i,
{
    if i >= m.len() {
        m.len() as int
    } else if m[i].0 == key {
        i
    } else {
        key_from(m, key, i + 1)
    }
}

/// The position of the member `key`, or the length where there is none.
pub open spec fn key_index(m: Seq<(Seq<char>, Json)>, key: Seq<char>) -> int {
    key_from(m, key, 0)
}

/// The first position from `i` on whose key comes after `key`, or the length.
pub open spec fn slot_from(m: Seq<(Seq<char>, Json)>, key: Seq<char>, i: int) -> int
    decreases m.len() - i,
{
    if i >= m.len() {
        m.len() as int
    } else if precedes(key, m[i].0) {
        i
    } else {
        slot_from(m, key, i + 1)
    }
}

/// The value of the member `key`.
pub open spec fn member(m: Seq<(Seq<char>, Json)>, key: Seq<char>) -> Option<Json> {
    let i = key_index(m, key);
    if i < m.len() {
        Some(m[i].1)
    } else {
        None
    }
}

/// The members with `key` set to `v`: in place where the key is there, else in
/// front of the first key that comes after it.
pub open spec fn with_member(
    m: Seq<(Seq<char>, Json)>,
    key: Seq<char>,
    v: Json,
) -> Seq<(Seq<char>, Json)> {
    let i = key_index(m, key);
    if i < m.len() {
        m.update(i, (key, v))
    } else {
        m.insert(slot_from(m, key, 0), (key, v))
    }
}

/// The members without `key`.
pub open spec fn without_member(m: Seq<(Seq<char>, Json)>, key: Seq<char>) -> Seq<
    (Seq<char>, Json),
> {
    let i = key_index(m, key);
    if i < m.len() {
        m.remove(i)
    } else {
        m
    }
}

/// The members that result from setting each pair in turn.
pub open spec fn members_of(pairs: Seq<(Seq<char>, Json)>) -> Seq<(Seq<char>, Json)>
    decreases pairs.len(),
{
    if pairs.len() == 0 {
        Seq::empty()
    } else {
        with_member(members_of(pairs.drop_last()), pairs.last().0, pairs.last().1)
    }
}

/// The object that results from setting each pair in turn.
pub open spec fn object_of(pairs: Seq<(Seq<char>, Json)>) -> Json {
    Json::Object(members_of(pairs))
}

/// Whether the keys stand in strictly ascending order, so none occurs twice.
pub open spec fn ordered(m: Seq<(Seq<char>, Json)>) -> bool {
    forall|i: int, j: int| 0 <= i < j < m.len() ==> precedes(#[trigger] m[i].0, #[trigger] m[j].0)
}

/// Whether every object in the value has its keys in ascending order.
pub open spec fn well_formed(v: Json) -> bool
    decreases v,
{
    match v {
        Json::Array(s) => forall|i: int| 0 <= i < s.len() ==> well_formed(#[trigger] s[i]),
        Json::Object(m) => ordered(m) && forall|i: int|
            0 <= i < m.len() ==> well_formed((#[trigger] m[i]).1),
        _ => true,
    }
}

impl Json {
    pub open spec fn get(self, key: Seq<char>) -> Option<Json> {
        match self {
            Json::Object(m) => member(m, key),
            _ => None,
        }
    }

    pub open spec fn at(self, i: int) -> Option<Json> {
        match self {
            Json::Array(s) => if 0 <= i < s.len() {
                Some(s[i])
            } else {
                None
            },
            _ => None,
        }
    }

    pub open spec fn as_str(self) -> Option<Seq<char>> {
        match self {
            Json::Str(s) => Some(s),
            _ => None,
        }
    }

    pub open spec fn as_bool(self) -> Option<bool> {
        match self {
            Json::Bool(b) => Some(b),
            _ => None,
        }
    }

    /// The number as `u64`, where it is an integer that fits.
    pub open spec fn as_u64(self) -> Option<u64> {
        match self {
            Json::UInt(n) => Some(n),
            _ => None,
        }
    }

    /// The number as `i64`, where it is an integer that fits.
    pub open spec fn as_i64(self) -> Option<i64> {
        match self {
            Json::UInt(n) => if n <= i64::MAX {
                Some(n as i64)
            } else {
                None
            },
            Json::NegInt(n) => Some(n),
            _ => None,
        }
    }

    pub open spec fn get_str(self, key: Seq<char>) -> Option<Seq<char>> {
        match self.get(key) {
            Some(v) => v.as_str(),
            None => None,
        }
    }

    pub open spec fn get_bool(self, key: Seq<char>) -> Option<bool> {
        match self.get(key) {
            Some(v) => v.as_bool(),
            None => None,
        }
    }

    pub open spec fn get_u64(self, key: Seq<char>) -> Option<u64> {
        match self.get(key) {
            Some(v) => v.as_u64(),
            None => None,
        }
    }

    pub open spec fn get_i64(self, key: Seq<char>) -> Option<i64> {
        match self.get(key) {
            Some(v) => v.as_i64(),
            None => None,
        }
    }

    /// The member `key`, or null where there is none.
    pub open spec fn field(self, key: Seq<char>) -> Json {
        match self.get(key) {
            Some(v) => v,
            None => Json::Null,
        }
    }

    /// An object with the member `key` set; anything else as it is.
    pub open spec fn with_field(self, key: Seq<char>, v: Json) -> Json {
        match self {
            Json::Object(m) => Json::Object(with_member(m, key, v)),
            other => other,
        }
    }

    /// The string of the member `key`, or `default`.
    pub open spec fn str_or(self, key: Seq<char>, default: Seq<char>) -> Seq<char> {
        match self.get_str(key) {
            Some(s) => s,
            None => default,
        }
    }
}

/// An optional string, null where there is none.
pub open spec fn json_opt_str(s: Option<Seq<char>>) -> Json {
    match s {
        Some(t) => Json::Str(t),
        None => Json::Null,
    }
}

/// A non-negative integer.
pub open spec fn json_uint(n: u64) -> Json {
    Json::UInt(n)
}

/// An integer.
pub open spec fn json_int(n: i64) -> Json {
    if n < 0 {
        Json::NegInt(n)
    } else {
        Json::UInt(n as u64)
    }
}

/// A list of strings.
pub open spec fn json_texts(s: Seq<Seq<char>>) -> Json {
    Json::Array(Seq::new(s.len(), |i: int| Json::Str(s[i])))
}

/// The strings of a list of named values: what [`object`] takes.
pub open spec fn pairs_view(p: Seq<(&'static str, Value)>) -> Seq<(Seq<char>, Json)> {
    Seq::new(p.len(), |i: int| (p[i].0@, p[i].1@))
}

// ── Keys ─────────────────────────────────────────────────────────────────────

/// Whether `a` comes before `b` in the order of their characters.
pub fn text_precedes(a: &str, b: &str) -> (r: bool)
    ensures
        r == precedes(a@, b@),
{
    let x = chars_of(a);
    let y = chars_of(b);
    let mut i: usize = 0;
    assert(a@.skip(0) =~= a@);
    assert(b@.skip(0) =~= b@);
    while i < x.len() && i < y.len()
        invariant
            i <= x.len(),
            i <= y.len(),
            x@ == a@,
            y@ == b@,
            precedes(a@, b@) == precedes(a@.skip(i as int), b@.skip(i as int)),
        decreases x.len() - i,
    {
        if x[i] != y[i] {
            return x[i] < y[i];
        }
        assert(a@.skip(i as int).skip(1) =~= a@.skip(i + 1));
        assert(b@.skip(i as int).skip(1) =~= b@.skip(i + 1));
        i += 1;
    }
    i < y.len()
}

/// What [`key_index`] says: the first position of the key.
pub proof fn lemma_key_index(m: Seq<(Seq<char>, Json)>, key: Seq<char>)
    ensures
        0 <= key_index(m, key) <= m.len(),
        key_index(m, key) < m.len() ==> m[key_index(m, key)].0 == key,
        forall|j: int| 0 <= j < key_index(m, key) ==> (#[trigger] m[j]).0 != key,
{
    lemma_key_from(m, key, 0);
}

proof fn lemma_key_from(m: Seq<(Seq<char>, Json)>, key: Seq<char>, i: int)
    requires
        0 <= i <= m.len(),
    ensures
        i <= key_from(m, key, i) <= m.len(),
        key_from(m, key, i) < m.len() ==> m[key_from(m, key, i)].0 == key,
        forall|j: int| i <= j < key_from(m, key, i) ==> (#[trigger] m[j]).0 != key,
    decreases m.len() - i,
{
    if i < m.len() && m[i].0 != key {
        lemma_key_from(m, key, i + 1);
    }
}

/// The position of a key is where the key stands and nothing before it does.
pub proof fn lemma_key_index_is(m: Seq<(Seq<char>, Json)>, key: Seq<char>, i: int)
    requires
        0 <= i <= m.len(),
        i < m.len() ==> m[i].0 == key,
        forall|j: int| 0 <= j < i ==> (#[trigger] m[j]).0 != key,
    ensures
        key_index(m, key) == i,
{
    lemma_key_index(m, key);
    if key_index(m, key) < i {
        assert(m[key_index(m, key)].0 == key);
    } else if i < key_index(m, key) {
        assert(m[i].0 != key);
    }
}

proof fn lemma_slot_from(m: Seq<(Seq<char>, Json)>, key: Seq<char>, i: int)
    requires
        0 <= i <= m.len(),
    ensures
        i <= slot_from(m, key, i) <= m.len(),
        slot_from(m, key, i) < m.len() ==> precedes(key, m[slot_from(m, key, i)].0),
        forall|j: int| i <= j < slot_from(m, key, i) ==> !precedes(key, (#[trigger] m[j]).0),
    decreases m.len() - i,
{
    if i < m.len() && !precedes(key, m[i].0) {
        lemma_slot_from(m, key, i + 1);
    }
}

/// Reading a member back: the key that was set has the value it was set to,
/// and every other key has the value it had.
pub proof fn lemma_member_of_with_member(
    m: Seq<(Seq<char>, Json)>,
    key: Seq<char>,
    v: Json,
    other: Seq<char>,
)
    ensures
        member(with_member(m, key, v), other) == (if other == key {
            Some(v)
        } else {
            member(m, other)
        }),
{
    let n = with_member(m, key, v);
    lemma_key_index(m, key);
    lemma_key_index(m, other);
    lemma_slot_from(m, key, 0);
    let i = key_index(m, key);
    let o = key_index(m, other);
    if i < m.len() {
        if other == key {
            lemma_key_index_is(n, key, i);
        } else {
            lemma_key_index_is(n, other, o);
        }
    } else {
        let p = slot_from(m, key, 0);
        assert(forall|j: int| 0 <= j < p ==> n[j] == m[j]);
        assert(forall|j: int| p < j < n.len() ==> n[j] == m[j - 1]);
        assert(n[p] == (key, v));
        if other == key {
            assert forall|j: int| 0 <= j < p implies (#[trigger] n[j]).0 != key by {
                assert(m[j].0 != key);
            }
            lemma_key_index_is(n, key, p);
        } else {
            let q = if o < p {
                o
            } else {
                o + 1
            };
            assert forall|j: int| 0 <= j < q implies (#[trigger] n[j]).0 != other by {
                if j < p {
                    assert(m[j].0 != other);
                } else if j > p {
                    assert(m[j - 1].0 != other);
                }
            }
            lemma_key_index_is(n, other, q);
        }
    }
}

/// The member `key` of an object built from pairs is the last one given.
pub proof fn lemma_member_of_members_of(pairs: Seq<(Seq<char>, Json)>, key: Seq<char>)
    ensures
        pairs.len() == 0 ==> member(members_of(pairs), key) is None,
        pairs.len() > 0 ==> member(members_of(pairs), key) == (if pairs.last().0 == key {
            Some(pairs.last().1)
        } else {
            member(members_of(pairs.drop_last()), key)
        }),
{
    if pairs.len() > 0 {
        lemma_member_of_with_member(
            members_of(pairs.drop_last()),
            pairs.last().0,
            pairs.last().1,
            key,
        );
    }
}

/// No text comes before itself.
pub proof fn lemma_precedes_irreflexive(a: Seq<char>)
    ensures
        !precedes(a, a),
    decreases a.len(),
{
    if a.len() > 0 {
        lemma_precedes_irreflexive(a.skip(1));
    }
}

/// The order of texts is transitive.
pub proof fn lemma_precedes_transitive(a: Seq<char>, b: Seq<char>, c: Seq<char>)
    requires
        precedes(a, b),
        precedes(b, c),
    ensures
        precedes(a, c),
    decreases a.len(),
{
    if a.len() > 0 && a[0] == b[0] && b[0] == c[0] {
        lemma_precedes_transitive(a.skip(1), b.skip(1), c.skip(1));
    }
}

proof fn lemma_precedes_total(a: Seq<char>, b: Seq<char>)
    ensures
        precedes(a, b) || a == b || precedes(b, a),
    decreases a.len(),
{
    if a.len() > 0 && b.len() > 0 && a[0] == b[0] {
        lemma_precedes_total(a.skip(1), b.skip(1));
        if a.skip(1) == b.skip(1) {
            assert(a =~= seq![a[0]] + a.skip(1));
            assert(b =~= seq![b[0]] + b.skip(1));
        }
    } else if a.len() == 0 && b.len() == 0 {
        assert(a =~= b);
    }
}

/// Setting a member keeps the keys of an object in ascending order.
pub proof fn lemma_with_member_ordered(m: Seq<(Seq<char>, Json)>, key: Seq<char>, v: Json)
    requires
        ordered(m),
    ensures
        ordered(with_member(m, key, v)),
{
    let n = with_member(m, key, v);
    lemma_key_index(m, key);
    lemma_slot_from(m, key, 0);
    let i = key_index(m, key);
    if i < m.len() {
        assert forall|a: int, b: int| 0 <= a < b < n.len() implies precedes(
            #[trigger] n[a].0,
            #[trigger] n[b].0,
        ) by {
            assert(n[a].0 == m[a].0 && n[b].0 == m[b].0);
        }
    } else {
        let p = slot_from(m, key, 0);
        assert(forall|j: int| 0 <= j < p ==> n[j] == m[j]);
        assert(forall|j: int| p < j < n.len() ==> n[j] == m[j - 1]);
        assert forall|a: int, b: int| 0 <= a < b < n.len() implies precedes(
            #[trigger] n[a].0,
            #[trigger] n[b].0,
        ) by {
            if b == p {
                lemma_precedes_total(m[a].0, key);
                assert(m[a].0 != key);
            } else if a == p {
                if p < b - 1 {
                    lemma_precedes_transitive(key, m[p].0, m[b - 1].0);
                }
            } else if a < p {
                if b < p {
                    assert(precedes(m[a].0, m[b].0));
                } else {
                    assert(precedes(m[a].0, m[b - 1].0));
                }
            } else {
                assert(precedes(m[a - 1].0, m[b - 1].0));
            }
        }
    }
}

/// Setting a member of a well-formed object to a well-formed value gives a
/// well-formed object.
pub proof fn lemma_with_member_well_formed(m: Seq<(Seq<char>, Json)>, key: Seq<char>, v: Json)
    requires
        well_formed(Json::Object(m)),
        well_formed(v),
    ensures
        well_formed(Json::Object(with_member(m, key, v))),
{
    let n = with_member(m, key, v);
    lemma_with_member_ordered(m, key, v);
    lemma_key_index(m, key);
    lemma_slot_from(m, key, 0);
    assert forall|j: int| 0 <= j < n.len() implies well_formed((#[trigger] n[j]).1) by {
        let i = key_index(m, key);
        if i < m.len() {
            if j != i {
                assert(well_formed(m[j].1));
            }
        } else {
            let p = slot_from(m, key, 0);
            if j < p {
                assert(well_formed(m[j].1));
            } else if j > p {
                assert(well_formed(m[j - 1].1));
            }
        }
    }
}

/// In ascending order no key occurs twice.
pub proof fn lemma_ordered_key_index(m: Seq<(Seq<char>, Json)>, i: int)
    requires
        ordered(m),
        0 <= i < m.len(),
    ensures
        key_index(m, m[i].0) == i,
{
    assert forall|j: int| 0 <= j < i implies (#[trigger] m[j]).0 != m[i].0 by {
        lemma_precedes_irreflexive(m[i].0);
    }
    lemma_key_index_is(m, m[i].0, i);
}

// ── Reading and building values ──────────────────────────────────────────────

/// The position of the member `key`, or the length where there is none.
pub fn find_key(m: &Vec<(String, Value)>, key: &str) -> (r: usize)
    ensures
        r as int == key_index(members(m@), key@),
        r <= m.len(),
{
    let mut i: usize = 0;
    while i < m.len()
        invariant
            i <= m.len(),
            key_from(members(m@), key@, 0) == key_from(members(m@), key@, i as int),
        decreases m.len() - i,
    {
        if same(m[i].0.as_str(), key) {
            return i;
        }
        i += 1;
    }
    i
}

fn find_slot(m: &Vec<(String, Value)>, key: &str) -> (r: usize)
    ensures
        r as int == slot_from(members(m@), key@, 0),
        r <= m.len(),
{
    let mut i: usize = 0;
    while i < m.len()
        invariant
            i <= m.len(),
            slot_from(members(m@), key@, 0) == slot_from(members(m@), key@, i as int),
        decreases m.len() - i,
    {
        if text_precedes(key, m[i].0.as_str()) {
            return i;
        }
        i += 1;
    }
    i
}

/// Set the member `key` to `v`.
pub fn set_member(m: &mut Vec<(String, Value)>, key: &str, v: Value)
    ensures
        members(final(m)@) == with_member(members(old(m)@), key@, v@),
{
    let ghost before = m@;
    let ghost val = v@;
    let i = find_key(m, key);
    if i < m.len() {
        let pair = (key.to_owned(), v);
        m.remove(i);
        m.insert(i, pair);
        assert(members(m@) =~= members(before).update(i as int, (key@, val)));
    } else {
        let p = find_slot(m, key);
        m.insert(p, (key.to_owned(), v));
        assert(members(m@) =~= members(before).insert(p as int, (key@, val)));
    }
}

/// Remove the member `key`, if there is one.
pub fn remove_member(m: &mut Vec<(String, Value)>, key: &str)
    ensures
        members(final(m)@) == without_member(members(old(m)@), key@),
{
    let ghost before = m@;
    let i = find_key(m, key);
    if i < m.len() {
        let _ = m.remove(i);
        assert(members(m@) =~= members(before).remove(i as int));
    }
}

/// Removing a member keeps the keys of an object in ascending order, leaves the
/// key absent and every other member as it was.
pub proof fn lemma_without_member(m: Seq<(Seq<char>, Json)>, key: Seq<char>, other: Seq<char>)
    requires
        ordered(m),
    ensures
        ordered(without_member(m, key)),
        member(without_member(m, key), other) == (if other == key {
            None
        } else {
            member(m, other)
        }),
{
    let n = without_member(m, key);
    lemma_key_index(m, key);
    lemma_key_index(m, other);
    let i = key_index(m, key);
    let o = key_index(m, other);
    if i < m.len() {
        assert(forall|j: int| 0 <= j < i ==> n[j] == m[j]);
        assert(forall|j: int| i <= j < n.len() ==> n[j] == m[j + 1]);
        assert forall|a: int, b: int| 0 <= a < b < n.len() implies precedes(
            #[trigger] n[a].0,
            #[trigger] n[b].0,
        ) by {
            let x = if a < i {
                a
            } else {
                a + 1
            };
            let y = if b < i {
                b
            } else {
                b + 1
            };
            assert(precedes(m[x].0, m[y].0));
        }
        if other == key {
            assert forall|j: int| 0 <= j < n.len() implies (#[trigger] n[j]).0 != key by {
                let x = if j < i {
                    j
                } else {
                    j + 1
                };
                lemma_ordered_key_index(m, x);
                lemma_ordered_key_index(m, i);
                assert(n[j] == m[x]);
            }
            lemma_key_index_is(n, key, n.len() as int);
        } else {
            let q = if o < i {
                o
            } else {
                o - 1
            };
            assert forall|j: int| 0 <= j < q implies (#[trigger] n[j]).0 != other by {
                if j < i {
                    assert(m[j].0 != other);
                } else {
                    assert(m[j + 1].0 != other);
                }
            }
            lemma_key_index_is(n, other, q);
        }
    }
}

impl Clone for Value {
    fn clone(&self) -> (r: Self)
        ensures
            r@ == self@,
        decreases self,
    {
        match self {
            Value::Null => Value::Null,
            Value::Bool(b) => Value::Bool(*b),
            Value::UInt(n) => Value::UInt(*n),
            Value::NegInt(n) => Value::NegInt(*n),
            Value::Float(t) => Value::Float(t.clone()),
            Value::Str(s) => Value::Str(s.clone()),
            Value::Array(v) => {
                let mut out: Vec<Value> = Vec::new();
                let mut i: usize = 0;
                while i < v.len()
                    invariant
                        i <= v.len(),
                        out.len() == i,
                        self == Value::Array(*v),
                        forall|j: int| 0 <= j < i ==> (#[trigger] out@[j])@ == v@[j]@,
                    decreases v.len() - i,
                {
                    assert(decreases_to!(self => self->Array_0));
                    assert(decreases_to!(v => v@));
                    assert(decreases_to!(v@ => v@[i as int]));
                    let x = v[i].clone();
                    out.push(x);
                    i += 1;
                }
                assert(items(out@) =~= items(v@));
                Value::Array(out)
            },
            Value::Object(m) => {
                let mut out: Vec<(String, Value)> = Vec::new();
                let mut i: usize = 0;
                while i < m.len()
                    invariant
                        i <= m.len(),
                        out.len() == i,
                        self == Value::Object(*m),
                        forall|j: int|
                            0 <= j < i ==> (#[trigger] out@[j]).0@ == m@[j].0@ && out@[j].1@
                                == m@[j].1@,
                    decreases m.len() - i,
                {
                    assert(decreases_to!(self => self->Object_0));
                    assert(decreases_to!(m => m@));
                    assert(decreases_to!(m@ => m@[i as int]));
                    assert(decreases_to!(m@[i as int] => m@[i as int].1));
                    let x = m[i].1.clone();
                    out.push((m[i].0.clone(), x));
                    i += 1;
                }
                assert(members(out@) =~= members(m@));
                Value::Object(out)
            },
        }
    }
}

impl Value {
    /// The member `key` of an object.
    pub fn get(&self, key: &str) -> (r: Option<&Value>)
        ensures
            opt_json(r) == self@.get(key@),
    {
        match self {
            Value::Object(m) => {
                let i = find_key(m, key);
                if i < m.len() {
                    Some(&m[i].1)
                } else {
                    None
                }
            },
            _ => None,
        }
    }

    /// The item at position `i` of an array.
    pub fn at(&self, i: usize) -> (r: Option<&Value>)
        ensures
            opt_json(r) == self@.at(i as int),
    {
        match self {
            Value::Array(v) => if i < v.len() {
                Some(&v[i])
            } else {
                None
            },
            _ => None,
        }
    }

    pub fn as_str(&self) -> (r: Option<&str>)
        ensures
            opt_text(r) == self@.as_str(),
    {
        match self {
            Value::Str(s) => Some(s.as_str()),
            _ => None,
        }
    }

    pub fn as_bool(&self) -> (r: Option<bool>)
        ensures
            r == self@.as_bool(),
    {
        match self {
            Value::Bool(b) => Some(*b),
            _ => None,
        }
    }

    pub fn as_u64(&self) -> (r: Option<u64>)
        ensures
            r == self@.as_u64(),
    {
        match self {
            Value::UInt(n) => Some(*n),
            _ => None,
        }
    }

    pub fn as_i64(&self) -> (r: Option<i64>)
        ensures
            r == self@.as_i64(),
    {
        match self {
            Value::UInt(n) => if *n <= i64::MAX as u64 {
                Some(*n as i64)
            } else {
                None
            },
            Value::NegInt(n) => Some(*n),
            _ => None,
        }
    }

    pub fn is_null(&self) -> (r: bool)
        ensures
            r == (self@ is Null),
    {
        match self {
            Value::Null => true,
            _ => false,
        }
    }

    pub fn is_object(&self) -> (r: bool)
        ensures
            r == (self@ is Object),
    {
        match self {
            Value::Object(_) => true,
            _ => false,
        }
    }

    /// The string of the member `key`.
    pub fn get_str(&self, key: &str) -> (r: Option<&str>)
        ensures
            opt_text(r) == self@.get_str(key@),
    {
        match self.get(key) {
            Some(v) => v.as_str(),
            None => None,
        }
    }

    pub fn get_bool(&self, key: &str) -> (r: Option<bool>)
        ensures
            r == self@.get_bool(key@),
    {
        match self.get(key) {
            Some(v) => v.as_bool(),
            None => None,
        }
    }

    pub fn get_u64(&self, key: &str) -> (r: Option<u64>)
        ensures
            r == self@.get_u64(key@),
    {
        match self.get(key) {
            Some(v) => v.as_u64(),
            None => None,
        }
    }

    pub fn get_i64(&self, key: &str) -> (r: Option<i64>)
        ensures
            r == self@.get_i64(key@),
    {
        match self.get(key) {
            Some(v) => v.as_i64(),
            None => None,
        }
    }

    /// A copy of the member `key`, or null where there is none.
    pub fn field(&self, key: &str) -> (r: Value)
        ensures
            r@ == self@.field(key@),
    {
        match self.get(key) {
            Some(v) => v.clone(),
            None => Value::Null,
        }
    }

    /// Set the member `key` of an object; anything else stays as it is.
    pub fn with_field(self, key: &str, v: Value) -> (r: Value)
        ensures
            r@ == self@.with_field(key@, v@),
    {
        match self {
            Value::Object(m) => {
                let mut m = m;
                set_member(&mut m, key, v);
                Value::Object(m)
            },
            other => other,
        }
    }

    /// The string of the member `key`, or `default`.
    pub fn str_or<'a>(&'a self, key: &str, default: &'a str) -> (r: &'a str)
        ensures
            r@ == self@.str_or(key@, default@),
    {
        match self.get_str(key) {
            Some(s) => s,
            None => default,
        }
    }

    /// A string value.
    pub fn text(s: &str) -> (r: Value)
        ensures
            r@ == Json::Str(s@),
    {
        Value::Str(s.to_owned())
    }

    /// A string value, or null where there is none.
    pub fn opt_text(s: Option<&str>) -> (r: Value)
        ensures
            r@ == json_opt_str(opt_text(s)),
    {
        match s {
            Some(t) => Value::text(t),
            None => Value::Null,
        }
    }

    /// A non-negative integer.
    pub fn uint(n: u64) -> (r: Value)
        ensures
            r@ == json_uint(n),
    {
        Value::UInt(n)
    }

    pub fn sint(n: i64) -> (r: Value)
        ensures
            r@ == json_int(n),
    {
        if n < 0 {
            Value::NegInt(n)
        } else {
            Value::UInt(n as u64)
        }
    }

    /// A list of strings.
    pub fn texts(s: &Vec<String>) -> (r: Value)
        ensures
            r@ == json_texts(texts(s@)),
    {
        let mut out: Vec<Value> = Vec::new();
        let mut i: usize = 0;
        while i < s.len()
            invariant
                i <= s.len(),
                out.len() == i,
                forall|j: int| 0 <= j < i ==> (#[trigger] out@[j])@ == Json::Str(s@[j]@),
            decreases s.len() - i,
        {
            out.push(Value::text(s[i].as_str()));
            i += 1;
        }
        assert(items(out@) =~= Seq::new(texts(s@).len(), |i: int| Json::Str(texts(s@)[i])));
        Value::Array(out)
    }

    /// An object with the given members; of two with one key the later counts.
    pub fn object(pairs: Vec<(&'static str, Value)>) -> (r: Value)
        ensures
            r@ == object_of(pairs_view(pairs@)),
    {
        let mut m: Vec<(String, Value)> = Vec::new();
        let mut i: usize = 0;
        let ghost all = pairs_view(pairs@);
        assert(members(m@) =~= Seq::<(Seq<char>, Json)>::empty());
        while i < pairs.len()
            invariant
                i <= pairs.len(),
                all == pairs_view(pairs@),
                members(m@) == members_of(all.take(i as int)),
            decreases pairs.len() - i,
        {
            assert(all.take(i + 1).drop_last() =~= all.take(i as int));
            let v = pairs[i].1.clone();
            set_member(&mut m, pairs[i].0, v);
            i += 1;
        }
        assert(all.take(all.len() as int) =~= all);
        Value::Object(m)
    }
}

// ── JSON text ────────────────────────────────────────────────────────────────

/// How a character stands in a JSON string: the quote, the backslash and the
/// control characters are escaped, anything else stands for itself.
pub open spec fn json_escape(c: char) -> Seq<char> {
    if c == '"' {
        seq!['\\', '"']
    } else if c == '\\' {
        seq!['\\', '\\']
    } else if c == '\u{8}' {
        seq!['\\', 'b']
    } else if c == '\u{c}' {
        seq!['\\', 'f']
    } else if c == '\n' {
        seq!['\\', 'n']
    } else if c == '\r' {
        seq!['\\', 'r']
    } else if c == '\t' {
        seq!['\\', 't']
    } else if (c as int) < 0x20 {
        seq!['\\', 'u', '0', '0', hex_digit(c as nat / 16), hex_digit(c as nat % 16)]
    } else {
        seq![c]
    }
}

/// The characters of a string as they stand in a JSON string.
pub open spec fn json_escaped(s: Seq<char>) -> Seq<char>
    decreases s.len(),
{
    if s.len() == 0 {
        Seq::empty()
    } else {
        json_escaped(s.drop_last()) + json_escape(s.last())
    }
}

/// The JSON text of a string.
pub open spec fn json_quoted(s: Seq<char>) -> Seq<char> {
    seq!['"'] + json_escaped(s) + seq!['"']
}

/// [`serde_json::to_string`] of a string: in quotes, with the quotes, the
/// backslashes and the control characters in it escaped. Writing a string to
/// memory does not fail.
#[verifier::external_body]
fn quote(s: &str) -> (r: String)
    ensures
        r@ == json_quoted(s@),
{
    serde_json::to_string(s).unwrap_or_default()
}

/// What [`parse_string_list`] makes of a text: the strings of a JSON array of
/// strings.
pub uninterp spec fn string_list(s: Seq<char>) -> Option<Seq<Seq<char>>>;

/// [`serde_json::from_str`] of a list of strings, none where the text is no such
/// list: the strings named [`string_list`]. The text that a list is written as
/// gives that list back.
#[verifier::external_body]
pub(crate) fn parse_string_list(s: &str) -> (r: Option<Vec<String>>)
    ensures
        list_view(r) == string_list(s@),
        forall|x: Seq<Seq<char>>|
            s@ == #[trigger] json_text(json_texts(x)) ==> list_view(r) == Some(x),
{
    serde_json::from_str::<Vec<String>>(s).ok()
}

/// The strings of a list, if there is one.
pub open spec fn list_view(v: Option<Vec<String>>) -> Option<Seq<Seq<char>>> {
    match v {
        Some(t) => Some(texts(t@)),
        None => None,
    }
}

/// The compact JSON text of a value.
pub open spec fn json_text(v: Json) -> Seq<char>
    decreases v, 0nat,
{
    match v {
        Json::Null => "null"@,
        Json::Bool(b) => if b {
            "true"@
        } else {
            "false"@
        },
        Json::UInt(n) => decimal(n as nat),
        Json::NegInt(n) => decimal_int(n as int),
        Json::Float(t) => t,
        Json::Str(s) => json_quoted(s),
        Json::Array(s) => "["@ + items_text(s, s.len()) + "]"@,
        Json::Object(m) => "{"@ + members_text(m, m.len()) + "}"@,
    }
}

/// The texts of the first `n` items, with commas between them.
pub open spec fn items_text(s: Seq<Json>, n: nat) -> Seq<char>
    decreases s, n,
{
    if n == 0 || n > s.len() {
        Seq::empty()
    } else if n == 1 {
        json_text(s[0])
    } else {
        items_text(s, (n - 1) as nat) + ","@ + json_text(s[n - 1])
    }
}

/// The texts of the first `n` members, with commas between them.
pub open spec fn members_text(m: Seq<(Seq<char>, Json)>, n: nat) -> Seq<char>
    decreases m, n,
{
    if n == 0 || n > m.len() {
        Seq::empty()
    } else {
        let last = json_quoted(m[n - 1].0) + ":"@ + json_text(m[n - 1].1);
        if n == 1 {
            last
        } else {
            members_text(m, (n - 1) as nat) + ","@ + last
        }
    }
}

/// The compact JSON text of a value.
pub fn to_text(v: &Value) -> (r: String)
    ensures
        r@ == json_text(v@),
    decreases v,
{
    match v {
        Value::Null => "null".to_owned(),
        Value::Bool(b) => if *b {
            "true".to_owned()
        } else {
            "false".to_owned()
        },
        Value::UInt(n) => print_u64(*n),
        Value::NegInt(n) => print_i64(*n),
        Value::Float(t) => t.clone(),
        Value::Str(s) => quote(s.as_str()),
        Value::Array(s) => {
            let mut inner = String::new();
            let mut i: usize = 0;
            while i < s.len()
                invariant
                    i <= s.len(),
                    v == Value::Array(*s),
                    inner@ == items_text(items(s@), i as nat),
                decreases s.len() - i,
            {
                assert(decreases_to!(v => v->Array_0));
                assert(decreases_to!(s => s@));
                assert(decreases_to!(s@ => s@[i as int]));
                let t = to_text(&s[i]);
                if i > 0 {
                    inner.append(",");
                }
                inner.append(t.as_str());
                assert(inner@ =~= items_text(items(s@), (i + 1) as nat));
                i += 1;
            }
            cat3("[", inner.as_str(), "]")
        },
        Value::Object(m) => {
            let mut inner = String::new();
            let mut i: usize = 0;
            while i < m.len()
                invariant
                    i <= m.len(),
                    v == Value::Object(*m),
                    inner@ == members_text(members(m@), i as nat),
                decreases m.len() - i,
            {
                assert(decreases_to!(v => v->Object_0));
                assert(decreases_to!(m => m@));
                assert(decreases_to!(m@ => m@[i as int]));
                assert(decreases_to!(m@[i as int] => m@[i as int].1));
                let t = to_text(&m[i].1);
                let k = quote(m[i].0.as_str());
                let last = cat3(k.as_str(), ":", t.as_str());
                if i > 0 {
                    inner.append(",");
                }
                inner.append(last.as_str());
                assert(inner@ =~= members_text(members(m@), (i + 1) as nat));
                i += 1;
            }
            cat3("{", inner.as_str(), "}")
        },
    }
}

} // verus!

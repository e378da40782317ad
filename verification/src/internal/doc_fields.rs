//! The fields of a document: reading and writing one top-level field, or one
//! value at a path into the contents.
//!
//! A path is a list of segments between slashes. In an object a segment is a
//! key, in an array it is an index.

use vstd::prelude::*;
use vstd::string::*;

use crate::internal::{doc_path_or_root, path_or_root, require_str, required};
use crate::json::{find_key, lemma_member_of_with_member, member, object_of};
use crate::json::{set_member, with_member};
use crate::text::{cat2, cat3, cat5, decimal, index_value, parse_index, pieces, print_u64, same, split_char};
use crate::text::{texts, trim_end_char, trim_start_char, trimmed_end, trimmed_start};
use crate::value::{items, members, Json, Value};

verus! {

broadcast use crate::value::group_value_views;

// ── Top-level fields ─────────────────────────────────────────────────────────

/// A field of a document, named by a call.
#[derive(Debug)]
pub struct FieldRequest {
    pub path: String,
    pub name: String,
    pub field: String,
    pub value: Value,
}

/// Whether this is the field that some parameters name.
pub open spec fn is_field_request(r: Result<FieldRequest, String>, params: Json) -> bool {
    match (required(params, "name"@), required(params, "field"@)) {
        (Err(e), _) => r is Err && r->Err_0@ == e,
        (Ok(_), Err(e)) => r is Err && r->Err_0@ == e,
        (Ok(name), Ok(field)) => {
            &&& r is Ok
            &&& r->Ok_0.path@ == params.str_or("path"@, "/"@)
            &&& r->Ok_0.name@ == name
            &&& r->Ok_0.field@ == field
            &&& r->Ok_0.value@ == params.field("value"@)
        },
    }
}

/// What a call that names a field asks for; its value counts for a write.
pub fn field_request(params: &Value) -> (r: Result<FieldRequest, String>)
    ensures
        is_field_request(r, params@),
{
    let name = match require_str(params, "name") {
        Ok(s) => s,
        Err(e) => {
            return Err(e);
        },
    };
    let field = match require_str(params, "field") {
        Ok(s) => s,
        Err(e) => {
            return Err(e);
        },
    };
    Ok(
        FieldRequest {
            path: path_or_root(params).to_owned(),
            name: name.to_owned(),
            field: field.to_owned(),
            value: params.field("value"),
        },
    )
}

/// A top-level field of the contents, null where there is none.
pub fn get_field(contents: &Value, field: &str) -> (r: Value)
    ensures
        r@ == contents@.field(field@),
{
    contents.field(field)
}

/// The contents with a top-level field set. Contents that are no object are
/// replaced by one.
pub open spec fn with_top_field(contents: Json, field: Seq<char>, value: Json) -> Json {
    match contents {
        Json::Object(m) => Json::Object(with_member(m, field, value)),
        _ => object_of(seq![(field, value)]),
    }
}

pub fn set_field(contents: Value, field: &str, value: Value) -> (r: Value)
    ensures
        r@ == with_top_field(contents@, field@, value@),
{
    match contents {
        Value::Object(m) => {
            let mut m = m;
            set_member(&mut m, field, value);
            Value::Object(m)
        },
        _ => {
            let mut m: Vec<(String, Value)> = Vec::new();
            assert(members(m@) =~= Seq::<(Seq<char>, Json)>::empty());
            assert(seq![(field@, value@)].drop_last() =~= Seq::<(Seq<char>, Json)>::empty());
            proof {
                reveal_with_fuel(crate::json::members_of, 2);
            }
            set_member(&mut m, field, value);
            Value::Object(m)
        },
    }
}

/// A field that was set is read back, and every other field of an object is as
/// it was.
pub proof fn lemma_field_round_trip(contents: Json, field: Seq<char>, value: Json, other: Seq<char>)
    ensures
        with_top_field(contents, field, value).field(field) == value,
        contents is Object && other != field ==> with_top_field(contents, field, value).get(other)
            == contents.get(other),
{
    match contents {
        Json::Object(m) => {
            lemma_member_of_with_member(m, field, value, field);
            lemma_member_of_with_member(m, field, value, other);
        },
        _ => {
            crate::json::lemma_member_of_members_of(seq![(field, value)], field);
        },
    }
}

// ── Paths ────────────────────────────────────────────────────────────────────

/// The path without its slashes at both ends.
pub open spec fn path_core(path: Seq<char>) -> Seq<char> {
    trimmed_end(trimmed_start(path, '/'), '/')
}

pub open spec fn bad_segment(s: Seq<char>) -> bool {
    s.len() == 0 || s == "."@ || s == ".."@
}

pub open spec fn first_bad(p: Seq<Seq<char>>, i: int) -> int
    decreases p.len() - i,
{
    if i >= p.len() || i < 0 {
        p.len() as int
    } else if bad_segment(p[i]) {
        i
    } else {
        first_bad(p, i + 1)
    }
}

/// The segments of a path. The empty path is refused, and so is a segment that
/// is empty or a dot or two; the root has no segment.
pub open spec fn segments_of(path: Seq<char>) -> Result<Seq<Seq<char>>, Seq<char>> {
    if path.len() == 0 {
        Err("path must not be empty"@)
    } else if path_core(path).len() == 0 {
        Ok(Seq::empty())
    } else {
        let p = pieces(path_core(path), '/');
        let i = first_bad(p, 0);
        if i < p.len() {
            Err("invalid path segment '"@ + p[i] + "' in '"@ + path + "'"@)
        } else {
            Ok(p)
        }
    }
}

pub open spec fn list_of(r: Result<Vec<String>, String>) -> Result<Seq<Seq<char>>, Seq<char>> {
    match r {
        Ok(v) => Ok(texts(v@)),
        Err(e) => Err(e@),
    }
}

/// Take a path apart into its segments.
pub fn parse_path(path: &str) -> (r: Result<Vec<String>, String>)
    ensures
        list_of(r) == segments_of(path@),
{
    if path.is_empty() {
        return Err("path must not be empty".to_owned());
    }
    let left = trim_start_char(path, '/');
    let core = trim_end_char(left.as_str(), '/');
    if core.as_str().is_empty() {
        let none: Vec<String> = Vec::new();
        assert(texts(none@) =~= Seq::<Seq<char>>::empty());
        return Ok(none);
    }
    let parts = split_char(core.as_str(), '/');
    let ghost p = texts(parts@);
    let mut i: usize = 0;
    while i < parts.len()
        invariant
            i <= parts.len(),
            p == texts(parts@),
            p == pieces(path_core(path@), '/'),
            path@.len() > 0,
            path_core(path@).len() > 0,
            first_bad(p, i as int) == first_bad(p, 0),
        decreases parts.len() - i,
    {
        let seg: &str = parts[i].as_str();
        assert(p[i as int] == seg@);
        if seg.is_empty() || same(seg, ".") || same(seg, "..") {
            return Err(cat5("invalid path segment '", seg, "' in '", path, "'"));
        }
        i += 1;
    }
    Ok(parts)
}

pub open spec fn no_key(seg: Seq<char>) -> Seq<char> {
    "no key '"@ + seg + "' at this path"@
}

pub open spec fn no_index(seg: Seq<char>) -> Seq<char> {
    "array segment '"@ + seg + "' is not a valid array index"@
}

pub open spec fn out_of_bounds(i: nat) -> Seq<char> {
    "array index "@ + decimal(i) + " out of bounds"@
}

/// The value one segment below a value.
pub open spec fn child(v: Json, seg: Seq<char>) -> Result<Json, Seq<char>> {
    match v {
        Json::Object(m) => match member(m, seg) {
            Some(c) => Ok(c),
            None => Err(no_key(seg)),
        },
        Json::Array(a) => match index_value(seg) {
            Some(i) => if i < a.len() {
                Ok(a[i as int])
            } else {
                Err(out_of_bounds(i))
            },
            None => Err(no_index(seg)),
        },
        _ => Err("cannot descend into a non-container value"@),
    }
}

/// The value at a path.
pub open spec fn value_at(v: Json, p: Seq<Seq<char>>) -> Result<Json, Seq<char>>
    decreases p.len(),
{
    if p.len() == 0 {
        Ok(v)
    } else {
        match child(v, p[0]) {
            Ok(c) => value_at(c, p.skip(1)),
            Err(e) => Err(e),
        }
    }
}

pub open spec fn ref_of(r: Result<&Value, String>) -> Result<Json, Seq<char>> {
    match r {
        Ok(v) => Ok(v@),
        Err(e) => Err(e@),
    }
}

pub open spec fn owned_of(r: Result<Value, String>) -> Result<Json, Seq<char>> {
    match r {
        Ok(v) => Ok(v@),
        Err(e) => Err(e@),
    }
}

fn out_of_bounds_text(i: usize) -> (r: String)
    ensures
        r@ == out_of_bounds(i as nat),
{
    let d = print_u64(i as u64);
    cat3("array index ", d.as_str(), " out of bounds")
}

/// Read the value at a path.
pub fn value_at_path<'a>(value: &'a Value, segments: &Vec<String>) -> (r: Result<&'a Value, String>)
    ensures
        ref_of(r) == value_at(value@, texts(segments@)),
{
    let mut cur = value;
    let ghost p = texts(segments@);
    let mut i: usize = 0;
    assert(p.skip(0) =~= p);
    while i < segments.len()
        invariant
            i <= segments.len(),
            p == texts(segments@),
            value_at(cur@, p.skip(i as int)) == value_at(value@, p),
        decreases segments.len() - i,
    {
        let seg: &str = segments[i].as_str();
        assert(p.skip(i as int)[0] == seg@);
        assert(p.skip(i as int).skip(1) =~= p.skip(i + 1));
        cur =
        match cur {
            Value::Object(m) => {
                let k: usize = find_key(m, seg);
                if k < m.len() {
                    &m[k].1
                } else {
                    return Err(cat3("no key '", seg, "' at this path"));
                }
            },
            Value::Array(a) => match parse_index(seg) {
                Some(k) => if k < a.len() {
                    &a[k]
                } else {
                    return Err(out_of_bounds_text(k));
                },
                None => {
                    return Err(cat3("array segment '", seg, "' is not a valid array index"));
                },
            },
            _ => {
                return Err("cannot descend into a non-container value".to_owned());
            },
        };
        i += 1;
    }
    assert(p.skip(p.len() as int).len() == 0);
    Ok(cur)
}

/// A value with what is one segment below it replaced.
pub open spec fn with_child(v: Json, seg: Seq<char>, c: Json) -> Json {
    match v {
        Json::Object(m) => Json::Object(with_member(m, seg, c)),
        Json::Array(a) => match index_value(seg) {
            Some(i) => Json::Array(a.update(i as int, c)),
            None => v,
        },
        _ => v,
    }
}

/// A value with what is at a path replaced. The last segment may be a new key of
/// an object; everything above it has to be there.
pub open spec fn set_at(v: Json, p: Seq<Seq<char>>, new: Json) -> Result<Json, Seq<char>>
    decreases p.len(),
{
    if p.len() == 0 {
        Ok(new)
    } else if p.len() == 1 {
        match v {
            Json::Object(_) => Ok(with_child(v, p[0], new)),
            Json::Array(_) => match child(v, p[0]) {
                Ok(_) => Ok(with_child(v, p[0], new)),
                Err(e) => Err(e),
            },
            _ => Err("parent is a non-container; cannot set a key/index on it"@),
        }
    } else {
        match child(v, p[0]) {
            Ok(c) => match set_at(c, p.skip(1), new) {
                Ok(c2) => Ok(with_child(v, p[0], c2)),
                Err(e) => Err(e),
            },
            Err(e) => Err(e),
        }
    }
}

fn set_from(value: Value, segments: &Vec<String>, i: usize, new: Value) -> (r: Result<Value, String>)
    requires
        i <= segments.len(),
    ensures
        owned_of(r) == set_at(value@, texts(segments@).skip(i as int), new@),
    decreases segments.len() - i,
{
    let ghost p = texts(segments@).skip(i as int);
    if i == segments.len() {
        return Ok(new);
    }
    let seg: &str = segments[i].as_str();
    assert(p[0] == seg@);
    assert(p.skip(1) =~= texts(segments@).skip(i + 1));
    if i + 1 == segments.len() {
        return match value {
            Value::Object(m) => {
                let mut m = m;
                set_member(&mut m, seg, new);
                Ok(Value::Object(m))
            },
            Value::Array(a) => match parse_index(seg) {
                Some(k) => if k < a.len() {
                    let ghost before = items(a@);
                    let mut a = a;
                    let ghost n = new@;
                    a.set(k, new);
                    assert(items(a@) =~= before.update(k as int, n));
                    Ok(Value::Array(a))
                } else {
                    Err(out_of_bounds_text(k))
                },
                None => Err(cat3("array segment '", seg, "' is not a valid array index")),
            },
            _ => Err("parent is a non-container; cannot set a key/index on it".to_owned()),
        };
    }
    match value {
        Value::Object(m) => {
            let k: usize = find_key(&m, seg);
            if k >= m.len() {
                return Err(cat3("no key '", seg, "' at this path"));
            }
            let mut m = m;
            let below = m[k].1.clone();
            match set_from(below, segments, i + 1, new) {
                Ok(c) => {
                    set_member(&mut m, seg, c);
                    Ok(Value::Object(m))
                },
                Err(e) => Err(e),
            }
        },
        Value::Array(a) => match parse_index(seg) {
            Some(k) => {
                if k >= a.len() {
                    return Err(out_of_bounds_text(k));
                }
                let mut a = a;
                let ghost before = items(a@);
                let below = a.remove(k);
                assert(below@ == before[k as int]);
                match set_from(below, segments, i + 1, new) {
                    Ok(c) => {
                        let ghost cv = c@;
                        a.insert(k, c);
                        assert(items(a@) =~= before.update(k as int, cv));
                        Ok(Value::Array(a))
                    },
                    Err(e) => Err(e),
                }
            },
            None => Err(cat3("array segment '", seg, "' is not a valid array index")),
        },
        _ => Err("cannot descend into a non-container value".to_owned()),
    }
}

/// Replace the value at a path.
pub fn set_at_path(value: Value, segments: &Vec<String>, new: Value) -> (r: Result<Value, String>)
    ensures
        owned_of(r) == set_at(value@, texts(segments@), new@),
{
    assert(texts(segments@).skip(0) =~= texts(segments@));
    set_from(value, segments, 0, new)
}

/// What is put where a segment is missing: an array where the next segment is an
/// index, an object else.
pub open spec fn placeholder_for(p: Seq<Seq<char>>) -> Json {
    if p.len() > 1 && index_value(p[1]) is Some {
        Json::Array(Seq::empty())
    } else {
        Json::Object(Seq::empty())
    }
}

/// A list that is long enough for an index, with nulls at its end.
pub open spec fn padded(a: Seq<Json>, i: nat) -> Seq<Json> {
    if i < a.len() {
        a
    } else {
        a + Seq::new((i + 1 - a.len()) as nat, |j: int| Json::Null)
    }
}

/// What stands at an index of a list before the rest of a path is followed: the
/// item, or what is put where it is missing. A missing item at the end of the
/// path is null.
pub open spec fn item_or_placeholder(a: Seq<Json>, i: nat, p: Seq<Seq<char>>) -> Json {
    if i >= a.len() && p.len() > 1 {
        placeholder_for(p)
    } else {
        padded(a, i)[i as int]
    }
}

/// A value in which every segment of a path is there.
pub open spec fn with_parents(v: Json, p: Seq<Seq<char>>) -> Result<Json, Seq<char>>
    decreases p.len(),
{
    if p.len() == 0 {
        Ok(v)
    } else {
        match v {
            Json::Object(m) => {
                let c = match member(m, p[0]) {
                    Some(c) => c,
                    None => placeholder_for(p),
                };
                match with_parents(c, p.skip(1)) {
                    Ok(c2) => Ok(Json::Object(with_member(m, p[0], c2))),
                    Err(e) => Err(e),
                }
            },
            Json::Array(a) => match index_value(p[0]) {
                Some(i) => {
                    let b = padded(a, i);
                    match with_parents(item_or_placeholder(a, i, p), p.skip(1)) {
                        Ok(c2) => Ok(Json::Array(b.update(i as int, c2))),
                        Err(e) => Err(e),
                    }
                },
                None => Err(no_index(p[0])),
            },
            _ => Err("cannot descend into a non-container value"@),
        }
    }
}

/// Whether every index of a path leaves room for an array to hold it.
pub open spec fn indices_fit(p: Seq<Seq<char>>) -> bool {
    forall|i: int| 0 <= i < p.len() ==> index_value(#[trigger] p[i]) != Some(usize::MAX as nat)
}

fn placeholder(segments: &Vec<String>, i: usize) -> (r: Value)
    requires
        i < segments.len(),
    ensures
        r@ == placeholder_for(texts(segments@).skip(i as int)),
{
    let ghost p = texts(segments@).skip(i as int);
    let next_is_index = if i + 1 < segments.len() {
        assert(p[1] == segments@[i + 1]@);
        parse_index(segments[i + 1].as_str()).is_some()
    } else {
        false
    };
    if next_is_index {
        let none: Vec<Value> = Vec::new();
        assert(items(none@) =~= Seq::<Json>::empty());
        Value::Array(none)
    } else {
        let none: Vec<(String, Value)> = Vec::new();
        assert(members(none@) =~= Seq::<(Seq<char>, Json)>::empty());
        Value::Object(none)
    }
}

fn create_from(value: Value, segments: &Vec<String>, i: usize) -> (r: Result<Value, String>)
    requires
        i <= segments.len(),
        indices_fit(texts(segments@)),
    ensures
        owned_of(r) == with_parents(value@, texts(segments@).skip(i as int)),
    decreases segments.len() - i,
{
    let ghost p = texts(segments@).skip(i as int);
    if i == segments.len() {
        return Ok(value);
    }
    let seg: &str = segments[i].as_str();
    assert(p[0] == seg@);
    assert(texts(segments@)[i as int] == seg@);
    assert(p.skip(1) =~= texts(segments@).skip(i + 1));
    match value {
        Value::Object(m) => {
            let mut m = m;
            let k: usize = find_key(&m, seg);
            let below = if k < m.len() {
                m[k].1.clone()
            } else {
                placeholder(segments, i)
            };
            match create_from(below, segments, i + 1) {
                Ok(c) => {
                    set_member(&mut m, seg, c);
                    Ok(Value::Object(m))
                },
                Err(e) => Err(e),
            }
        },
        Value::Array(a) => match parse_index(seg) {
            Some(k) => {
                assert(k < usize::MAX);
                let mut a = a;
                let missing = a.len() <= k;
                let ghost start = items(a@);
                let ghost whole = padded(start, k as nat);
                while a.len() <= k
                    invariant
                        k < usize::MAX,
                        whole == padded(start, k as nat),
                        items(a@).len() <= whole.len(),
                        items(a@) == whole.take(items(a@).len() as int),
                        start.len() <= a@.len(),
                        a@.len() <= k + 1 || a@.len() == start.len(),
                    decreases k + 1 - a.len(),
                {
                    let ghost before = items(a@);
                    a.push(Value::Null);
                    assert(items(a@) =~= before.push(Json::Null));
                    assert(items(a@) =~= whole.take(items(a@).len() as int));
                }
                assert(items(a@) =~= whole);
                let held = a.remove(k);
                assert(held@ == whole[k as int]);
                let below = if missing && i + 1 < segments.len() {
                    placeholder(segments, i)
                } else {
                    held
                };
                match create_from(below, segments, i + 1) {
                    Ok(c) => {
                        let ghost cv = c@;
                        a.insert(k, c);
                        assert(items(a@) =~= whole.update(k as int, cv));
                        Ok(Value::Array(a))
                    },
                    Err(e) => Err(e),
                }
            },
            None => Err(cat3("array segment '", seg, "' is not a valid array index")),
        },
        _ => Err("cannot descend into a non-container value".to_owned()),
    }
}

/// Create the containers that a path is missing, in objects and in arrays, which
/// are padded with nulls.
pub fn create_missing_parents(value: Value, segments: &Vec<String>) -> (r: Result<Value, String>)
    requires
        indices_fit(texts(segments@)),
    ensures
        owned_of(r) == with_parents(value@, texts(segments@)),
{
    assert(texts(segments@).skip(0) =~= texts(segments@));
    create_from(value, segments, 0)
}

// ── Fields at a path ─────────────────────────────────────────────────────────

/// A value inside a document, named by a call.
#[derive(Debug)]
pub struct PathRequest {
    pub doc_path: String,
    pub name: String,
    pub path: String,
    pub segments: Vec<String>,
    pub create: bool,
    pub value: Value,
}

/// Whether this is the place in a document that some parameters name.
pub open spec fn is_path_request(r: Result<PathRequest, String>, params: Json) -> bool {
    match (required(params, "name"@), required(params, "path"@)) {
        (Err(e), _) => r is Err && r->Err_0@ == e,
        (Ok(_), Err(e)) => r is Err && r->Err_0@ == e,
        (Ok(name), Ok(path)) => match segments_of(path) {
            Err(e) => r is Err && r->Err_0@ == e,
            Ok(segments) => {
                &&& r is Ok
                &&& r->Ok_0.doc_path@ == params.str_or("doc_path"@, "/"@)
                &&& r->Ok_0.name@ == name
                &&& r->Ok_0.path@ == path
                &&& texts(r->Ok_0.segments@) == segments
                &&& r->Ok_0.create == (params.get_bool("create"@) == Some(true))
                &&& r->Ok_0.value@ == params.field("value"@)
            },
        },
    }
}

/// What a call that names a value inside a document asks for; whether to create
/// and the value count for a write.
pub fn path_request(params: &Value) -> (r: Result<PathRequest, String>)
    ensures
        is_path_request(r, params@),
{
    let name = match require_str(params, "name") {
        Ok(s) => s,
        Err(e) => {
            return Err(e);
        },
    };
    let path = match require_str(params, "path") {
        Ok(s) => s,
        Err(e) => {
            return Err(e);
        },
    };
    let segments = match parse_path(path) {
        Ok(s) => s,
        Err(e) => {
            return Err(e);
        },
    };
    let create = match params.get_bool("create") {
        Some(b) => b,
        None => false,
    };
    Ok(
        PathRequest {
            doc_path: doc_path_or_root(params).to_owned(),
            name: name.to_owned(),
            path: path.to_owned(),
            segments,
            create,
            value: params.field("value"),
        },
    )
}

/// The value at a path, null where the path leads nowhere.
pub fn get_field_at_path(contents: &Value, segments: &Vec<String>) -> (r: Value)
    ensures
        r@ == (match value_at(contents@, texts(segments@)) {
            Ok(v) => v,
            Err(_) => Json::Null,
        }),
{
    match value_at_path(contents, segments) {
        Ok(v) => v.clone(),
        Err(_) => Value::Null,
    }
}

pub open spec fn prefixed(r: Result<Json, Seq<char>>, prefix: Seq<char>) -> Result<Json, Seq<char>> {
    match r {
        Ok(v) => Ok(v),
        Err(e) => Err(prefix + e),
    }
}

/// The contents with the value at a path set. A path that leads nowhere is an
/// error, or is created where that is asked for.
pub open spec fn with_field_at(
    contents: Json,
    p: Seq<Seq<char>>,
    path: Seq<char>,
    name: Seq<char>,
    create: bool,
    value: Json,
) -> Result<Json, Seq<char>> {
    if value_at(contents, p) is Ok {
        prefixed(set_at(contents, p, value), "set_field_at_path: "@)
    } else if !create {
        Err(
            "path '"@ + path + "' does not exist in document '"@ + name
                + "' (pass create:true to create it)"@,
        )
    } else {
        match with_parents(contents, p) {
            Ok(v) => prefixed(set_at(v, p, value), "set_field_at_path after create: "@),
            Err(e) => Err(e),
        }
    }
}

/// Set the value at a path into the contents of a document.
pub fn set_field_at_path(contents: Value, request: PathRequest) -> (r: Result<Value, String>)
    requires
        request.create ==> indices_fit(texts(request.segments@)),
    ensures
        owned_of(r) == with_field_at(
            contents@,
            texts(request.segments@),
            request.path@,
            request.name@,
            request.create,
            request.value@,
        ),
{
    let exists_now = value_at_path(&contents, &request.segments).is_ok();
    if exists_now {
        return match set_at_path(contents, &request.segments, request.value) {
            Ok(v) => Ok(v),
            Err(e) => Err(cat2("set_field_at_path: ", e.as_str())),
        };
    }
    if !request.create {
        return Err(
            cat5(
                "path '",
                request.path.as_str(),
                "' does not exist in document '",
                request.name.as_str(),
                "' (pass create:true to create it)",
            ),
        );
    }
    let grown = match create_missing_parents(contents, &request.segments) {
        Ok(v) => v,
        Err(e) => {
            return Err(e);
        },
    };
    match set_at_path(grown, &request.segments, request.value) {
        Ok(v) => Ok(v),
        Err(e) => Err(cat2("set_field_at_path after create: ", e.as_str())),
    }
}

// ── Laws ─────────────────────────────────────────────────────────────────────

proof fn lemma_child_of_with_child(v: Json, seg: Seq<char>, c: Json)
    requires
        v is Object || child(v, seg) is Ok,
    ensures
        child(with_child(v, seg, c), seg) == Ok::<Json, Seq<char>>(c),
{
    if let Json::Object(m) = v {
        lemma_member_of_with_member(m, seg, c, seg);
    }
}

/// A value that was set at a path is read back from there.
pub proof fn lemma_set_then_get(v: Json, p: Seq<Seq<char>>, new: Json)
    requires
        set_at(v, p, new) is Ok,
    ensures
        value_at(set_at(v, p, new)->Ok_0, p) == Ok::<Json, Seq<char>>(new),
    decreases p.len(),
{
    reveal_with_fuel(value_at, 2);
    if p.len() == 1 {
        lemma_child_of_with_child(v, p[0], new);
    } else if p.len() > 1 {
        let c = child(v, p[0])->Ok_0;
        lemma_set_then_get(c, p.skip(1), new);
        let c2 = set_at(c, p.skip(1), new)->Ok_0;
        lemma_child_of_with_child(v, p[0], c2);
    }
}

/// A path that leads somewhere can be written.
pub proof fn lemma_existing_path_can_be_set(v: Json, p: Seq<Seq<char>>, new: Json)
    requires
        value_at(v, p) is Ok,
    ensures
        set_at(v, p, new) is Ok,
    decreases p.len(),
{
    if p.len() > 1 {
        lemma_existing_path_can_be_set(child(v, p[0])->Ok_0, p.skip(1), new);
    }
}

/// Once its containers are created, a path leads somewhere.
pub proof fn lemma_created_path_exists(v: Json, p: Seq<Seq<char>>)
    requires
        with_parents(v, p) is Ok,
    ensures
        value_at(with_parents(v, p)->Ok_0, p) is Ok,
    decreases p.len(),
{
    if p.len() > 0 {
        match v {
            Json::Object(m) => {
                let c = match member(m, p[0]) {
                    Some(c) => c,
                    None => placeholder_for(p),
                };
                lemma_created_path_exists(c, p.skip(1));
                let c2 = with_parents(c, p.skip(1))->Ok_0;
                lemma_member_of_with_member(m, p[0], c2, p[0]);
            },
            Json::Array(a) => {
                let i = index_value(p[0])->0;
                lemma_created_path_exists(item_or_placeholder(a, i, p), p.skip(1));
            },
            _ => {},
        }
    }
}

/// Whether two segments lead to the same place below a value: equal keys of an
/// object, one index of a list however it is written.
pub open spec fn same_step(v: Json, a: Seq<char>, b: Seq<char>) -> bool {
    a == b || (v is Array && index_value(a) is Some && index_value(a) == index_value(b))
}

/// Whether two paths part on their way down a value, so that neither leads
/// through the place that the other leads to.
pub open spec fn parts(v: Json, p: Seq<Seq<char>>, q: Seq<Seq<char>>) -> bool
    decreases p.len(),
{
    if p.len() == 0 || q.len() == 0 {
        false
    } else if !same_step(v, p[0], q[0]) {
        true
    } else {
        match child(v, p[0]) {
            Ok(c) => parts(c, p.skip(1), q.skip(1)),
            Err(_) => false,
        }
    }
}

proof fn lemma_other_child(v: Json, seg: Seq<char>, c: Json, other: Seq<char>)
    requires
        v is Object || child(v, seg) is Ok,
        !same_step(v, seg, other),
    ensures
        child(with_child(v, seg, c), other) == child(v, other),
{
    if let Json::Object(m) = v {
        lemma_member_of_with_member(m, seg, c, other);
    }
}

/// Setting a value leaves what is at every path that parts from its own, and
/// those that lead nowhere still do.
pub proof fn lemma_set_keeps_the_rest(v: Json, p: Seq<Seq<char>>, new: Json, q: Seq<Seq<char>>)
    requires
        set_at(v, p, new) is Ok,
        parts(v, p, q),
    ensures
        value_at(set_at(v, p, new)->Ok_0, q) == value_at(v, q),
    decreases p.len(),
{
    let after = set_at(v, p, new)->Ok_0;
    if !same_step(v, p[0], q[0]) {
        let c = if p.len() == 1 {
            new
        } else {
            set_at(child(v, p[0])->Ok_0, p.skip(1), new)->Ok_0
        };
        assert(after == with_child(v, p[0], c));
        lemma_other_child(v, p[0], c, q[0]);
    } else {
        let c = child(v, p[0])->Ok_0;
        reveal_with_fuel(parts, 2);
        let c2 = set_at(c, p.skip(1), new)->Ok_0;
        lemma_set_keeps_the_rest(c, p.skip(1), new, q.skip(1));
        lemma_child_of_with_child(v, p[0], c2);
        assert(child(v, q[0]) == child(v, p[0]));
        assert(child(after, q[0]) == child(after, p[0]));
    }
}

/// Creating the containers of a path leaves every value that is at another, and
/// the two still part.
pub proof fn lemma_create_keeps_the_rest(v: Json, p: Seq<Seq<char>>, q: Seq<Seq<char>>)
    requires
        with_parents(v, p) is Ok,
        parts(v, p, q),
        value_at(v, q) is Ok,
    ensures
        value_at(with_parents(v, p)->Ok_0, q) == value_at(v, q),
        parts(with_parents(v, p)->Ok_0, p, q),
    decreases p.len(),
{
    let after = with_parents(v, p)->Ok_0;
    let same = same_step(v, p[0], q[0]);
    assert(same_step(after, p[0], q[0]) == same);
    match v {
        Json::Object(m) => {
            let c = match member(m, p[0]) {
                Some(c) => c,
                None => placeholder_for(p),
            };
            let c2 = with_parents(c, p.skip(1))->Ok_0;
            lemma_member_of_with_member(m, p[0], c2, q[0]);
            if same {
                lemma_create_keeps_the_rest(c, p.skip(1), q.skip(1));
            }
        },
        Json::Array(a) => {
            let i = index_value(p[0])->0;
            let b = padded(a, i);
            let j = index_value(q[0])->0;
            assert(b[j as int] == a[j as int]);
            if same {
                lemma_create_keeps_the_rest(item_or_placeholder(a, i, p), p.skip(1), q.skip(1));
            }
        },
        _ => {},
    }
}

/// A write that may create its path fails only where the path leads through a
/// value that holds nothing, and then says so: once the containers are there,
/// the write goes through, reads back, and keeps every value at another path.
pub proof fn lemma_created_write(
    contents: Json,
    p: Seq<Seq<char>>,
    path: Seq<char>,
    name: Seq<char>,
    value: Json,
)
    ensures
        with_field_at(contents, p, path, name, true, value) is Ok <==> (value_at(contents, p) is Ok
            || with_parents(contents, p) is Ok),
        with_field_at(contents, p, path, name, true, value) is Ok ==> value_at(
            with_field_at(contents, p, path, name, true, value)->Ok_0,
            p,
        ) == Ok::<Json, Seq<char>>(value),
{
    if value_at(contents, p) is Ok {
        lemma_existing_path_can_be_set(contents, p, value);
        lemma_set_then_get(contents, p, value);
    } else if with_parents(contents, p) is Ok {
        let v = with_parents(contents, p)->Ok_0;
        lemma_created_path_exists(contents, p);
        lemma_existing_path_can_be_set(v, p, value);
        lemma_set_then_get(v, p, value);
    }
}

/// A write keeps every value that is at a path that parts from its own, whether
/// or not it creates anything.
pub proof fn lemma_write_keeps_the_rest(
    contents: Json,
    p: Seq<Seq<char>>,
    path: Seq<char>,
    name: Seq<char>,
    create: bool,
    value: Json,
    q: Seq<Seq<char>>,
)
    requires
        with_field_at(contents, p, path, name, create, value) is Ok,
        parts(contents, p, q),
        value_at(contents, q) is Ok,
    ensures
        value_at(with_field_at(contents, p, path, name, create, value)->Ok_0, q) == value_at(
            contents,
            q,
        ),
{
    if value_at(contents, p) is Ok {
        lemma_set_keeps_the_rest(contents, p, value, q);
    } else {
        lemma_create_keeps_the_rest(contents, p, q);
        lemma_set_keeps_the_rest(with_parents(contents, p)->Ok_0, p, value, q);
    }
}

} // verus!

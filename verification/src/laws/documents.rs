//! Fields of documents: which places there are, and what is read from and written to
//! them.

use vstd::prelude::*;
use vstd::string::*;

use crate::internal::doc_fields::{bad_segment, child, first_bad, is_field_request, is_path_request};
use crate::internal::doc_fields::{lemma_existing_path_can_be_set, path_core, segments_of, value_at};
use crate::internal::doc_fields::{with_field_at, with_parents, FieldRequest, PathRequest};
use crate::json::lemma_member_of_with_member;
use crate::laws::texts::{lemma_one_piece, lemma_pieces_are_apart};
use crate::text::{decimal, index_value, joined, pieces, texts, trimmed_end, trimmed_start};
use crate::value::Json;

verus! {

// ── Requests ─────────────────────────────────────────────────────────────────

/// A field is named with its document, which is below the root where no path is
/// given.
pub proof fn lemma_field_requests(r: Result<FieldRequest, String>, params: Json)
    requires
        is_field_request(r, params),
    ensures
        r is Ok <==> params.get_str("name"@) is Some && params.get_str("field"@) is Some,
        r matches Ok(f) ==> {
            &&& params.get_str("name"@) == Some(f.name@)
            &&& params.get_str("field"@) == Some(f.field@)
            &&& (params.get_str("path"@) matches Some(p) ==> f.path@ == p)
            &&& (params.get_str("path"@) is None ==> f.path@ == "/"@)
            &&& (params.get("value"@) matches Some(v) ==> f.value@ == v)
            &&& (params.get("value"@) is None ==> f.value@ == Json::Null)
        },
{
}

/// A place in a document is named with the document and a path that can be followed;
/// it is created only where that is asked for.
pub proof fn lemma_path_requests(r: Result<PathRequest, String>, params: Json)
    requires
        is_path_request(r, params),
    ensures
        r is Ok <==> params.get_str("name"@) is Some && (params.get_str("path"@) matches Some(p)
            && segments_of(p) is Ok),
        r matches Ok(f) ==> {
            &&& params.get_str("name"@) == Some(f.name@)
            &&& params.get_str("path"@) == Some(f.path@)
            &&& segments_of(f.path@) == Ok::<Seq<Seq<char>>, Seq<char>>(texts(f.segments@))
            &&& (f.create <==> params.get("create"@) == Some(Json::Bool(true)))
            &&& (params.get_str("doc_path"@) matches Some(p) ==> f.doc_path@ == p)
            &&& (params.get_str("doc_path"@) is None ==> f.doc_path@ == "/"@)
            &&& (params.get("value"@) matches Some(v) ==> f.value@ == v)
            &&& (params.get("value"@) is None ==> f.value@ == Json::Null)
        },
{
}

// ── Paths ────────────────────────────────────────────────────────────────────

/// Whether a text can be a step of a path.
pub open spec fn is_step(s: Seq<char>) -> bool {
    s.len() > 0 && s != "."@ && s != ".."@ && !s.contains('/')
}

pub open spec fn are_steps(p: Seq<Seq<char>>) -> bool {
    forall|i: int| 0 <= i < p.len() ==> is_step(#[trigger] p[i])
}

proof fn lemma_joined_steps(p: Seq<Seq<char>>)
    requires
        p.len() > 0,
        are_steps(p),
    ensures
        pieces(joined(p, seq!['/']), '/') == p,
        joined(p, seq!['/']).len() > 0,
        joined(p, seq!['/'])[0] != '/',
        joined(p, seq!['/']).last() != '/',
    decreases p.len(),
{
    let all = joined(p, seq!['/']);
    let last = p.last();
    assert(is_step(p[p.len() - 1]));
    assert(last.contains(last[last.len() - 1]));
    if p.len() == 1 {
        assert(all == last);
        lemma_one_piece(last, '/');
        assert(pieces(all, '/') =~= p);
        assert(last.contains(last[0]));
    } else {
        let front = p.drop_last();
        assert forall|i: int| 0 <= i < front.len() implies is_step(#[trigger] front[i]) by {
            assert(front[i] == p[i]);
        }
        lemma_joined_steps(front);
        let a = joined(front, seq!['/']);
        assert(all =~= a.push('/') + last);
        lemma_pieces_are_apart(a, '/', last);
        lemma_one_piece(last, '/');
        assert(pieces(all, '/') =~= p);
        assert(all[0] == a[0]);
        assert(all.last() == last.last());
    }
}

proof fn lemma_no_bad(p: Seq<Seq<char>>, i: int)
    requires
        0 <= i <= p.len(),
        are_steps(p),
    ensures
        first_bad(p, i) == p.len(),
    decreases p.len() - i,
{
    if i < p.len() {
        assert(is_step(p[i]));
        lemma_no_bad(p, i + 1);
    }
}

/// A path of steps is followed step by step, with or without a slash in front of it
/// and behind it. A slash alone is the whole document.
pub proof fn lemma_paths_are_followed(p: Seq<Seq<char>>)
    requires
        p.len() > 0,
        are_steps(p),
    ensures
        ({
            let s = joined(p, seq!['/']);
            &&& segments_of(s) == Ok::<Seq<Seq<char>>, Seq<char>>(p)
            &&& segments_of(seq!['/'] + s) == Ok::<Seq<Seq<char>>, Seq<char>>(p)
            &&& segments_of(s + seq!['/']) == Ok::<Seq<Seq<char>>, Seq<char>>(p)
            &&& segments_of(seq!['/'] + s + seq!['/']) == Ok::<Seq<Seq<char>>, Seq<char>>(p)
        }),
        segments_of(seq!['/']) == Ok::<Seq<Seq<char>>, Seq<char>>(Seq::empty()),
        segments_of(Seq::empty()) is Err,
{
    let s = joined(p, seq!['/']);
    lemma_joined_steps(p);
    lemma_no_bad(p, 0);
    reveal_with_fuel(trimmed_start, 2);
    reveal_with_fuel(trimmed_end, 2);
    let b = seq!['/'] + s;
    let c = s + seq!['/'];
    let d = seq!['/'] + s + seq!['/'];
    assert(b.skip(1) =~= s);
    assert(trimmed_start(b, '/') == s);
    assert(c.drop_last() =~= s);
    assert(trimmed_start(c, '/') == c);
    assert(trimmed_end(c, '/') == s);
    assert(d.skip(1) =~= c);
    assert(trimmed_start(d, '/') == c);
    let e = seq!['/'];
    assert(e.skip(1) =~= Seq::<char>::empty());
}

proof fn lemma_first_bad(p: Seq<Seq<char>>, i: int)
    requires
        0 <= i <= p.len(),
    ensures
        first_bad(p, i) == p.len() <==> forall|j: int|
            i <= j < p.len() ==> !bad_segment(#[trigger] p[j]),
        i <= first_bad(p, i) <= p.len(),
    decreases p.len() - i,
{
    if i < p.len() && !bad_segment(p[i]) {
        lemma_first_bad(p, i + 1);
    }
}

/// A path that steps nowhere, or up, is refused: every step of one that is not is some
/// text of its own.
pub proof fn lemma_no_path_goes_up(path: Seq<char>, i: int)
    ensures
        segments_of(path) matches Ok(p) ==> (0 <= i < p.len() ==> p[i].len() > 0 && p[i] != "."@
            && p[i] != ".."@),
{
    lemma_first_bad(pieces(path_core(path), '/'), 0);
}

// ── Reading and writing ──────────────────────────────────────────────────────

/// A step into an object is by key, a step into an array by number, and there is no
/// step into anything else.
pub proof fn lemma_steps(m: Seq<(Seq<char>, Json)>, a: Seq<Json>, v: Json, k: Seq<char>, i: nat)
    requires
        i <= usize::MAX,
    ensures
        Json::Object(m).get(k) matches Some(x) ==> child(Json::Object(m), k) == Ok::<
            Json,
            Seq<char>,
        >(x),
        Json::Object(m).get(k) is None ==> child(Json::Object(m), k) is Err,
        i < a.len() ==> child(Json::Array(a), decimal(i)) == Ok::<Json, Seq<char>>(a[i as int]),
        i >= a.len() ==> child(Json::Array(a), decimal(i)) is Err,
        index_value(k) is None ==> child(Json::Array(a), k) is Err,
        !(v is Object) && !(v is Array) ==> child(v, k) is Err,
{
    crate::laws::texts::lemma_index(i, k);
}

/// A place is reached step by step.
pub proof fn lemma_places(v: Json, k: Seq<char>, p: Seq<Seq<char>>)
    ensures
        value_at(v, Seq::empty()) == Ok::<Json, Seq<char>>(v),
        child(v, k) matches Ok(c) ==> value_at(v, seq![k] + p) == value_at(c, p),
        child(v, k) is Err ==> value_at(v, seq![k] + p) is Err,
{
    assert((seq![k] + p).skip(1) =~= p);
}

/// A write to a place that is there succeeds; one to a place that is not is refused
/// unless it may create the place.
pub proof fn lemma_writes_create_only_if_asked(
    contents: Json,
    p: Seq<Seq<char>>,
    path: Seq<char>,
    name: Seq<char>,
    create: bool,
    value: Json,
)
    ensures
        value_at(contents, p) is Ok ==> with_field_at(contents, p, path, name, create, value) is Ok,
        value_at(contents, p) is Err ==> with_field_at(contents, p, path, name, false, value)
            is Err,
{
    if value_at(contents, p) is Ok {
        lemma_existing_path_can_be_set(contents, p, value);
    }
}

/// What is created on the way to a place is an array where the next step is a number,
/// else an object.
pub proof fn lemma_what_is_created(m: Seq<(Seq<char>, Json)>, k: Seq<char>, next: Seq<char>)
    requires
        Json::Object(m).get(k) is None,
    ensures
        with_parents(Json::Object(m), seq![k, next]) matches Ok(v) ==> {
            &&& (index_value(next) is Some ==> v.field(k) is Array)
            &&& (index_value(next) is None ==> v.field(k) is Object)
        },
{
    let p = seq![k, next];
    reveal_with_fuel(with_parents, 3);
    assert(p.skip(1) =~= seq![next]);
    assert(p.skip(1).skip(1) =~= Seq::<Seq<char>>::empty());
    if let Ok(v) = with_parents(Json::Object(m), p) {
        let c = crate::internal::doc_fields::placeholder_for(p);
        let c2 = with_parents(c, p.skip(1))->Ok_0;
        lemma_member_of_with_member(m, k, c2, k);
        assert(v.field(k) == c2);
    }
}

} // verus!

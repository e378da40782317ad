//! URL templates: text with named holes.

use vstd::prelude::*;
use vstd::string::*;

use crate::dispatcher::webhooks::{defaults_filled, object_members, params_filled, target_url};
use crate::dispatcher::webhooks::url_text;
use crate::execution::{config_get, config_str, filled, path_keys, placeholder, webhook_url};
use crate::json::{key_index, lemma_key_index};
use crate::text::{occurs_at, occurs_in, replaced};
use crate::value::Json;

verus! {

/// A part of a template: text that stands for itself, or a hole with a name.
pub enum Part {
    Text(Seq<char>),
    Hole(Seq<char>),
}

/// Whether a text holds neither kind of brace.
pub open spec fn brace_free(s: Seq<char>) -> bool {
    forall|i: int| 0 <= i < s.len() ==> #[trigger] s[i] != '{' && s[i] != '}'
}

pub open spec fn plain(p: Part) -> bool {
    match p {
        Part::Text(t) => brace_free(t),
        Part::Hole(k) => brace_free(k),
    }
}

pub open spec fn all_plain(parts: Seq<Part>) -> bool {
    forall|i: int| 0 <= i < parts.len() ==> plain(#[trigger] parts[i])
}

pub open spec fn part_text(p: Part) -> Seq<char> {
    match p {
        Part::Text(t) => t,
        Part::Hole(k) => seq!['{'] + k + seq!['}'],
    }
}

/// The text of a template, its holes written as their names in braces.
pub open spec fn rendered(parts: Seq<Part>) -> Seq<char>
    decreases parts.len(),
{
    if parts.len() == 0 {
        Seq::empty()
    } else {
        part_text(parts[0]) + rendered(parts.skip(1))
    }
}

/// A part with a value put into the hole of a name.
pub open spec fn put(p: Part, key: Seq<char>, v: Seq<char>) -> Part {
    if p == Part::Hole(key) {
        Part::Text(v)
    } else {
        p
    }
}

/// A template with a value put into every hole of a name.
pub open spec fn put_all(parts: Seq<Part>, key: Seq<char>, v: Seq<char>) -> Seq<Part> {
    Seq::new(parts.len(), |i: int| put(parts[i], key, v))
}

proof fn lemma_replaced_passes(t: Seq<char>, rest: Seq<char>, p: Seq<char>, v: Seq<char>)
    requires
        p.len() > 0,
        forall|i: int| 0 <= i < t.len() ==> #[trigger] t[i] != p[0],
    ensures
        replaced(t + rest, p, v) == t + replaced(rest, p, v),
    decreases t.len(),
{
    let s = t + rest;
    if t.len() == 0 {
        assert(s =~= rest);
        assert(t + replaced(rest, p, v) =~= replaced(rest, p, v));
    } else if s.len() < p.len() {
        assert(replaced(rest, p, v) == rest);
    } else {
        assert(s[0] == t[0]);
        assert(!p.is_prefix_of(s));
        assert(s.skip(1) =~= t.skip(1) + rest);
        lemma_replaced_passes(t.skip(1), rest, p, v);
        assert(replaced(s, p, v) =~= t + replaced(rest, p, v));
    }
}

proof fn lemma_placeholder(key: Seq<char>)
    ensures
        placeholder(key) == part_text(Part::Hole(key)),
{
    reveal_strlit("{");
    reveal_strlit("}");
    assert(placeholder(key) =~= seq!['{'] + key + seq!['}']);
}

/// Replacing the placeholder of a name puts the value into every hole of that name,
/// and nowhere else.
proof fn lemma_replaced_puts(parts: Seq<Part>, key: Seq<char>, v: Seq<char>)
    requires
        all_plain(parts),
        brace_free(key),
    ensures
        replaced(rendered(parts), placeholder(key), v) == rendered(put_all(parts, key, v)),
    decreases parts.len(),
{
    lemma_placeholder(key);
    let p = placeholder(key);
    let after = put_all(parts, key, v);
    if parts.len() > 0 {
        let rest = parts.skip(1);
        assert(all_plain(rest)) by {
            assert forall|i: int| 0 <= i < rest.len() implies plain(#[trigger] rest[i]) by {
                assert(rest[i] == parts[i + 1]);
            }
        }
        lemma_replaced_puts(rest, key, v);
        assert(after.skip(1) =~= put_all(rest, key, v));
        let r = rendered(rest);
        let s = rendered(parts);
        assert(plain(parts[0]));
        match parts[0] {
            Part::Text(t) => {
                lemma_replaced_passes(t, r, p, v);
            },
            Part::Hole(k) => {
                if k == key {
                    assert(p.is_prefix_of(s)) by {
                        assert(s.take(p.len() as int) =~= p);
                    }
                    assert(s.skip(p.len() as int) =~= r);
                } else {
                    let tail = k + seq!['}'];
                    assert(s =~= seq!['{'] + (tail + r));
                    if p.is_prefix_of(s) {
                        assert(forall|i: int| 0 <= i < p.len() ==> p[i] == s[i]);
                        if key.len() < k.len() {
                            assert(p[key.len() as int + 1] == '}');
                            assert(s[key.len() as int + 1] == k[key.len() as int]);
                        } else if key.len() > k.len() {
                            assert(s[k.len() as int + 1] == '}');
                            assert(p[k.len() as int + 1] == key[k.len() as int]);
                        } else {
                            assert forall|i: int| 0 <= i < k.len() implies k[i] == key[i] by {
                                assert(p[i + 1] == s[i + 1]);
                            }
                            assert(k =~= key);
                        }
                    }
                    assert(!p.is_prefix_of(s));
                    assert forall|i: int| 0 <= i < tail.len() implies #[trigger] tail[i] != '{' by {
                        if i < k.len() {
                            assert(tail[i] == k[i]);
                        }
                    }
                    lemma_replaced_passes(tail, r, p, v);
                    if s.len() >= p.len() {
                        assert(s.skip(1) =~= tail + r);
                        assert(replaced(s, p, v) =~= part_text(parts[0]) + replaced(r, p, v));
                    } else {
                        assert(replaced(r, p, v) == r);
                    }
                }
            },
        }
    }
}

/// A part with its hole filled by the first of some names that is its own and has a
/// string for its value.
pub open spec fn filled_part(p: Part, keys: Seq<(Seq<char>, Json)>, params: Json, n: nat) -> Part {
    match p {
        Part::Hole(k) => if (exists|i: int| 0 <= i < n && (#[trigger] keys[i]).0 == k)
            && params.get_str(k) is Some {
            Part::Text(params.get_str(k)->0)
        } else {
            p
        },
        Part::Text(_) => p,
    }
}

pub open spec fn filled_parts(
    parts: Seq<Part>,
    keys: Seq<(Seq<char>, Json)>,
    params: Json,
    n: nat,
) -> Seq<Part> {
    Seq::new(parts.len(), |i: int| filled_part(parts[i], keys, params, n))
}

proof fn lemma_filled(parts: Seq<Part>, keys: Seq<(Seq<char>, Json)>, params: Json, n: nat)
    requires
        n <= keys.len(),
        all_plain(parts),
        forall|i: int| 0 <= i < keys.len() ==> brace_free((#[trigger] keys[i]).0),
        forall|k: Seq<char>| (#[trigger] params.get_str(k)) matches Some(v) ==> brace_free(v),
    ensures
        filled(rendered(parts), keys, params, n) == rendered(filled_parts(parts, keys, params, n)),
        all_plain(filled_parts(parts, keys, params, n)),
    decreases n,
{
    let now = filled_parts(parts, keys, params, n);
    assert(all_plain(now)) by {
        assert forall|i: int| 0 <= i < now.len() implies plain(#[trigger] now[i]) by {
            assert(plain(parts[i]));
        }
    }
    if n == 0 {
        assert(now =~= parts);
    } else {
        let m = (n - 1) as nat;
        lemma_filled(parts, keys, params, m);
        let before = filled_parts(parts, keys, params, m);
        let key = keys[n - 1].0;
        match params.get_str(key) {
            Some(v) => {
                lemma_replaced_puts(before, key, v);
                assert forall|i: int| 0 <= i < parts.len() implies put_all(before, key, v)[i] == now[i] by {
                    if let Part::Hole(k) = parts[i] {
                        if k == key {
                            assert(keys[n - 1].0 == k);
                        } else if exists|j: int| 0 <= j < n && (#[trigger] keys[j]).0 == k {
                            let j = choose|j: int| 0 <= j < n && (#[trigger] keys[j]).0 == k;
                            assert(j < m);
                        } else {
                            assert(!exists|j: int| 0 <= j < m && (#[trigger] keys[j]).0 == k);
                        }
                    }
                }
                assert(put_all(before, key, v) =~= now);
            },
            None => {
                assert forall|i: int| 0 <= i < parts.len() implies before[i] == now[i] by {
                    if let Part::Hole(k) = parts[i] {
                        if k != key && exists|j: int| 0 <= j < n && (#[trigger] keys[j]).0 == k {
                            let j = choose|j: int| 0 <= j < n && (#[trigger] keys[j]).0 == k;
                            assert(j < m);
                        }
                    }
                }
                assert(before =~= now);
            },
        }
    }
}

/// A webhook action goes to its template with its holes filled: each hole whose
/// name is a path parameter holds the string that the call gives for it, however
/// many there are and in whatever order; every other part of the template stays.
pub proof fn lemma_every_path_param_is_filled(parts: Seq<Part>, cfg: Option<Json>, params: Json)
    requires
        all_plain(parts),
        forall|j: int| 0 <= j < path_keys(cfg).len() ==> brace_free((#[trigger] path_keys(cfg)[j]).0),
        forall|k: Seq<char>| (#[trigger] params.get_str(k)) matches Some(v) ==> brace_free(v),
    ensures
        webhook_url(rendered(parts), cfg, params) == rendered(
            filled_parts(parts, path_keys(cfg), params, path_keys(cfg).len()),
        ),
{
    lemma_filled(parts, path_keys(cfg), params, path_keys(cfg).len());
}

/// A template of two holes with text around them is filled in both.
pub proof fn lemma_two_path_params_are_filled(
    a: Seq<char>,
    first: Seq<char>,
    b: Seq<char>,
    second: Seq<char>,
    c: Seq<char>,
    v: Seq<char>,
    w: Seq<char>,
    cfg: Option<Json>,
    params: Json,
    i: int,
    j: int,
)
    requires
        brace_free(a),
        brace_free(b),
        brace_free(c),
        forall|n: int| 0 <= n < path_keys(cfg).len() ==> brace_free((#[trigger] path_keys(cfg)[n]).0),
        forall|k: Seq<char>| (#[trigger] params.get_str(k)) matches Some(x) ==> brace_free(x),
        0 <= i < path_keys(cfg).len(),
        0 <= j < path_keys(cfg).len(),
        path_keys(cfg)[i].0 == first,
        path_keys(cfg)[j].0 == second,
        params.get_str(first) == Some(v),
        params.get_str(second) == Some(w),
    ensures
        webhook_url(a + "{"@ + first + "}"@ + b + "{"@ + second + "}"@ + c, cfg, params) == a + v + b
            + w + c,
{
    let keys = path_keys(cfg);
    let parts = seq![
        Part::Text(a),
        Part::Hole(first),
        Part::Text(b),
        Part::Hole(second),
        Part::Text(c),
    ];
    reveal_strlit("{");
    reveal_strlit("}");
    assert(brace_free(keys[i].0) && brace_free(keys[j].0));
    lemma_filled(parts, keys, params, keys.len());
    let after = filled_parts(parts, keys, params, keys.len());
    reveal_with_fuel(rendered, 6);
    assert(rendered(parts) =~= a + "{"@ + first + "}"@ + b + "{"@ + second + "}"@ + c);
    assert(keys[i].0 == first && keys[j].0 == second);
    assert(after =~= seq![
        Part::Text(a),
        Part::Text(v),
        Part::Text(b),
        Part::Text(w),
        Part::Text(c),
    ]);
    assert(rendered(after) =~= a + v + b + w + c);
}

// ── Templates of the dispatcher ──────────────────────────────────────────────

pub open spec fn distinct_keys(m: Seq<(Seq<char>, Json)>) -> bool {
    forall|i: int, j: int| 0 <= i < j < m.len() ==> (#[trigger] m[i]).0 != (#[trigger] m[j]).0
}

/// A part with its hole filled by the one of the first `n` members that has its
/// name, where that counts.
pub open spec fn member_part(p: Part, m: Seq<(Seq<char>, Json)>, n: nat, skip_empty: bool) -> Part {
    match p {
        Part::Hole(k) => if exists|i: int| 0 <= i < n && counts(#[trigger] m[i], k, skip_empty) {
            Part::Text(
                url_text(m[choose|i: int| 0 <= i < n && counts(#[trigger] m[i], k, skip_empty)].1),
            )
        } else {
            p
        },
        Part::Text(_) => p,
    }
}

pub open spec fn counts(e: (Seq<char>, Json), k: Seq<char>, skip_empty: bool) -> bool {
    e.0 == k && !(skip_empty && e.1 == Json::Str(Seq::empty()))
}

pub open spec fn member_parts(
    parts: Seq<Part>,
    m: Seq<(Seq<char>, Json)>,
    n: nat,
    skip_empty: bool,
) -> Seq<Part> {
    Seq::new(parts.len(), |i: int| member_part(parts[i], m, n, skip_empty))
}

pub open spec fn plain_members(m: Seq<(Seq<char>, Json)>) -> bool {
    &&& distinct_keys(m)
    &&& forall|i: int|
        0 <= i < m.len() ==> brace_free((#[trigger] m[i]).0) && brace_free(url_text(m[i].1))
}

proof fn lemma_absent_is_not_replaced(s: Seq<char>, p: Seq<char>, v: Seq<char>)
    requires
        !occurs_in(p, s),
    ensures
        replaced(s, p, v) == s,
    decreases s.len(),
{
    if p.len() > 0 && s.len() >= p.len() {
        if p.is_prefix_of(s) {
            assert(s.subrange(0, p.len() as int) =~= p);
            assert(occurs_at(p, s, 0));
        }
        let t = s.skip(1);
        assert forall|i: int| !occurs_at(p, t, i) by {
            if occurs_at(p, t, i) {
                assert(s.subrange(i + 1, i + 1 + p.len()) =~= t.subrange(i, i + p.len()));
                assert(occurs_at(p, s, i + 1));
            }
        }
        lemma_absent_is_not_replaced(t, p, v);
        assert(replaced(s, p, v) =~= s);
    }
}

proof fn lemma_member_step(
    parts: Seq<Part>,
    m: Seq<(Seq<char>, Json)>,
    n: nat,
    skip_empty: bool,
)
    requires
        0 < n <= m.len(),
        plain_members(m),
    ensures
        counts(m[n - 1], m[n - 1].0, skip_empty) ==> put_all(
            member_parts(parts, m, (n - 1) as nat, skip_empty),
            m[n - 1].0,
            url_text(m[n - 1].1),
        ) == member_parts(parts, m, n, skip_empty),
        !counts(m[n - 1], m[n - 1].0, skip_empty) ==> member_parts(
            parts,
            m,
            (n - 1) as nat,
            skip_empty,
        ) == member_parts(parts, m, n, skip_empty),
{
    let l = (n - 1) as nat;
    let e = m[n - 1];
    let before = member_parts(parts, m, l, skip_empty);
    let now = member_parts(parts, m, n, skip_empty);
    assert forall|i: int| 0 <= i < parts.len() implies (if counts(e, e.0, skip_empty) {
        put(before[i], e.0, url_text(e.1))
    } else {
        before[i]
    }) == now[i] by {
        if let Part::Hole(k) = parts[i] {
            if exists|j: int| 0 <= j < l && counts(#[trigger] m[j], k, skip_empty) {
                let j = choose|j: int| 0 <= j < l && counts(#[trigger] m[j], k, skip_empty);
                assert(0 <= j < n && counts(m[j], k, skip_empty));
                let a = choose|j: int| 0 <= j < n && counts(#[trigger] m[j], k, skip_empty);
                assert(m[a].0 == k && m[j].0 == k);
                assert(a == j);
                assert(m[n - 1].0 != m[j].0);
            } else if counts(e, k, skip_empty) {
                assert(counts(m[n - 1], k, skip_empty));
                let a = choose|j: int| 0 <= j < n && counts(#[trigger] m[j], k, skip_empty);
                assert(0 <= a < n && counts(m[a], k, skip_empty));
                assert(a == n - 1);
            } else {
                assert(!exists|j: int| 0 <= j < n && counts(#[trigger] m[j], k, skip_empty)) by {
                    if exists|j: int| 0 <= j < n && counts(#[trigger] m[j], k, skip_empty) {
                        let j = choose|j: int| 0 <= j < n && counts(#[trigger] m[j], k, skip_empty);
                        assert(j < l);
                    }
                }
            }
        }
    }
    if counts(e, e.0, skip_empty) {
        assert(put_all(before, e.0, url_text(e.1)) =~= now);
    } else {
        assert(before =~= now);
    }
}

proof fn lemma_member_parts_plain(
    parts: Seq<Part>,
    m: Seq<(Seq<char>, Json)>,
    n: nat,
    skip_empty: bool,
)
    requires
        n <= m.len(),
        all_plain(parts),
        plain_members(m),
    ensures
        all_plain(member_parts(parts, m, n, skip_empty)),
{
    let now = member_parts(parts, m, n, skip_empty);
    assert forall|i: int| 0 <= i < now.len() implies plain(#[trigger] now[i]) by {
        assert(plain(parts[i]));
    }
}

proof fn lemma_defaults_filled(parts: Seq<Part>, m: Seq<(Seq<char>, Json)>, n: nat)
    requires
        n <= m.len(),
        all_plain(parts),
        plain_members(m),
    ensures
        defaults_filled(rendered(parts), m, n) == rendered(member_parts(parts, m, n, true)),
    decreases n,
{
    if n == 0 {
        assert(member_parts(parts, m, 0, true) =~= parts);
    } else {
        let l = (n - 1) as nat;
        lemma_defaults_filled(parts, m, l);
        lemma_member_step(parts, m, n, true);
        lemma_member_parts_plain(parts, m, l, true);
        assert(brace_free(m[n - 1].0));
        lemma_replaced_puts(member_parts(parts, m, l, true), m[n - 1].0, url_text(m[n - 1].1));
    }
}

proof fn lemma_params_filled(parts: Seq<Part>, m: Seq<(Seq<char>, Json)>, n: nat)
    requires
        n <= m.len(),
        all_plain(parts),
        plain_members(m),
    ensures
        params_filled(rendered(parts), m, n) == rendered(member_parts(parts, m, n, false)),
    decreases n,
{
    if n == 0 {
        assert(member_parts(parts, m, 0, false) =~= parts);
    } else {
        let l = (n - 1) as nat;
        lemma_params_filled(parts, m, l);
        lemma_member_step(parts, m, n, false);
        lemma_member_parts_plain(parts, m, l, false);
        assert(brace_free(m[n - 1].0));
        let before = member_parts(parts, m, l, false);
        lemma_replaced_puts(before, m[n - 1].0, url_text(m[n - 1].1));
        if !occurs_in(placeholder(m[n - 1].0), rendered(before)) {
            lemma_absent_is_not_replaced(
                rendered(before),
                placeholder(m[n - 1].0),
                url_text(m[n - 1].1),
            );
        }
    }
}

proof fn lemma_member_by_key(m: Seq<(Seq<char>, Json)>, i: int)
    requires
        distinct_keys(m),
        0 <= i < m.len(),
    ensures
        Json::Object(m).get(m[i].0) == Some(m[i].1),
{
    lemma_key_index(m, m[i].0);
}

/// What a hole of a dispatched webhook's template is filled with: the default that
/// the config has for its name unless that is the empty string, else what the call
/// gives for it.
pub open spec fn target_part(p: Part, defaults: Json, params: Json) -> Part {
    match p {
        Part::Hole(k) => match defaults.get(k) {
            Some(d) => if d != Json::Str(Seq::empty()) {
                Part::Text(url_text(d))
            } else {
                given_part(p, params)
            },
            None => given_part(p, params),
        },
        Part::Text(_) => p,
    }
}

pub open spec fn given_part(p: Part, params: Json) -> Part {
    match p {
        Part::Hole(k) => match params.get(k) {
            Some(v) => Part::Text(url_text(v)),
            None => p,
        },
        Part::Text(_) => p,
    }
}

/// A dispatched webhook goes to its template with every hole filled that the config
/// or the call has a value for, a default of the config first, and with the
/// configured suffix behind it.
pub proof fn lemma_every_hole_is_filled(
    parts: Seq<Part>,
    cfg: Option<Json>,
    defaults: Seq<(Seq<char>, Json)>,
    given: Seq<(Seq<char>, Json)>,
)
    requires
        all_plain(parts),
        plain_members(defaults),
        plain_members(given),
        config_get(cfg, "path_params"@) == Some(Json::Object(defaults)),
    ensures
        ({
            let after = Seq::new(
                parts.len(),
                |i: int| target_part(parts[i], Json::Object(defaults), Json::Object(given)),
            );
            let url = target_url(rendered(parts), cfg, Json::Object(given));
            match config_str(cfg, "url_suffix"@) {
                Some(suffix) => url == rendered(after) + suffix,
                None => url == rendered(after),
            }
        }),
{
    lemma_defaults_filled(parts, defaults, defaults.len());
    lemma_member_parts_plain(parts, defaults, defaults.len(), true);
    let mid = member_parts(parts, defaults, defaults.len(), true);
    lemma_params_filled(mid, given, given.len());
    let last = member_parts(mid, given, given.len(), false);
    let after = Seq::new(
        parts.len(),
        |i: int| target_part(parts[i], Json::Object(defaults), Json::Object(given)),
    );
    assert forall|i: int| 0 <= i < parts.len() implies last[i] == after[i] by {
        if let Part::Hole(k) = parts[i] {
            lemma_key_index(defaults, k);
            lemma_key_index(given, k);
            if exists|j: int| 0 <= j < defaults.len() && counts(#[trigger] defaults[j], k, true) {
                let j = choose|j: int| 0 <= j < defaults.len() && counts(#[trigger] defaults[j], k, true);
                lemma_member_by_key(defaults, j);
            } else {
                if let Some(d) = Json::Object(defaults).get(k) {
                    assert(defaults[key_index(defaults, k)].0 == k);
                    assert(!counts(defaults[key_index(defaults, k)], k, true));
                    assert(d == Json::Str(Seq::empty()));
                }
                if exists|j: int| 0 <= j < given.len() && counts(#[trigger] given[j], k, false) {
                    let j = choose|j: int| 0 <= j < given.len() && counts(#[trigger] given[j], k, false);
                    lemma_member_by_key(given, j);
                } else if Json::Object(given).get(k) is Some {
                    assert(counts(given[key_index(given, k)], k, false));
                }
            }
        }
    }
    assert(last =~= after);
    assert(object_members(config_get(cfg, "path_params"@)) == defaults);
    assert(object_members(Some(Json::Object(given))) == given);
}

/// The path parameters of an action are what its config lists as such, in that order,
/// and an action whose config lists none has none.
pub proof fn lemma_which_are_path_params(cfg: Json, m: Seq<(Seq<char>, Json)>)
    ensures
        cfg.get("path_params"@) == Some(Json::Object(m)) ==> path_keys(Some(cfg)) == m,
        cfg.get("path_params"@) is None ==> path_keys(Some(cfg)) == Seq::<
            (Seq<char>, Json),
        >::empty(),
        path_keys(None) == Seq::<(Seq<char>, Json)>::empty(),
{
}

} // verus!

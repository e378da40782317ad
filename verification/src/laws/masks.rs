//! Masking: what is hidden of a config, what is not, and what an edit gives back.

use vstd::prelude::*;
use vstd::string::*;

use crate::json::{lemma_key_index, lemma_key_index_is, member};
use crate::mask::{auth_visible, masked_auth, masked_config, masked_members, masked_strings};
use crate::mask::{stored_item, stored_member, unmasked, unmasked_items, unmasked_members};
use crate::value::Json;

verus! {

/// What of an auth block is no secret: its type, where it goes and comes back to, its
/// scope, which keyring entry it means, and the names of environment variables.
pub proof fn lemma_what_of_auth_is_public(key: Seq<char>)
    ensures
        auth_visible(key) <==> key == "type"@ || key == "auth_url"@ || key == "token_url"@ || key
            == "redirect_uri"@ || key == "scope"@ || key == "keyring_service"@ || key
            == "keyring_account"@ || "_env"@.is_suffix_of(key),
{
}

/// Every string of the secrets is hidden, however deep it is, and everything else
/// keeps its place.
pub proof fn lemma_secrets_are_hidden(v: Json, i: int)
    ensures
        v is Str ==> masked_strings(v) == Json::Str("***"@),
        v matches Json::Array(s) ==> (masked_strings(v) matches Json::Array(t) && t.len() == s.len()
            && (0 <= i < s.len() ==> t[i] == masked_strings(s[i]))),
        v matches Json::Object(m) ==> (masked_strings(v) matches Json::Object(t) && t.len()
            == m.len() && (0 <= i < m.len() ==> t[i] == (m[i].0, masked_strings(m[i].1)))),
        !(v is Str) && !(v is Array) && !(v is Object) ==> masked_strings(v) == v,
{
}

/// Of an auth block every string is hidden but those under a public key, which are
/// shown as they are with everything below them.
pub proof fn lemma_auth_is_hidden(v: Json, i: int)
    ensures
        v is Str ==> masked_auth(v) == Json::Str("***"@),
        v matches Json::Array(s) ==> (masked_auth(v) matches Json::Array(t) && t.len() == s.len()
            && (0 <= i < s.len() ==> t[i] == masked_auth(s[i]))),
        v matches Json::Object(m) ==> (masked_auth(v) matches Json::Object(t) && t.len() == m.len()
            && (0 <= i < m.len() ==> t[i].0 == m[i].0 && (auth_visible(m[i].0) ==> t[i].1 == m[i].1)
            && (!auth_visible(m[i].0) ==> t[i].1 == masked_auth(m[i].1)))),
        !(v is Str) && !(v is Array) && !(v is Object) ==> masked_auth(v) == v,
{
}

/// Of a config the secrets and the auth block are hidden, and nothing else is.
pub proof fn lemma_what_of_a_config_is_hidden(m: Seq<(Seq<char>, Json)>, key: Seq<char>, v: Json)
    ensures
        ({
            let shown = masked_config(Json::Object(m));
            &&& (key == "secrets"@ && Json::Object(m).get(key) == Some(v) ==> shown.get(key) == Some(
                masked_strings(v),
            ))
            &&& (key == "auth"@ && Json::Object(m).get(key) == Some(v) ==> shown.get(key) == Some(
                masked_auth(v),
            ))
            &&& (key != "secrets"@ && key != "auth"@ ==> shown.get(key) == Json::Object(m).get(key))
            &&& (Json::Object(m).get(key) is None ==> shown.get(key) is None)
        }),
        !(v is Object) ==> masked_config(v) == v,
{
    reveal_strlit("secrets");
    reveal_strlit("auth");
    assert("secrets"@.len() == 7 && "auth"@.len() == 4);
    let t = masked_members(m);
    let k = crate::json::key_index(m, key);
    lemma_key_index(m, key);
    lemma_key_index(m, "secrets"@);
    lemma_key_index(m, "auth"@);
    assert forall|j: int| 0 <= j < k implies (#[trigger] t[j]).0 != key by {
        assert(m[j].0 != key);
    }
    lemma_key_index_is(t, key, k);
}

/// A mask that comes back stands for what is stored in its place. With nothing stored
/// there it is refused, and any other value is taken as it is.
pub proof fn lemma_a_mask_stands_for_what_is_stored(
    v: Json,
    stored: Json,
    existing: Option<Json>,
    path: Seq<char>,
)
    ensures
        unmasked(Json::Str("***"@), Some(stored), path) == Ok::<Json, Seq<char>>(stored),
        unmasked(Json::Str("***"@), None, path) is Err,
        !(v is Array) && !(v is Object) && v != Json::Str("***"@) ==> unmasked(v, existing, path)
            == Ok::<Json, Seq<char>>(v),
{
}

proof fn lemma_unmasked_members(
    m: Seq<(Seq<char>, Json)>,
    existing: Option<Json>,
    path: Seq<char>,
    n: nat,
    i: int,
)
    requires
        0 <= i < n <= m.len(),
        unmasked_members(m, existing, path, n) is Ok,
    ensures
        unmasked_members(m, existing, path, n)->Ok_0.len() == n,
        unmasked(m[i].1, stored_member(existing, m[i].0), path + ("."@ + m[i].0)) is Ok,
        unmasked_members(m, existing, path, n)->Ok_0[i] == (
            m[i].0,
            unmasked(m[i].1, stored_member(existing, m[i].0), path + ("."@ + m[i].0))->Ok_0,
        ),
    decreases n,
{
    let before = unmasked_members(m, existing, path, (n - 1) as nat);
    if n > 1 {
        lemma_unmasked_members(m, existing, path, (n - 1) as nat, if i < n - 1 {
            i
        } else {
            0
        });
    } else {
        assert(before->Ok_0.len() == 0);
    }
}

proof fn lemma_unmasked_items(
    s: Seq<Json>,
    existing: Option<Json>,
    path: Seq<char>,
    n: nat,
    i: int,
)
    requires
        0 <= i < n <= s.len(),
        unmasked_items(s, existing, path, n) is Ok,
    ensures
        unmasked_items(s, existing, path, n)->Ok_0.len() == n,
        exists|p: Seq<char>|
            #[trigger] unmasked(s[i], stored_item(existing, i), p) == Ok::<Json, Seq<char>>(
                unmasked_items(s, existing, path, n)->Ok_0[i],
            ),
    decreases n,
{
    let before = unmasked_items(s, existing, path, (n - 1) as nat);
    if n > 1 {
        lemma_unmasked_items(s, existing, path, (n - 1) as nat, if i < n - 1 {
            i
        } else {
            0
        });
    } else {
        assert(before->Ok_0.len() == 0);
    }
    if i == n - 1 {
        let p = path + ("["@ + crate::text::decimal((n - 1) as nat) + "]"@);
        assert(unmasked(s[i], stored_item(existing, i), p) is Ok);
    }
}

/// An edit is taken member by member and item by item, each against what is stored
/// under the same key and in the same place.
pub proof fn lemma_edits_are_taken_piece_by_piece(
    m: Seq<(Seq<char>, Json)>,
    s: Seq<Json>,
    existing: Option<Json>,
    path: Seq<char>,
    i: int,
)
    ensures
        unmasked(Json::Object(m), existing, path) matches Ok(v) ==> (v matches Json::Object(t)
            && t.len() == m.len() && (0 <= i < m.len() ==> t[i].0 == m[i].0 && exists|
            p: Seq<char>,
        |
            #[trigger] unmasked(m[i].1, stored_member(existing, m[i].0), p) == Ok::<Json, Seq<char>>(
                t[i].1,
            ))),
        unmasked(Json::Array(s), existing, path) matches Ok(v) ==> (v matches Json::Array(t)
            && t.len() == s.len() && (0 <= i < s.len() ==> exists|p: Seq<char>|
            #[trigger] unmasked(s[i], stored_item(existing, i), p) == Ok::<Json, Seq<char>>(t[i]))),
        existing matches Some(e) ==> forall|k: Seq<char>| #[trigger]
            stored_member(existing, k) == e.get(k),
        existing matches Some(Json::Array(a)) ==> (0 <= i < a.len() ==> stored_item(existing, i)
            == Some(a[i])),
        existing is None ==> forall|k: Seq<char>| #[trigger] stored_member(existing, k) is None,
        existing is None ==> stored_item(existing, i) is None,
{
    if unmasked(Json::Object(m), existing, path) is Ok {
        if m.len() > 0 {
            lemma_unmasked_members(m, existing, path, m.len(), if 0 <= i < m.len() {
                i
            } else {
                0
            });
        }
        if 0 <= i < m.len() {
            let p = path + ("."@ + m[i].0);
            assert(unmasked(m[i].1, stored_member(existing, m[i].0), p) is Ok);
        }
    }
    if unmasked(Json::Array(s), existing, path) is Ok {
        if s.len() > 0 {
            lemma_unmasked_items(s, existing, path, s.len(), if 0 <= i < s.len() {
                i
            } else {
                0
            });
        }
        if 0 <= i < s.len() {
            let t = unmasked_items(s, existing, path, s.len())->Ok_0;
            let p = choose|p: Seq<char>|
                #[trigger] unmasked(s[i], stored_item(existing, i), p) == Ok::<Json, Seq<char>>(
                    t[i],
                );
            assert(unmasked(s[i], stored_item(existing, i), p) == Ok::<Json, Seq<char>>(t[i]));
        }
    }
}

} // verus!

//! Dispatched webhooks: the request, the token form, and where tokens are kept.

use vstd::prelude::*;
use vstd::string::*;

use crate::dispatcher::webhooks::{answered, auth_block, auth_fields, authorized_headers};
use crate::dispatcher::webhooks::{client_form, granted_form, has_field, is_refresh_step};
use crate::dispatcher::webhooks::{is_request, is_webhook_dispatch, may_read_token, named_keyring};
use crate::dispatcher::webhooks::{present_members, proven_form, refers_to_keyring, refresh_secret};
use crate::dispatcher::webhooks::{refresh_target, secret_pointer, token_form, url_text};
use crate::dispatcher::webhooks::{webhook_method, with_auth, with_secret_field, RefreshStep};
use crate::dispatcher::webhooks::{TokenReads, WebhookDispatch, WebhookRequest};
use crate::execution::{exchanges_code, pair_texts, string_members};
use crate::json::{json_text, lemma_member_of_with_member, well_formed};
use crate::laws::outbound::lemma_string_members;
use crate::laws::texts::{lemma_one_piece, lemma_pieces_are_apart, lemma_pieces_join};
use crate::secrets::may_read;
use crate::text::{pieces, upper};
use crate::value::Json;

verus! {

/// In a URL a string stands as it is, and any other value as its JSON.
pub proof fn lemma_values_in_a_url(s: Seq<char>, v: Json)
    ensures
        url_text(Json::Str(s)) == s,
        !(v is Str) ==> url_text(v) == json_text(v),
{
}

// ── The request ──────────────────────────────────────────────────────────────

/// What becomes of a webhook: one that its allowlist refuses is refused for that
/// reason; one that exchanges a code goes to its token endpoint; of any other the
/// method decides.
pub proof fn lemma_what_becomes_of_a_webhook(
    r: Result<WebhookDispatch, String>,
    url: Seq<char>,
    cfg: Option<Json>,
    params: Json,
    judged: Result<(), String>,
)
    requires
        is_webhook_dispatch(r, url, cfg, params, judged),
    ensures
        judged matches Err(e) ==> (r matches Err(x) && x@ == e@),
        judged is Ok && exchanges_code(cfg) ==> (r matches Ok(WebhookDispatch::TokenExchange(u))
            && u@ == url),
        judged is Ok && !exchanges_code(cfg) ==> {
            let m = webhook_method(cfg);
            &&& (r is Ok <==> m == "GET"@ || m == "POST"@ || m == "PUT"@ || m == "PATCH"@ || m
                == "DELETE"@)
            &&& (r is Ok ==> (r matches Ok(WebhookDispatch::Request(q)) && q.url@ == url
                && q.method@ == m))
        },
{
}

/// The method of a webhook is the configured one, in capitals, and `POST` where none
/// is.
pub proof fn lemma_the_method(cfg: Json)
    ensures
        webhook_method(None) == "POST"@,
        cfg.get_str("method"@) is None ==> webhook_method(Some(cfg)) == "POST"@,
        cfg.get_str("method"@) matches Some(m) ==> webhook_method(Some(cfg)) == upper(m),
{
    reveal_strlit("POST");
    assert(upper("POST"@) =~= "POST"@);
}

proof fn lemma_present_members(m: Seq<(Seq<char>, Json)>, n: nat, e: (Seq<char>, Json))
    requires
        n <= m.len(),
    ensures
        present_members(m, n).contains(e) <==> !(e.1 is Null) && exists|i: int|
            0 <= i < n && #[trigger] m[i] == e,
    decreases n,
{
    if n > 0 {
        let before = present_members(m, (n - 1) as nat);
        let now = present_members(m, n);
        lemma_present_members(m, (n - 1) as nat, e);
        if before.contains(e) {
            let i = choose|i: int| 0 <= i < before.len() && before[i] == e;
            assert(now[i] == e);
        }
        if m[n - 1] == e && !(e.1 is Null) {
            assert(now[now.len() - 1] == e);
        }
        if now.contains(e) && !before.contains(e) {
            let i = choose|i: int| 0 <= i < now.len() && now[i] == e;
            assert(i >= before.len()) by {
                if i < before.len() {
                    assert(before[i] == e);
                }
            }
            assert(m[n - 1] == e);
        }
    }
}

/// A request without a body carries the parameters on its query string, all of them
/// but those that are null; any other carries them in its body, whole or the part
/// that the config names.
pub proof fn lemma_where_params_go(
    q: WebhookRequest,
    url: Seq<char>,
    cfg: Json,
    m: Seq<(Seq<char>, Json)>,
    e: (Seq<char>, Json),
)
    requires
        is_request(q, url, Some(cfg), Json::Object(m)),
    ensures
        q.query is Some <==> q.method@ == "GET"@ || q.method@ == "DELETE"@,
        q.body is Some <==> !(q.method@ == "GET"@ || q.method@ == "DELETE"@),
        q.query matches Some(v) ==> (v@ matches Json::Object(sent) && (sent.contains(e) <==> !(
        e.1 is Null) && m.contains(e))),
        q.body matches Some(v) ==> {
            &&& (cfg.get_str("body_path"@) is None ==> v@ == Json::Object(m))
            &&& (cfg.get_str("body_path"@) matches Some(p) ==> v@ == (match Json::Object(m).get(p) {
                Some(x) => x,
                None => Json::Null,
            }))
        },
{
    lemma_present_members(m, m.len(), e);
    if m.contains(e) {
        let i = choose|i: int| 0 <= i < m.len() && m[i] == e;
        assert(m[i] == e);
    }
}

/// A request names the program that sends it, and bears every string header of the
/// config.
pub proof fn lemma_request_headers(
    q: WebhookRequest,
    url: Seq<char>,
    cfg: Json,
    params: Json,
    headers: Seq<(Seq<char>, Json)>,
    i: int,
)
    requires
        is_request(q, url, Some(cfg), params),
        cfg.get("headers"@) == Some(Json::Object(headers)),
        0 <= i < headers.len(),
    ensures
        pair_texts(q.headers@)[0] == ("User-Agent"@, "sol-webhook/1.0"@),
        headers[i].1 matches Json::Str(s) ==> pair_texts(q.headers@).contains((headers[i].0, s)),
{
    let sent = pair_texts(q.headers@);
    let own = string_members(headers, headers.len());
    assert(sent == seq![("User-Agent"@, "sol-webhook/1.0"@)] + own);
    if let Json::Str(s) = headers[i].1 {
        lemma_string_members(headers, headers.len(), headers[i].0, s);
        assert(headers[i] == (headers[i].0, Json::Str(s)));
        let j = choose|j: int| 0 <= j < own.len() && own[j] == (headers[i].0, s);
        assert(sent[j + 1] == own[j]);
    }
}

/// A request that does not bear an authorization is given the resolved one; whatever
/// else it bears stays.
pub proof fn lemma_a_request_is_authorized(
    headers: Seq<(Seq<char>, Seq<char>)>,
    bearer: Seq<char>,
)
    ensures
        authorized_headers(headers, None) == headers,
        (forall|i: int|
            0 <= i < headers.len() ==> upper(#[trigger] headers[i].0) != upper("Authorization"@))
            ==> authorized_headers(headers, Some(bearer)) == headers.push(
            ("Authorization"@, bearer),
        ),
        (exists|i: int|
            0 <= i < headers.len() && upper(#[trigger] headers[i].0) == upper("Authorization"@))
            ==> authorized_headers(headers, Some(bearer)) == headers,
{
}

/// An answer is the result of the action whether it succeeded or not; it has a
/// message if and only if it did not.
pub proof fn lemma_answers(
    action_name: Seq<char>,
    body: Json,
    success: bool,
    failure: Seq<char>,
)
    ensures
        ({
            let d = answered(action_name, body, success, failure);
            &&& d.action_name == action_name
            &&& d.result == body
            &&& d.success == success
            &&& (success ==> d.message is None)
            &&& (!success ==> d.message == Some(failure))
        }),
{
}

// ── The token form ───────────────────────────────────────────────────────────

/// What of an auth block is sent: every string of it but its type, the names of
/// secrets and what is empty. The client's secret itself is no name of a secret.
pub proof fn lemma_what_of_an_auth_block_is_sent(
    e: Seq<(Seq<char>, Seq<char>)>,
    n: nat,
    x: (Seq<char>, Seq<char>),
)
    requires
        n <= e.len(),
    ensures
        auth_fields(e, n).contains(x) <==> {
            &&& exists|i: int| 0 <= i < n && #[trigger] e[i] == x
            &&& x.0 != "type"@
            &&& x.1.len() > 0
            &&& ("_secret"@.is_suffix_of(x.0) ==> x.0 == "client_secret"@)
        },
    decreases n,
{
    if n > 0 {
        let before = auth_fields(e, (n - 1) as nat);
        let now = auth_fields(e, n);
        lemma_what_of_an_auth_block_is_sent(e, (n - 1) as nat, x);
        if before.contains(x) {
            let i = choose|i: int| 0 <= i < before.len() && before[i] == x;
            assert(now[i] == x);
        }
        if now.len() > before.len() && e[n - 1] == x {
            assert(now[now.len() - 1] == x);
        }
        if now.contains(x) && !before.contains(x) {
            let i = choose|i: int| 0 <= i < now.len() && now[i] == x;
            assert(i >= before.len()) by {
                if i < before.len() {
                    assert(before[i] == x);
                }
            }
            assert(e[n - 1] == x);
        }
    }
}

/// A field that a form has is never given a second value from a secret; one that it
/// lacks has the secret that the auth block points to, where there is one and it is
/// not empty, and otherwise stays away.
pub proof fn lemma_secret_fields(
    form: Seq<(Seq<char>, Seq<char>)>,
    key: Seq<char>,
    pointer: Seq<char>,
    auth: Json,
    secrets: Json,
    cfg: Json,
    name: Seq<char>,
    account: Seq<char>,
    v: Seq<char>,
    e: Seq<char>,
)
    requires
        cfg.get("secrets"@) == Some(secrets),
        auth.get_str(pointer) == Some(name),
        name.len() > 0,
        secrets.get_str(name) == Some(account),
    ensures
        secret_pointer(auth, Some(cfg), pointer) == Some((name, account)),
        has_field(form, key) ==> with_secret_field(
            form,
            key,
            pointer,
            auth,
            Some(cfg),
            Ok(Some(v)),
        ) == form,
        !has_field(form, key) && v.len() > 0 ==> with_secret_field(
            form,
            key,
            pointer,
            auth,
            Some(cfg),
            Ok(Some(v)),
        ) == form.push((key, v)),
        with_secret_field(form, key, pointer, auth, Some(cfg), Ok(None)) == form,
        with_secret_field(form, key, pointer, auth, Some(cfg), Err(e)) == form,
        with_secret_field(form, key, pointer, auth, Some(cfg), Ok(Some(Seq::empty()))) == form,
{
}

/// Without a pointer that names a configured secret nothing is read.
pub proof fn lemma_no_pointer_no_secret(auth: Json, cfg: Option<Json>, pointer: Seq<char>)
    ensures
        auth.get_str(pointer) is None ==> secret_pointer(auth, cfg, pointer) is None,
        auth.get_str(pointer) == Some(Seq::<char>::empty()) ==> secret_pointer(auth, cfg, pointer)
            is None,
        cfg is None ==> secret_pointer(auth, cfg, pointer) is None,
        cfg matches Some(c) ==> (c.get("secrets"@) is None ==> secret_pointer(auth, cfg, pointer)
            is None),
        secret_pointer(auth, cfg, pointer) matches Some((name, account)) ==> auth.get_str(pointer)
            == Some(name) && cfg->0.field("secrets"@).get_str(name) == Some(account),
{
}

proof fn lemma_with_secret_field_keeps(
    form: Seq<(Seq<char>, Seq<char>)>,
    key: Seq<char>,
    pointer: Seq<char>,
    auth: Json,
    cfg: Option<Json>,
    read: Result<Option<Seq<char>>, Seq<char>>,
)
    ensures
        form.is_prefix_of(with_secret_field(form, key, pointer, auth, cfg, read)),
        with_secret_field(form, key, pointer, auth, cfg, read).len() <= form.len() + 1,
        forall|i: int|
            form.len() <= i < with_secret_field(form, key, pointer, auth, cfg, read).len()
                ==> #[trigger] with_secret_field(form, key, pointer, auth, cfg, read)[i].0 == key,
{
    let now = with_secret_field(form, key, pointer, auth, cfg, read);
    assert(form =~= now.subrange(0, form.len() as int));
}

/// The form of a token exchange begins with its grant, holds what the auth block
/// sends, may hold the client, its secret and the scope from the secret store, and
/// ends with every string that the call gives, the code among them.
pub proof fn lemma_token_form(
    cfg: Option<Json>,
    params: Seq<(Seq<char>, Json)>,
    reads: TokenReads,
    i: int,
)
    requires
        0 <= i < params.len(),
    ensures
        ({
            let form = token_form(cfg, Json::Object(params), reads);
            let own = granted_form(cfg);
            let given = string_members(params, params.len());
            &&& form[0] == ("grant_type"@, "authorization_code"@)
            &&& own.is_prefix_of(form)
            &&& (params[i].1 matches Json::Str(s) ==> form.contains((params[i].0, s)))
            &&& own.len() + given.len() <= form.len() <= own.len() + given.len() + 3
            &&& forall|k: int|
                own.len() <= k < form.len() - given.len() ==> ((#[trigger] form[k]).0
                    == "client_id"@ || form[k].0 == "client_secret"@ || form[k].0 == "scope"@)
        }),
{
    let auth = auth_block(cfg);
    let own = granted_form(cfg);
    let a = client_form(cfg, reads);
    let b = proven_form(cfg, reads);
    let c = with_secret_field(b, "scope"@, "scope_secret"@, auth, cfg, reads.scope);
    let given = string_members(params, params.len());
    let form = token_form(cfg, Json::Object(params), reads);
    lemma_with_secret_field_keeps(
        own,
        "client_id"@,
        "client_id_secret"@,
        auth,
        cfg,
        reads.client_id,
    );
    lemma_with_secret_field_keeps(
        a,
        "client_secret"@,
        "client_secret_secret"@,
        auth,
        cfg,
        reads.client_secret,
    );
    lemma_with_secret_field_keeps(b, "scope"@, "scope_secret"@, auth, cfg, reads.scope);
    assert(form == c + given);
    assert(own[0] == ("grant_type"@, "authorization_code"@));
    assert forall|k: int| 0 <= k < own.len() implies form[k] == own[k] by {
        assert(own[k] == a.subrange(0, own.len() as int)[k]);
        assert(a[k] == b.subrange(0, a.len() as int)[k]);
        assert(b[k] == c.subrange(0, b.len() as int)[k]);
    }
    assert(own =~= form.subrange(0, own.len() as int));
    assert forall|k: int| own.len() <= k < form.len() - given.len() implies ((
    #[trigger] form[k]).0 == "client_id"@ || form[k].0 == "client_secret"@ || form[k].0
        == "scope"@) by {
        if k < a.len() {
            assert(a[k] == b.subrange(0, a.len() as int)[k]);
            assert(b[k] == c.subrange(0, b.len() as int)[k]);
        } else if k < b.len() {
            assert(b[k] == c.subrange(0, b.len() as int)[k]);
        }
    }
    if let Json::Str(s) = params[i].1 {
        lemma_string_members(params, params.len(), params[i].0, s);
        assert(params[i] == (params[i].0, Json::Str(s)));
        let j = choose|j: int| 0 <= j < given.len() && given[j] == (params[i].0, s);
        assert(form[c.len() + j] == given[j]);
    }
}

// ── Refresh tokens ───────────────────────────────────────────────────────────

/// A refresh token is kept if and only if the exchange succeeded and answered with
/// one: for the action that the call names, else under the action's own name.
pub proof fn lemma_refresh_tokens_are_kept(
    success: bool,
    body: Json,
    params: Json,
    action_name: Seq<char>,
)
    ensures
        ({
            let kept = refresh_target(success, body, params, action_name);
            &&& (kept is Some <==> success && (body.get_str("refresh_token"@) matches Some(t)
                && t.len() > 0))
            &&& (kept matches Some((a, t)) ==> {
                &&& body.get_str("refresh_token"@) == Some(t)
                &&& (params.get_str("persist_to"@) matches Some(p) ==> a == p)
                &&& (params.get_str("persist_to"@) is None ==> a == action_name + "--refresh"@)
            })
        }),
{
}

/// A storage of the form `keyring:service:account` names that service and that
/// account, which may hold colons; any other storage names no keyring.
pub proof fn lemma_named_keyrings(service: Seq<char>, account: Seq<char>, other: Seq<char>)
    requires
        !service.contains(':'),
        !other.contains(':'),
    ensures
        named_keyring(Some("keyring:"@ + service + ":"@ + account)) == Some((service, account)),
        named_keyring(Some(other)) is None,
        named_keyring(None) is None,
        other != "keyring"@ ==> named_keyring(Some(other + ":"@ + service + ":"@ + account)) is None,
{
    reveal_strlit("keyring:");
    reveal_strlit("keyring");
    reveal_strlit(":");
    assert("keyring:"@.len() == 8);
    assert("keyring"@.len() == 7);
    assert(":"@.len() == 1);
    let k = "keyring"@;
    assert(k[0] == 'k' && k[1] == 'e' && k[2] == 'y' && k[3] == 'r' && k[4] == 'i' && k[5] == 'n'
        && k[6] == 'g');
    assert(!k.contains(':')) by {
        assert forall|i: int| 0 <= i < k.len() implies k[i] != ':' by {}
    }
    let rest = service.push(':') + account;
    assert("keyring:"@ + service + ":"@ + account =~= k.push(':') + rest);
    assert(other + ":"@ + service + ":"@ + account =~= other.push(':') + rest);
    lemma_pieces_are_apart(k, ':', rest);
    lemma_pieces_are_apart(other, ':', rest);
    lemma_pieces_are_apart(service, ':', account);
    lemma_one_piece(k, ':');
    lemma_one_piece(service, ':');
    lemma_one_piece(other, ':');
    lemma_pieces_join(account, ':');
    let p = pieces(k.push(':') + rest, ':');
    assert(p[0] == k);
    assert(p[1] == service);
    assert(p.subrange(2, p.len() as int) =~= pieces(account, ':'));
    assert(":"@ =~= seq![':']);
    assert(pieces(other.push(':') + rest, ':')[0] == other);
}

/// Where a refresh token goes: where the call says, before anything else; else to the
/// secret that the config names; else to the keyring that holds the last one, and
/// into the config only where none does.
pub proof fn lemma_where_refresh_tokens_go<S: Fn(&str, &str) -> Result<(), String>>(
    r: RefreshStep,
    set: S,
    cfg: Json,
    target_action: Seq<char>,
    token: Seq<char>,
    storage: Option<Seq<char>>,
)
    requires
        is_refresh_step(r, set, cfg, target_action, token, storage),
        cfg is Object,
        well_formed(cfg),
    ensures
        storage == Some("inline"@) ==> r is Inline,
        named_keyring(storage) matches Some((s, a)) ==> storage != Some("inline"@) ==> (
        r matches RefreshStep::Keyring { service, account } && service@ == s && account@ == a),
        storage is None ==> {
            let held = cfg.field("auth"@).get("refresh_token"@);
            &&& (r is Secret <==> refresh_secret(cfg) is Some)
            &&& (r is Keyring <==> refresh_secret(cfg) is None && refers_to_keyring(held))
            &&& (r is Inline <==> refresh_secret(cfg) is None && !refers_to_keyring(held))
            &&& (r matches RefreshStep::Keyring { service, account } ==> {
                &&& (held->0.get_str("keyring_service"@) matches Some(s) ==> service@ == s)
                &&& (held->0.get_str("keyring_service"@) is None ==> service@ == "sol"@)
                &&& (held->0.get_str("keyring_account"@) matches Some(a) ==> account@ == a)
                &&& (held->0.get_str("keyring_account"@) is None ==> account@ == target_action)
            })
        },
        r matches RefreshStep::Inline(c) ==> cfg.field("auth"@) is Object ==> c@.field(
            "auth"@,
        ).get_str("refresh_token"@) == Some(token),
{
    if let Json::Object(m) = cfg {
        if let Json::Object(a) = cfg.field("auth"@) {
            lemma_member_of_with_member(
                m,
                "auth"@,
                cfg.field("auth"@).with_field("refresh_token"@, Json::Str(token)),
                "auth"@,
            );
            lemma_member_of_with_member(
                a,
                "refresh_token"@,
                Json::Str(token),
                "refresh_token"@,
            );
        }
    }
}

/// Which secret takes a refresh token: the one that the auth block names, where the
/// config has its account.
pub proof fn lemma_refresh_secrets(cfg: Json)
    ensures
        refresh_secret(cfg) matches Some((name, key)) ==> cfg.field("auth"@).get_str(
            "refresh_token_secret"@,
        ) == Some(name) && cfg.field("secrets"@).get_str(name) == Some(key),
        refresh_secret(cfg) is None ==> (cfg.field("auth"@).get_str("refresh_token_secret"@) is None
            || cfg.field("secrets"@).get_str(
            cfg.field("auth"@).get_str("refresh_token_secret"@)->0,
        ) is None),
{
}

/// A config without an auth block is given an empty one, and nothing else of it
/// changes.
pub proof fn lemma_an_auth_block_is_there(m: Seq<(Seq<char>, Json)>, other: Seq<char>)
    requires
        other != "auth"@,
    ensures
        with_auth(Some(Json::Object(m))).get("auth"@) == Some(
            match Json::Object(m).get("auth"@) {
                Some(a) => a,
                None => Json::Object(Seq::empty()),
            },
        ),
        with_auth(Some(Json::Object(m))).get(other) == Json::Object(m).get(other),
        with_auth(None).get("auth"@) == Some(Json::Object(Seq::empty())),
{
    lemma_member_of_with_member(m, "auth"@, Json::Object(Seq::empty()), "auth"@);
    lemma_member_of_with_member(m, "auth"@, Json::Object(Seq::empty()), other);
    lemma_member_of_with_member(
        Seq::empty(),
        "auth"@,
        Json::Object(Seq::empty()),
        "auth"@,
    );
}

/// The auth block of a webhook is what its config has under that name.
pub proof fn lemma_the_auth_block(cfg: Json)
    ensures
        cfg.get("auth"@) matches Some(a) ==> auth_block(Some(cfg)) == a,
        cfg.get("auth"@) is None ==> auth_block(Some(cfg)) == Json::Null,
        auth_block(None) == Json::Null,
{
}

/// The client, its secret and the scope of a token exchange are read from the secret
/// store, each from the secret that the auth block points to for it, and only where
/// the form has no such field.
pub proof fn lemma_token_secrets<G: Fn(&str) -> Result<Option<String>, String>>(
    get: G,
    cfg: Option<Json>,
    params: Json,
    reads: TokenReads,
)
    requires
        may_read_token(get, cfg, reads),
    ensures
        ({
            let own = granted_form(cfg);
            let auth = auth_block(cfg);
            let form = token_form(cfg, params, reads);
            &&& (!has_field(own, "client_id"@) ==> (secret_pointer(
                auth,
                cfg,
                "client_id_secret"@,
            ) matches Some((name, key)) ==> may_read(get, name, key, reads.client_id)
                && from_secret(form, "client_id"@, reads.client_id)))
            &&& (!has_field(own, "client_secret"@) ==> (secret_pointer(
                auth,
                cfg,
                "client_secret_secret"@,
            ) matches Some((name, key)) ==> may_read(get, name, key, reads.client_secret)
                && from_secret(form, "client_secret"@, reads.client_secret)))
            &&& (!has_field(own, "scope"@) ==> (secret_pointer(
                auth,
                cfg,
                "scope_secret"@,
            ) matches Some((name, key)) ==> may_read(get, name, key, reads.scope) && from_secret(
                form,
                "scope"@,
                reads.scope,
            )))
        }),
{
    reveal_strlit("client_id");
    reveal_strlit("client_secret");
    reveal_strlit("scope");
    assert("client_id"@.len() == 9);
    assert("client_secret"@.len() == 13);
    assert("scope"@.len() == 5);
    let auth = auth_block(cfg);
    let own = granted_form(cfg);
    let a = client_form(cfg, reads);
    let b = proven_form(cfg, reads);
    let c = with_secret_field(b, "scope"@, "scope_secret"@, auth, cfg, reads.scope);
    let form = token_form(cfg, params, reads);
    lemma_with_secret_field_keeps(
        own,
        "client_id"@,
        "client_id_secret"@,
        auth,
        cfg,
        reads.client_id,
    );
    lemma_with_secret_field_keeps(
        a,
        "client_secret"@,
        "client_secret_secret"@,
        auth,
        cfg,
        reads.client_secret,
    );
    lemma_with_secret_field_keeps(b, "scope"@, "scope_secret"@, auth, cfg, reads.scope);
    lemma_fields_of_longer(own, a, "client_secret"@, "client_id"@);
    lemma_fields_of_longer(own, a, "scope"@, "client_id"@);
    lemma_fields_of_longer(a, b, "scope"@, "client_secret"@);
    assert(form.subrange(0, c.len() as int) =~= c);
    assert(b.subrange(0, b.len() as int) =~= b);
    assert(c.subrange(0, c.len() as int) =~= c);
    lemma_last_is_there(own, a, b, c, form, "client_id"@, reads.client_id);
    lemma_last_is_there(a, b, b, c, form, "client_secret"@, reads.client_secret);
    lemma_last_is_there(b, c, c, c, form, "scope"@, reads.scope);
}

/// Whether a form has a field from a secret that was read, where there was one.
pub open spec fn from_secret(
    form: Seq<(Seq<char>, Seq<char>)>,
    key: Seq<char>,
    read: Result<Option<Seq<char>>, Seq<char>>,
) -> bool {
    read matches Ok(Some(v)) ==> v.len() > 0 ==> form.contains((key, v))
}

proof fn lemma_fields_of_longer(
    short: Seq<(Seq<char>, Seq<char>)>,
    long: Seq<(Seq<char>, Seq<char>)>,
    key: Seq<char>,
    new: Seq<char>,
)
    requires
        short.is_prefix_of(long),
        key != new,
        forall|i: int| short.len() <= i < long.len() ==> (#[trigger] long[i]).0 == new,
    ensures
        has_field(long, key) ==> has_field(short, key),
{
    if has_field(long, key) {
        let i = choose|i: int| 0 <= i < long.len() && (#[trigger] long[i]).0 == key;
        assert(i < short.len());
        assert(short[i] == long.subrange(0, short.len() as int)[i]);
    }
}

proof fn lemma_last_is_there(
    before: Seq<(Seq<char>, Seq<char>)>,
    after: Seq<(Seq<char>, Seq<char>)>,
    b: Seq<(Seq<char>, Seq<char>)>,
    c: Seq<(Seq<char>, Seq<char>)>,
    form: Seq<(Seq<char>, Seq<char>)>,
    key: Seq<char>,
    read: Result<Option<Seq<char>>, Seq<char>>,
)
    requires
        after.is_prefix_of(b),
        b.is_prefix_of(c),
        c.is_prefix_of(form),
    ensures
        read matches Ok(Some(v)) ==> (after == before.push((key, v)) ==> from_secret(
            form,
            key,
            read,
        )),
{
    if let Ok(Some(v)) = read {
        if after == before.push((key, v)) {
            let i = before.len() as int;
            assert(after[i] == (key, v));
            assert(after[i] == b.subrange(0, after.len() as int)[i]);
            assert(b[i] == c.subrange(0, b.len() as int)[i]);
            assert(c[i] == form.subrange(0, c.len() as int)[i]);
        }
    }
}

/// A token refers to a keyring entry if and only if it is an object that names both a
/// service and an account.
pub proof fn lemma_tokens_in_a_keyring(v: Json)
    ensures
        !refers_to_keyring(None),
        refers_to_keyring(Some(v)) <==> v.get("keyring_service"@) is Some && v.get(
            "keyring_account"@,
        ) is Some,
{
}

} // verus!

//! Webhook actions and the OAuth token exchange.

use vstd::prelude::*;
use vstd::string::*;

use crate::dispatcher::{DispatchRecord, DispatchResult};
use crate::execution::{collect_strings, config_get, config_str, config_text, config_value};
use crate::execution::{exchanges_code, is_token_exchange, pair_texts, placeholder, string_entries};
use crate::json::{json_text, lemma_member_of_with_member, member, to_text, well_formed};
use crate::secrets::{get_secret, may_read, may_write, raw_view, set_secret, takes, unit_view};
use crate::secrets::SecretStore;
use crate::text::{cat2, cat3, contains, ends_with, join_texts, joined, occurs_in, opt_text, pieces};
use crate::text::{may_call, replace, replaced, same, split_char, texts, to_upper, upper};
use crate::value::{members, opt_json, Json, Value};

verus! {

broadcast use crate::value::group_value_views;

/// The text that a value stands for in a URL: a string as it is, anything else
/// as JSON.
pub open spec fn url_text(v: Json) -> Seq<char> {
    match v {
        Json::Str(s) => s,
        other => json_text(other),
    }
}

fn text_in_url(v: &Value) -> (r: String)
    ensures
        r@ == url_text(v@),
{
    match v {
        Value::Str(s) => s.clone(),
        _ => to_text(v),
    }
}

/// The URL with the placeholders of the first `n` defaults filled in; an empty
/// default leaves its placeholder for the call to fill.
pub open spec fn defaults_filled(url: Seq<char>, m: Seq<(Seq<char>, Json)>, n: nat) -> Seq<char>
    decreases n,
{
    if n == 0 || n > m.len() {
        url
    } else {
        let before = defaults_filled(url, m, (n - 1) as nat);
        if m[n - 1].1 == Json::Str(Seq::empty()) {
            before
        } else {
            replaced(before, placeholder(m[n - 1].0), url_text(m[n - 1].1))
        }
    }
}

/// The URL with the placeholders of the first `n` parameters filled in.
pub open spec fn params_filled(url: Seq<char>, m: Seq<(Seq<char>, Json)>, n: nat) -> Seq<char>
    decreases n,
{
    if n == 0 || n > m.len() {
        url
    } else {
        let before = params_filled(url, m, (n - 1) as nat);
        if occurs_in(placeholder(m[n - 1].0), before) {
            replaced(before, placeholder(m[n - 1].0), url_text(m[n - 1].1))
        } else {
            before
        }
    }
}

/// The members of an object; none of anything else.
pub open spec fn object_members(v: Option<Json>) -> Seq<(Seq<char>, Json)> {
    match v {
        Some(Json::Object(m)) => m,
        _ => Seq::empty(),
    }
}

/// The URL that a webhook action goes to: the template with the configured
/// defaults, the parameters of the call and the configured suffix.
pub open spec fn target_url(url: Seq<char>, cfg: Option<Json>, params: Json) -> Seq<char> {
    let defaults = object_members(config_get(cfg, "path_params"@));
    let given = object_members(Some(params));
    let u = params_filled(
        defaults_filled(url, defaults, defaults.len()),
        given,
        given.len(),
    );
    match config_str(cfg, "url_suffix"@) {
        Some(suffix) => u + suffix,
        None => u,
    }
}

/// The URL that a webhook action goes to. Nothing is URL-encoded: the author of
/// the action chose the template.
pub fn webhook_target(url: &str, action_config: Option<&Value>, params: &Value) -> (r: String)
    ensures
        r@ == target_url(url@, opt_json(action_config), params@),
{
    let mut out = url.to_owned();
    if let Some(Value::Object(m)) = config_value(action_config, "path_params") {
        let mut i: usize = 0;
        while i < m.len()
            invariant
                i <= m.len(),
                out@ == defaults_filled(url@, members(m@), i as nat),
            decreases m.len() - i,
        {
            let skip = match &m[i].1 {
                Value::Str(s) => s.as_str().is_empty(),
                _ => false,
            };
            assert(skip == (members(m@)[i as int].1 == Json::Str(Seq::empty()))) by {
                if let Value::Str(s) = m@[i as int].1 {
                    assert(s@.len() == 0 ==> s@ =~= Seq::<char>::empty());
                }
            }
            if !skip {
                let token = cat3("{", m[i].0.as_str(), "}");
                assert(token@.len() > 0) by {
                    reveal_strlit("{");
                }
                let with = text_in_url(&m[i].1);
                out = replace(out.as_str(), token.as_str(), with.as_str());
            }
            i += 1;
        }
    }
    let ghost from_defaults = out@;
    if let Value::Object(m) = params {
        let mut i: usize = 0;
        while i < m.len()
            invariant
                i <= m.len(),
                out@ == params_filled(from_defaults, members(m@), i as nat),
            decreases m.len() - i,
        {
            let token = cat3("{", m[i].0.as_str(), "}");
            assert(token@.len() > 0) by {
                reveal_strlit("{");
            }
            if contains(out.as_str(), token.as_str()) {
                let with = text_in_url(&m[i].1);
                out = replace(out.as_str(), token.as_str(), with.as_str());
            }
            i += 1;
        }
    }
    match config_text(action_config, "url_suffix") {
        Some(suffix) => cat2(out.as_str(), suffix),
        None => out,
    }
}

/// A request to a webhook.
#[derive(Debug)]
pub struct WebhookRequest {
    pub url: String,
    pub method: String,
    pub headers: Vec<(String, String)>,
    /// What goes on the query string.
    pub query: Option<Value>,
    /// What goes into the body, as JSON.
    pub body: Option<Value>,
}

/// What dispatching a webhook action asks of the caller.
#[derive(Debug)]
pub enum WebhookDispatch {
    /// Exchange an authorization code at this token endpoint.
    TokenExchange(String),
    /// Send this request.
    Request(WebhookRequest),
}

pub open spec fn webhook_method(cfg: Option<Json>) -> Seq<char> {
    match config_str(cfg, "method"@) {
        Some(m) => upper(m),
        None => upper("POST"@),
    }
}

pub open spec fn method_known(m: Seq<char>) -> bool {
    m == "GET"@ || m == "POST"@ || m == "PUT"@ || m == "PATCH"@ || m == "DELETE"@
}

pub open spec fn unsupported_method(m: Seq<char>) -> Seq<char> {
    "unsupported webhook method '"@ + m + "'; expected GET, POST, PUT, PATCH, or DELETE"@
}

/// The members among the first `n` that are not null.
pub open spec fn present_members(m: Seq<(Seq<char>, Json)>, n: nat) -> Seq<(Seq<char>, Json)>
    decreases n,
{
    if n == 0 || n > m.len() {
        Seq::empty()
    } else if m[n - 1].1 is Null {
        present_members(m, (n - 1) as nat)
    } else {
        present_members(m, (n - 1) as nat).push(m[n - 1])
    }
}

/// The parameters that go on a query string: an object without its nulls.
pub open spec fn query_params(params: Json) -> Json {
    match params {
        Json::Object(m) => Json::Object(present_members(m, m.len())),
        other => other,
    }
}

fn without_nulls(params: &Value) -> (r: Value)
    ensures
        r@ == query_params(params@),
{
    match params {
        Value::Object(m) => {
            let mut out: Vec<(String, Value)> = Vec::new();
            assert(members(out@) =~= Seq::<(Seq<char>, Json)>::empty());
            let mut i: usize = 0;
            while i < m.len()
                invariant
                    i <= m.len(),
                    members(out@) == present_members(members(m@), i as nat),
                decreases m.len() - i,
            {
                let ghost before = members(out@);
                if !m[i].1.is_null() {
                    out.push((m[i].0.clone(), m[i].1.clone()));
                    assert(members(out@) =~= before.push(members(m@)[i as int]));
                }
                i += 1;
            }
            Value::Object(out)
        },
        _ => params.clone(),
    }
}

/// The body that a webhook sends: the parameters, or the one of them that
/// `body_path` names.
pub open spec fn body_value(cfg: Option<Json>, params: Json) -> Json {
    match config_str(cfg, "body_path"@) {
        Some(path) => params.field(path),
        None => params,
    }
}

pub open spec fn request_headers(cfg: Option<Json>) -> Seq<(Seq<char>, Seq<char>)> {
    seq![("User-Agent"@, "sol-webhook/1.0"@)] + string_entries(config_get(cfg, "headers"@))
}

/// Whether a request is the one of a webhook action.
pub open spec fn is_request(
    req: WebhookRequest,
    url: Seq<char>,
    cfg: Option<Json>,
    params: Json,
) -> bool {
    let m = webhook_method(cfg);
    let on_query = m == "GET"@ || m == "DELETE"@;
    &&& req.url@ == url
    &&& req.method@ == m
    &&& pair_texts(req.headers@) == request_headers(cfg)
    &&& (match req.query {
        Some(q) => on_query && q@ == query_params(params),
        None => !on_query,
    })
    &&& (match req.body {
        Some(b) => !on_query && b@ == body_value(cfg, params),
        None => on_query,
    })
}

/// Whether a decision is the one of a webhook action whose URL was judged by
/// the allowlist.
pub open spec fn is_webhook_dispatch(
    r: Result<WebhookDispatch, String>,
    url: Seq<char>,
    cfg: Option<Json>,
    params: Json,
    judged: Result<(), String>,
) -> bool {
    match judged {
        Err(e) => r is Err && r->Err_0@ == e@,
        Ok(_) => if exchanges_code(cfg) {
            r matches Ok(WebhookDispatch::TokenExchange(u)) && u@ == url
        } else if !method_known(webhook_method(cfg)) {
            r is Err && r->Err_0@ == unsupported_method(webhook_method(cfg))
        } else {
            r matches Ok(WebhookDispatch::Request(req)) && is_request(req, url, cfg, params)
        },
    }
}

/// Decide what a webhook action sends. `validate` judges a URL against the
/// allowlist; it is asked about the URL that the request goes to, after every
/// substitution, so that no parameter evades it.
pub fn dispatch_webhook<V: FnOnce(&str) -> Result<(), String>>(
    url: &str,
    params: &Value,
    action_config: Option<&Value>,
    validate: V,
) -> (r: Result<WebhookDispatch, String>)
    requires
        may_call(validate, target_url(url@, opt_json(action_config), params@)),
    ensures
        exists|s: &str, o: Result<(), String>|
            s@ == target_url(url@, opt_json(action_config), params@) && #[trigger] call_ensures(
                validate,
                (s,),
                o,
            ) && is_webhook_dispatch(r, s@, opt_json(action_config), params@, o),
{
    let target = webhook_target(url, action_config, params);
    let judged_url: &str = target.as_str();
    let judged = validate(judged_url);
    let ghost verdict = judged;
    if let Err(e) = judged {
        let r: Result<WebhookDispatch, String> = Err(e);
        assert(is_webhook_dispatch(r, judged_url@, opt_json(action_config), params@, verdict));
        return r;
    }
    if is_token_exchange(action_config) {
        let r: Result<WebhookDispatch, String> = Ok(
            WebhookDispatch::TokenExchange(judged_url.to_owned()),
        );
        assert(is_webhook_dispatch(r, judged_url@, opt_json(action_config), params@, verdict));
        return r;
    }
    let method = to_upper(
        match config_text(action_config, "method") {
            Some(m) => m,
            None => "POST",
        },
    );
    let m: &str = method.as_str();
    if !(same(m, "GET") || same(m, "POST") || same(m, "PUT") || same(m, "PATCH") || same(
        m,
        "DELETE",
    )) {
        let r: Result<WebhookDispatch, String> = Err(
            cat3(
                "unsupported webhook method '",
                m,
                "'; expected GET, POST, PUT, PATCH, or DELETE",
            ),
        );
        assert(is_webhook_dispatch(r, judged_url@, opt_json(action_config), params@, verdict));
        return r;
    }
    let on_query = same(m, "GET") || same(m, "DELETE");
    let mut headers: Vec<(String, String)> = vec![
        ("User-Agent".to_owned(), "sol-webhook/1.0".to_owned()),
    ];
    let mut extra = collect_strings(config_value(action_config, "headers"));
    let ghost extra_view = extra@;
    let ghost head = headers@;
    headers.append(&mut extra);
    assert(pair_texts(headers@) =~= request_headers(opt_json(action_config))) by {
        assert(headers@ =~= head + extra_view);
    }
    let (query, body) = if on_query {
        (Some(without_nulls(params)), None)
    } else {
        let b = match config_text(action_config, "body_path") {
            Some(path) => params.field(path),
            None => params.clone(),
        };
        (None, Some(b))
    };
    let r: Result<WebhookDispatch, String> = Ok(
        WebhookDispatch::Request(
            WebhookRequest {
                url: judged_url.to_owned(),
                method: m.to_owned(),
                headers,
                query,
                body,
            },
        ),
    );
    assert(is_webhook_dispatch(r, judged_url@, opt_json(action_config), params@, verdict));
    r
}

/// Whether one of the headers bears a name, whatever the case of its letters.
pub open spec fn bears_header(headers: Seq<(Seq<char>, Seq<char>)>, name: Seq<char>) -> bool {
    exists|i: int| 0 <= i < headers.len() && upper(#[trigger] headers[i].0) == upper(name)
}

/// The headers with the value that the auth block was resolved to. A header
/// that the action sets itself wins over it.
pub open spec fn authorized_headers(
    headers: Seq<(Seq<char>, Seq<char>)>,
    bearer: Option<Seq<char>>,
) -> Seq<(Seq<char>, Seq<char>)> {
    match bearer {
        Some(v) => if bears_header(headers, "Authorization"@) {
            headers
        } else {
            headers.push(("Authorization"@, v))
        },
        None => headers,
    }
}

/// Add what the auth block was resolved to as the `Authorization` header, unless
/// the request has one already.
pub fn authorize(headers: Vec<(String, String)>, bearer: Option<&str>) -> (r: Vec<
    (String, String),
>)
    ensures
        pair_texts(r@) == authorized_headers(pair_texts(headers@), opt_text(bearer)),
{
    let value = match bearer {
        Some(v) => v,
        None => {
            return headers;
        },
    };
    let wanted = to_upper("Authorization");
    let mut i: usize = 0;
    while i < headers.len()
        invariant
            i <= headers.len(),
            wanted@ == upper("Authorization"@),
            forall|j: int|
                0 <= j < i ==> upper(#[trigger] pair_texts(headers@)[j].0) != upper(
                    "Authorization"@,
                ),
        decreases headers.len() - i,
    {
        let name = to_upper(headers[i].0.as_str());
        if same(name.as_str(), wanted.as_str()) {
            assert(upper(pair_texts(headers@)[i as int].0) == upper("Authorization"@));
            return headers;
        }
        i += 1;
    }
    let mut out = headers;
    let ghost before = pair_texts(out@);
    out.push(("Authorization".to_owned(), value.to_owned()));
    assert(pair_texts(out@) =~= before.push(("Authorization"@, value@)));
    out
}

/// A request of an action that sets its own `Authorization` header is sent with
/// that header, whatever the auth block was resolved to.
pub proof fn lemma_explicit_authorization_wins(
    headers: Seq<(Seq<char>, Seq<char>)>,
    at: int,
    bearer: Option<Seq<char>>,
)
    requires
        0 <= at < headers.len(),
        upper(headers[at].0) == upper("Authorization"@),
    ensures
        authorized_headers(headers, bearer) == headers,
{
    assert(bears_header(headers, "Authorization"@));
}

/// A request that the allowlist refuses is never sent, whatever the parameters
/// and the config say.
pub proof fn lemma_refused_url_is_not_requested(
    r: Result<WebhookDispatch, String>,
    url: Seq<char>,
    cfg: Option<Json>,
    params: Json,
    judged: Result<(), String>,
)
    requires
        is_webhook_dispatch(r, url, cfg, params, judged),
        judged is Err,
    ensures
        r is Err,
{
}

/// No parameter that is null goes on a query string.
pub proof fn lemma_query_has_no_nulls(m: Seq<(Seq<char>, Json)>, n: nat)
    requires
        n <= m.len(),
    ensures
        forall|i: int|
            0 <= i < present_members(m, n).len() ==> !((#[trigger] present_members(m, n)[i]).1 is Null),
    decreases n,
{
    if n > 0 {
        lemma_query_has_no_nulls(m, (n - 1) as nat);
    }
}

/// The result of a request that was answered: the body, and on failure a message.
pub open spec fn answered(
    action_name: Seq<char>,
    body: Json,
    success: bool,
    failure: Seq<char>,
) -> DispatchRecord {
    DispatchRecord {
        action_name,
        result: body,
        success,
        message: if success {
            None
        } else {
            Some(failure)
        },
        trace: Seq::empty(),
    }
}

/// What the answer to a webhook request comes to. `status` is the status as it
/// is printed.
pub fn finish_webhook(action_name: &str, body: Value, success: bool, status: &str) -> (r:
    DispatchResult)
    ensures
        r@ == answered(action_name@, body@, success, "webhook returned HTTP "@ + status@),
{
    DispatchResult {
        action_name: action_name.to_owned(),
        result: body,
        success,
        message: if success {
            None
        } else {
            Some(cat2("webhook returned HTTP ", status))
        },
        trace: Vec::new(),
    }
}

// ── OAuth token exchange ─────────────────────────────────────────────────────

/// Whether a field of an auth block names a secret. The client secret does not: it
/// is one.
pub open spec fn names_secret(key: Seq<char>) -> bool {
    "_secret"@.is_suffix_of(key) && key != "client_secret"@
}

/// The fields among the first `n` string members of an auth block that go into
/// the form: not its type, not what names a secret, nothing empty.
pub open spec fn auth_fields(e: Seq<(Seq<char>, Seq<char>)>, n: nat) -> Seq<(Seq<char>, Seq<char>)>
    decreases n,
{
    if n == 0 || n > e.len() {
        Seq::empty()
    } else {
        let before = auth_fields(e, (n - 1) as nat);
        let (k, v) = e[n - 1];
        if k == "type"@ || names_secret(k) || v.len() == 0 {
            before
        } else {
            before.push((k, v))
        }
    }
}

pub open spec fn has_field(form: Seq<(Seq<char>, Seq<char>)>, key: Seq<char>) -> bool {
    exists|i: int| 0 <= i < form.len() && (#[trigger] form[i]).0 == key
}

/// The name of the secret behind a form field, with the key that opens it.
pub open spec fn secret_pointer(auth: Json, cfg: Option<Json>, pointer: Seq<char>) -> Option<
    (Seq<char>, Seq<char>),
> {
    match auth.get_str(pointer) {
        Some(name) => if name.len() == 0 {
            None
        } else {
            match config_get(cfg, "secrets"@) {
                Some(secrets) => match secrets.get_str(name) {
                    Some(key) => Some((name, key)),
                    None => None,
                },
                None => None,
            }
        },
        None => None,
    }
}

/// The form with a field from the secret store, where the form lacks it and
/// reading the secret that it points to came to a value for it.
pub open spec fn with_secret_field(
    form: Seq<(Seq<char>, Seq<char>)>,
    key: Seq<char>,
    pointer: Seq<char>,
    auth: Json,
    cfg: Option<Json>,
    read: Result<Option<Seq<char>>, Seq<char>>,
) -> Seq<(Seq<char>, Seq<char>)> {
    if has_field(form, key) {
        form
    } else {
        match secret_pointer(auth, cfg, pointer) {
            Some(_) => match read {
                Ok(Some(v)) => if v.len() > 0 {
                    form.push((key, v))
                } else {
                    form
                },
                _ => form,
            },
            None => form,
        }
    }
}

/// Whether `read` is what reading the secret of a field came to, where the form
/// lacks the field and there is a secret to read.
pub open spec fn may_read_field<G: Fn(&str) -> Result<Option<String>, String>>(
    get: G,
    form: Seq<(Seq<char>, Seq<char>)>,
    key: Seq<char>,
    pointer: Seq<char>,
    auth: Json,
    cfg: Option<Json>,
    read: Result<Option<Seq<char>>, Seq<char>>,
) -> bool {
    !has_field(form, key) ==> match secret_pointer(auth, cfg, pointer) {
        Some((name, k)) => may_read(get, name, k, read),
        None => true,
    }
}

/// Whether a backend can be asked for the secret of a field, where the form of a
/// token exchange lacks the field and there is a secret to read.
pub open spec fn may_ask_for<G: Fn(&str) -> Result<Option<String>, String>>(
    get: G,
    form: Seq<(Seq<char>, Seq<char>)>,
    key: Seq<char>,
    pointer: Seq<char>,
    auth: Json,
    cfg: Option<Json>,
) -> bool {
    !has_field(form, key) ==> match secret_pointer(auth, cfg, pointer) {
        Some((name, _)) => may_call(get, name),
        None => true,
    }
}

/// Whether a backend can be asked for the secrets that a token exchange lacks.
pub open spec fn may_ask_token<G: Fn(&str) -> Result<Option<String>, String>>(
    get: G,
    cfg: Option<Json>,
) -> bool {
    let form = granted_form(cfg);
    let auth = auth_block(cfg);
    &&& may_ask_for(get, form, "client_id"@, "client_id_secret"@, auth, cfg)
    &&& may_ask_for(get, form, "client_secret"@, "client_secret_secret"@, auth, cfg)
    &&& may_ask_for(get, form, "scope"@, "scope_secret"@, auth, cfg)
}

/// What reading the three secrets of a token exchange came to.
pub struct TokenReads {
    pub client_id: Result<Option<Seq<char>>, Seq<char>>,
    pub client_secret: Result<Option<Seq<char>>, Seq<char>>,
    pub scope: Result<Option<Seq<char>>, Seq<char>>,
}

pub open spec fn auth_block(cfg: Option<Json>) -> Json {
    match config_get(cfg, "auth"@) {
        Some(a) => a,
        None => Json::Null,
    }
}

/// The form of a token exchange before the secret store is asked: the grant type
/// and the auth block.
pub open spec fn granted_form(cfg: Option<Json>) -> Seq<(Seq<char>, Seq<char>)> {
    let given = string_entries(Some(auth_block(cfg)));
    seq![("grant_type"@, "authorization_code"@)] + auth_fields(given, given.len())
}

/// The form of a token exchange with the client id that the secret store has.
pub open spec fn client_form(cfg: Option<Json>, reads: TokenReads) -> Seq<(Seq<char>, Seq<char>)> {
    with_secret_field(
        granted_form(cfg),
        "client_id"@,
        "client_id_secret"@,
        auth_block(cfg),
        cfg,
        reads.client_id,
    )
}

/// The form of a token exchange with the client id and secret that the secret
/// store has.
pub open spec fn proven_form(cfg: Option<Json>, reads: TokenReads) -> Seq<(Seq<char>, Seq<char>)> {
    with_secret_field(
        client_form(cfg, reads),
        "client_secret"@,
        "client_secret_secret"@,
        auth_block(cfg),
        cfg,
        reads.client_secret,
    )
}

/// The form of a token exchange: the grant type, the auth block, what the
/// secret store adds, and the string parameters of the call.
pub open spec fn token_form(cfg: Option<Json>, params: Json, reads: TokenReads) -> Seq<
    (Seq<char>, Seq<char>),
> {
    with_secret_field(
        proven_form(cfg, reads),
        "scope"@,
        "scope_secret"@,
        auth_block(cfg),
        cfg,
        reads.scope,
    ) + string_entries(Some(params))
}

/// Whether these are the reads that a token exchange makes.
pub open spec fn may_read_token<G: Fn(&str) -> Result<Option<String>, String>>(
    get: G,
    cfg: Option<Json>,
    reads: TokenReads,
) -> bool {
    let auth = auth_block(cfg);
    &&& may_read_field(
        get,
        granted_form(cfg),
        "client_id"@,
        "client_id_secret"@,
        auth,
        cfg,
        reads.client_id,
    )
    &&& may_read_field(
        get,
        client_form(cfg, reads),
        "client_secret"@,
        "client_secret_secret"@,
        auth,
        cfg,
        reads.client_secret,
    )
    &&& may_read_field(
        get,
        proven_form(cfg, reads),
        "scope"@,
        "scope_secret"@,
        auth,
        cfg,
        reads.scope,
    )
}

proof fn lemma_other_field_stays_out(
    form: Seq<(Seq<char>, Seq<char>)>,
    key: Seq<char>,
    pointer: Seq<char>,
    auth: Json,
    cfg: Option<Json>,
    read: Result<Option<Seq<char>>, Seq<char>>,
    other: Seq<char>,
)
    requires
        key.len() != other.len(),
    ensures
        has_field(with_secret_field(form, key, pointer, auth, cfg, read), other) == has_field(
            form,
            other,
        ),
{
    let after = with_secret_field(form, key, pointer, auth, cfg, read);
    if has_field(form, other) {
        let i = choose|i: int| 0 <= i < form.len() && (#[trigger] form[i]).0 == other;
        assert(after[i] == form[i]);
    }
    if has_field(after, other) {
        let i = choose|i: int| 0 <= i < after.len() && (#[trigger] after[i]).0 == other;
        if i < form.len() {
            assert(after[i] == form[i]);
        }
    }
}

fn form_has(form: &Vec<(String, String)>, key: &str) -> (r: bool)
    ensures
        r == has_field(pair_texts(form@), key@),
{
    let mut i: usize = 0;
    while i < form.len()
        invariant
            i <= form.len(),
            forall|j: int| 0 <= j < i ==> (#[trigger] pair_texts(form@)[j]).0 != key@,
        decreases form.len() - i,
    {
        if same(form[i].0.as_str(), key) {
            assert(pair_texts(form@)[i as int].0 == key@);
            return true;
        }
        i += 1;
    }
    false
}

fn add_secret_field<G: Fn(&str) -> Result<Option<String>, String>, S, D>(
    form: Vec<(String, String)>,
    key: &str,
    pointer: &str,
    auth: &Value,
    cfg: Option<&Value>,
    store: &SecretStore<G, S, D>,
) -> (r: (Vec<(String, String)>, Ghost<Result<Option<Seq<char>>, Seq<char>>>))
    requires
        may_ask_for(
            store.active().get,
            pair_texts(form@),
            key@,
            pointer@,
            auth@,
            opt_json(cfg),
        ),
    ensures
        may_read_field(
            store.active().get,
            pair_texts(form@),
            key@,
            pointer@,
            auth@,
            opt_json(cfg),
            r.1@,
        ),
        pair_texts(r.0@) == with_secret_field(
            pair_texts(form@),
            key@,
            pointer@,
            auth@,
            opt_json(cfg),
            r.1@,
        ),
{
    let none: Ghost<Result<Option<Seq<char>>, Seq<char>>> = Ghost(Ok(None));
    if form_has(&form, key) {
        return (form, none);
    }
    let mut form = form;
    if let Some(name) = auth.get_str(pointer) {
        if !name.is_empty() {
            if let Some(secrets) = config_value(cfg, "secrets") {
                if let Some(k) = secrets.get_str(name) {
                    let read = get_secret(store, name, k);
                    let seen: Ghost<Result<Option<Seq<char>>, Seq<char>>> = Ghost(raw_view(read));
                    if let Ok(Some(v)) = read {
                        if !v.as_str().is_empty() {
                            let ghost before = pair_texts(form@);
                            let ghost value = v@;
                            form.push((key.to_owned(), v));
                            assert(pair_texts(form@) =~= before.push((key@, value)));
                        }
                    }
                    return (form, seen);
                }
            }
        }
    }
    (form, none)
}

/// Assemble the form of a token exchange. Parameters come last, so that where a
/// field occurs twice the one of the call is the later.
pub fn token_exchange_form<G: Fn(&str) -> Result<Option<String>, String>, S, D>(
    action_config: Option<&Value>,
    params: &Value,
    store: &SecretStore<G, S, D>,
) -> (r: Vec<(String, String)>)
    requires
        may_ask_token(store.active().get, opt_json(action_config)),
    ensures
        exists|reads: TokenReads|
            may_read_token(store.active().get, opt_json(action_config), reads) && pair_texts(r@)
                == #[trigger] token_form(opt_json(action_config), params@, reads),
{
    let auth = match config_value(action_config, "auth") {
        Some(a) => a.clone(),
        None => Value::Null,
    };
    let mut form: Vec<(String, String)> = vec![
        ("grant_type".to_owned(), "authorization_code".to_owned()),
    ];
    let given = collect_strings(Some(&auth));
    let ghost e = pair_texts(given@);
    let ghost grant = seq![("grant_type"@, "authorization_code"@)];
    assert(pair_texts(form@) =~= grant + auth_fields(e, 0));
    let mut i: usize = 0;
    while i < given.len()
        invariant
            i <= given.len(),
            e == pair_texts(given@),
            pair_texts(form@) == grant + auth_fields(e, i as nat),
        decreases given.len() - i,
    {
        let k: &str = given[i].0.as_str();
        assert(e[i as int] == (given@[i as int].0@, given@[i as int].1@));
        let pointer = ends_with(k, "_secret") && !same(k, "client_secret");
        if !(same(k, "type") || pointer || given[i].1.as_str().is_empty()) {
            let ghost before = pair_texts(form@);
            form.push((k.to_owned(), given[i].1.clone()));
            assert(pair_texts(form@) =~= before.push(e[i as int]));
            assert(pair_texts(form@) =~= grant + auth_fields(e, (i + 1) as nat));
        }
        i += 1;
    }
    assert(pair_texts(form@) == granted_form(opt_json(action_config)));
    let (form, client_id) = add_secret_field(
        form,
        "client_id",
        "client_id_secret",
        &auth,
        action_config,
        store,
    );
    proof {
        reveal_strlit("client_id");
        reveal_strlit("client_secret");
        reveal_strlit("scope");
        lemma_other_field_stays_out(
            granted_form(opt_json(action_config)),
            "client_id"@,
            "client_id_secret"@,
            auth@,
            opt_json(action_config),
            client_id@,
            "client_secret"@,
        );
        lemma_other_field_stays_out(
            granted_form(opt_json(action_config)),
            "client_id"@,
            "client_id_secret"@,
            auth@,
            opt_json(action_config),
            client_id@,
            "scope"@,
        );
    }
    let ghost with_id = pair_texts(form@);
    let (form, client_secret) = add_secret_field(
        form,
        "client_secret",
        "client_secret_secret",
        &auth,
        action_config,
        store,
    );
    proof {
        lemma_other_field_stays_out(
            with_id,
            "client_secret"@,
            "client_secret_secret"@,
            auth@,
            opt_json(action_config),
            client_secret@,
            "scope"@,
        );
    }
    let (form, scope) = add_secret_field(
        form,
        "scope",
        "scope_secret",
        &auth,
        action_config,
        store,
    );
    let ghost reads = TokenReads {
        client_id: client_id@,
        client_secret: client_secret@,
        scope: scope@,
    };
    assert(may_read_token(store.active().get, opt_json(action_config), reads));
    let ghost secrets_in = form@;
    let mut form = form;
    let mut extra = collect_strings(Some(params));
    let ghost extra_view = extra@;
    form.append(&mut extra);
    assert(pair_texts(form@) =~= pair_texts(secrets_in) + pair_texts(extra_view)) by {
        assert(form@ =~= secrets_in + extra_view);
    }
    assert(pair_texts(form@) == token_form(opt_json(action_config), params@, reads));
    form
}

/// The secret-naming fields of an auth block never reach a token endpoint from
/// there.
pub proof fn lemma_secret_pointers_are_not_sent(e: Seq<(Seq<char>, Seq<char>)>, n: nat)
    requires
        n <= e.len(),
    ensures
        forall|i: int|
            0 <= i < auth_fields(e, n).len() ==> !names_secret(
                (#[trigger] auth_fields(e, n)[i]).0,
            ) && auth_fields(e, n)[i].0 != "type"@ && auth_fields(e, n)[i].1.len() > 0,
    decreases n,
{
    if n > 0 {
        lemma_secret_pointers_are_not_sent(e, (n - 1) as nat);
        let before = auth_fields(e, (n - 1) as nat);
        let after = auth_fields(e, n);
        assert forall|i: int| 0 <= i < after.len() implies !names_secret(
            (#[trigger] after[i]).0,
        ) && after[i].0 != "type"@ && after[i].1.len() > 0 by {
            if i < before.len() {
                assert(after[i] == before[i]);
            }
        }
    }
}

/// What the answer of a token endpoint comes to.
pub fn finish_token_exchange(action_name: &str, body: Value, success: bool, status: &str) -> (r:
    DispatchResult)
    ensures
        r@ == answered(
            action_name@,
            body@,
            success,
            "oauth token endpoint returned HTTP "@ + status@
                + "; check client_id/client_secret/code/redirect_uri"@,
        ),
{
    DispatchResult {
        action_name: action_name.to_owned(),
        result: body,
        success,
        message: if success {
            None
        } else {
            Some(
                cat3(
                    "oauth token endpoint returned HTTP ",
                    status,
                    "; check client_id/client_secret/code/redirect_uri",
                ),
            )
        },
        trace: Vec::new(),
    }
}

/// The action that a new refresh token is kept on, with the token.
pub open spec fn refresh_target(
    success: bool,
    body: Json,
    params: Json,
    action_name: Seq<char>,
) -> Option<(Seq<char>, Seq<char>)> {
    match body.get_str("refresh_token"@) {
        Some(t) => if success && t.len() > 0 {
            Some(
                (
                    match params.get_str("persist_to"@) {
                        Some(p) => p,
                        None => action_name + "--refresh"@,
                    },
                    t,
                ),
            )
        } else {
            None
        },
        None => None,
    }
}

/// Whether the answer of a token endpoint brings a refresh token to keep, and on
/// which action: the one that `persist_to` names, else the exchanging action's
/// sibling for refreshes.
pub fn refresh_token_to_keep(success: bool, body: &Value, params: &Value, action_name: &str) -> (r:
    Option<(String, String)>)
    ensures
        (match r {
            Some((a, t)) => Some((a@, t@)),
            None => None,
        }) == refresh_target(success, body@, params@, action_name@),
{
    if !success {
        return None;
    }
    match body.get_str("refresh_token") {
        Some(t) => if t.is_empty() {
            None
        } else {
            let target = match params.get_str("persist_to") {
                Some(p) => p.to_owned(),
                None => cat2(action_name, "--refresh"),
            };
            Some((target, t.to_owned()))
        },
        None => None,
    }
}

/// Where a refresh token is kept.
#[derive(Debug)]
pub enum RefreshStep {
    /// Nowhere: the config of the action is no object.
    NotAnObject,
    /// In the secret store, which was just asked to take it.
    Secret(Result<(), String>),
    /// In the OS credential manager, under this service and account.
    Keyring { service: String, account: String },
    /// In the config of the action, which becomes this.
    Inline(Value),
}

/// The config of an action, the empty one where it has none, with an auth block,
/// an empty one where it had none.
pub open spec fn with_auth(cfg: Option<Json>) -> Json {
    let base = match cfg {
        Some(c) => c,
        None => Json::Object(Seq::empty()),
    };
    match base.get("auth"@) {
        Some(_) => base,
        None => base.with_field("auth"@, Json::Object(Seq::empty())),
    }
}

/// The secret that the auth block names for its refresh token, with its key.
pub open spec fn refresh_secret(cfg: Json) -> Option<(Seq<char>, Seq<char>)> {
    match cfg.field("auth"@).get_str("refresh_token_secret"@) {
        Some(name) => match cfg.get("secrets"@) {
            Some(secrets) => match secrets.get_str(name) {
                Some(key) => Some((name, key)),
                None => None,
            },
            None => None,
        },
        None => None,
    }
}

/// Whether a stored refresh token refers to the OS credential manager.
pub open spec fn refers_to_keyring(v: Option<Json>) -> bool {
    match v {
        Some(Json::Object(m)) => member(m, "keyring_service"@) is Some && member(
            m,
            "keyring_account"@,
        ) is Some,
        _ => false,
    }
}

/// The config with a refresh token in its auth block.
pub open spec fn with_refresh_token(cfg: Json, token: Seq<char>) -> Json {
    cfg.with_field("auth"@, cfg.field("auth"@).with_field("refresh_token"@, Json::Str(token)))
}

/// The place in the OS credential manager that a `persist_storage` parameter
/// names, as `keyring:<service>:<account>`.
pub open spec fn named_keyring(storage: Option<Seq<char>>) -> Option<(Seq<char>, Seq<char>)> {
    match storage {
        Some(s) => {
            let p = pieces(s, ':');
            if p.len() >= 3 && p[0] == "keyring"@ {
                Some((p[1], joined(p.subrange(2, p.len() as int), ":"@)))
            } else {
                None
            }
        },
        None => None,
    }
}

fn keyring_named(storage: Option<&str>) -> (r: Option<(String, String)>)
    ensures
        match named_keyring(opt_text(storage)) {
            Some((service, account)) => r matches Some(p) && p.0@ == service && p.1@ == account,
            None => r is None,
        },
{
    let s = match storage {
        Some(s) => s,
        None => {
            return None;
        },
    };
    let parts = split_char(s, ':');
    assert(texts(parts@).len() == parts@.len());
    if parts.len() < 3 || !same(parts[0].as_str(), "keyring") {
        return None;
    }
    let mut rest: Vec<String> = Vec::new();
    let mut i: usize = 2;
    while i < parts.len()
        invariant
            2 <= i <= parts.len(),
            texts(rest@) == texts(parts@).subrange(2, i as int),
        decreases parts.len() - i,
    {
        let ghost before = rest@;
        rest.push(parts[i].clone());
        assert(texts(rest@) =~= texts(before).push(parts@[i as int]@));
        assert(texts(rest@) =~= texts(parts@).subrange(2, i + 1));
        i += 1;
    }
    Some((parts[1].clone(), join_texts(&rest, ":")))
}

/// Whether the secret store can be handed a refresh token. It is handed one only
/// where neither `persist_storage` nor the config keeps it elsewhere, and then
/// under the secret and the key that the config names.
pub open spec fn takes_refresh_token<S: Fn(&str, &str) -> Result<(), String>>(
    set: S,
    cfg: Json,
    token: Seq<char>,
    storage: Option<Seq<char>>,
) -> bool {
    cfg is Object && storage != Some("inline"@) && named_keyring(storage) is None
        ==> match refresh_secret(cfg) {
        Some((name, key)) => takes(set, name, token, key),
        None => true,
    }
}

/// Whether this is where a refresh token was kept, or is to be: where the call says,
/// else in the secret that the config names, else where the last one was.
pub open spec fn is_refresh_step<S: Fn(&str, &str) -> Result<(), String>>(
    r: RefreshStep,
    set: S,
    cfg: Json,
    target_action: Seq<char>,
    token: Seq<char>,
    storage: Option<Seq<char>>,
) -> bool {
    if !(cfg is Object) {
        r is NotAnObject
    } else if storage == Some("inline"@) {
        &&& r matches RefreshStep::Inline(c)
        &&& c@ == with_refresh_token(cfg, token)
    } else if let Some((named_service, named_account)) = named_keyring(storage) {
        &&& r matches RefreshStep::Keyring { service, account }
        &&& service@ == named_service
        &&& account@ == named_account
    } else {
        match refresh_secret(cfg) {
            Some((name, key)) => {
                &&& r matches RefreshStep::Secret(o)
                &&& may_write(set, name, token, key, unit_view(o))
            },
            None => {
                let held = cfg.field("auth"@).get("refresh_token"@);
                if refers_to_keyring(held) {
                    r matches RefreshStep::Keyring { service, account } && service@
                        == held->0.str_or("keyring_service"@, "sol"@) && account@
                        == held->0.str_or("keyring_account"@, target_action)
                } else {
                    r matches RefreshStep::Inline(c) && c@ == with_refresh_token(cfg, token)
                }
            },
        }
    }
}

/// Keep a refresh token for an action, wherever the action's own config keeps
/// it: in the secret that it names, in the credential manager that it refers to,
/// or in the config itself. A `persist_storage` of `inline`, or one that names a
/// place in the credential manager, is followed before any of these.
pub fn persist_refresh_token_for_action<G, S: Fn(&str, &str) -> Result<(), String>, D>(
    store: &SecretStore<G, S, D>,
    action_config: Option<&Value>,
    target_action: &str,
    token: &str,
    persist_storage: Option<&str>,
) -> (r: RefreshStep)
    requires
        takes_refresh_token(
            store.active().set,
            with_auth(opt_json(action_config)),
            token@,
            opt_text(persist_storage),
        ),
        match action_config {
            Some(c) => c@ is Object ==> match c@.get("auth"@) {
                Some(a) => a is Object,
                None => true,
            },
            None => true,
        },
    ensures
        is_refresh_step(
            r,
            store.active().set,
            with_auth(opt_json(action_config)),
            target_action@,
            token@,
            opt_text(persist_storage),
        ),
{
    let base = match action_config {
        Some(c) => c.clone(),
        None => {
            let none: Vec<(String, Value)> = Vec::new();
            assert(members(none@) =~= Seq::<(Seq<char>, Json)>::empty());
            Value::Object(none)
        },
    };
    if !base.is_object() {
        return RefreshStep::NotAnObject;
    }
    let cfg = match base.get("auth") {
        Some(_) => base,
        None => {
            let none: Vec<(String, Value)> = Vec::new();
            assert(members(none@) =~= Seq::<(Seq<char>, Json)>::empty());
            base.with_field("auth", Value::Object(none))
        },
    };
    let auth = cfg.field("auth");
    let inline = match persist_storage {
        Some(p) => same(p, "inline"),
        None => false,
    };
    if inline {
        let updated = auth.with_field("refresh_token", Value::text(token));
        return RefreshStep::Inline(cfg.with_field("auth", updated));
    }
    if let Some((service, account)) = keyring_named(persist_storage) {
        return RefreshStep::Keyring { service, account };
    }
    if let Some(name) = auth.get_str("refresh_token_secret") {
        if let Some(secrets) = cfg.get("secrets") {
            if let Some(key) = secrets.get_str(name) {
                return RefreshStep::Secret(set_secret(store, name, token, key));
            }
        }
    }
    let held = auth.get("refresh_token");
    let in_keyring = match held {
        Some(h) => h.is_object() && h.get("keyring_service").is_some() && h.get(
            "keyring_account",
        ).is_some(),
        None => false,
    };
    if in_keyring {
        if let Some(h) = held {
            return RefreshStep::Keyring {
                service: h.str_or("keyring_service", "sol").to_owned(),
                account: h.str_or("keyring_account", target_action).to_owned(),
            };
        }
    }
    let updated = auth.with_field("refresh_token", Value::text(token));
    RefreshStep::Inline(cfg.with_field("auth", updated))
}

/// A refresh token that is kept in the config is read back from there, and the
/// rest of the config is as it was.
pub proof fn lemma_kept_inline(cfg: Json, token: Seq<char>, other: Seq<char>)
    requires
        well_formed(cfg),
        cfg is Object,
        cfg.field("auth"@) is Object,
        other != "auth"@,
    ensures
        with_refresh_token(cfg, token).field("auth"@).get_str("refresh_token"@) == Some(token),
        with_refresh_token(cfg, token).get(other) == cfg.get(other),
{
    let m = cfg->Object_0;
    let auth = cfg.field("auth"@);
    let a = auth->Object_0;
    let updated = auth.with_field("refresh_token"@, Json::Str(token));
    lemma_member_of_with_member(a, "refresh_token"@, Json::Str(token), "refresh_token"@);
    lemma_member_of_with_member(m, "auth"@, updated, "auth"@);
    lemma_member_of_with_member(m, "auth"@, updated, other);
}

} // verus!

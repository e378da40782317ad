//! Commands and webhooks: what runs, what is sent, and what comes back.

use vstd::prelude::*;
use vstd::string::*;
use vstd::utf8::encode_utf8;

use crate::config::{CommandDef, Config};
use crate::encoding::lossy_text;
use crate::error::{Failure, SolxError};
use crate::execution::{allowed_command, command_failure, command_output, exchange_fields};
use crate::execution::{exchange_redirect, exchanges_code, is_command_plan, is_exchange_code};
use crate::execution::{is_multipart_body, is_response, is_webhook_body, is_webhook_log};
use crate::execution::{is_webhook_plan, multipart_media, other_members, pair_texts, parsed_or_text};
use crate::execution::{path_keys, slug, string_members, stripped, webhook_header_list};
use crate::execution::{webhook_params, webhook_url, CommandEnd, CommandPlan, MultipartRelatedBody};
use crate::execution::{WebhookBody, WebhookPlan};
use crate::json::{json_text, lemma_without_member, ordered};
use crate::net::outbound;
use crate::text::{texts, trimmed_start};
use crate::value::{Json, Value};

verus! {

// ── The allowlists ───────────────────────────────────────────────────────────

/// A request goes out if and only if its URL is a web URL and begins with one of
/// the prefixes of the allowlist, under its current name or its older one.
pub proof fn lemma_outbound_is_the_allowlist(cfg: Config, url: Seq<char>)
    ensures
        outbound(cfg.base_urls(), url) is Ok <==> {
            &&& ("http://"@.is_prefix_of(url) || "https://"@.is_prefix_of(url))
            &&& ((exists|i: int|
                0 <= i < cfg.allowed_base_urls@.len() && (
                #[trigger] cfg.allowed_base_urls@[i])@.is_prefix_of(url)) || (exists|i: int|
                0 <= i < cfg.allowed_webhook_base_urls@.len() && (
                #[trigger] cfg.allowed_webhook_base_urls@[i])@.is_prefix_of(url)))
        },
{
    let a = texts(cfg.allowed_base_urls@);
    let all = cfg.base_urls();
    if exists|i: int|
        0 <= i < cfg.allowed_base_urls@.len() && (#[trigger] cfg.allowed_base_urls@[i])@.is_prefix_of(
            url,
        ) {
        let i = choose|i: int|
            0 <= i < cfg.allowed_base_urls@.len() && (
            #[trigger] cfg.allowed_base_urls@[i])@.is_prefix_of(url);
        assert(all[i] == cfg.allowed_base_urls@[i]@);
    }
    if exists|i: int|
        0 <= i < cfg.allowed_webhook_base_urls@.len() && (
        #[trigger] cfg.allowed_webhook_base_urls@[i])@.is_prefix_of(url) {
        let i = choose|i: int|
            0 <= i < cfg.allowed_webhook_base_urls@.len() && (
            #[trigger] cfg.allowed_webhook_base_urls@[i])@.is_prefix_of(url);
        assert(all[a.len() + i] == cfg.allowed_webhook_base_urls@[i]@);
    }
    if exists|i: int| 0 <= i < all.len() && (#[trigger] all[i]).is_prefix_of(url) {
        let i = choose|i: int| 0 <= i < all.len() && (#[trigger] all[i]).is_prefix_of(url);
        if i < a.len() {
            assert(all[i] == cfg.allowed_base_urls@[i]@);
        } else {
            assert(all[i] == cfg.allowed_webhook_base_urls@[i - a.len()]@);
        }
    }
}

/// A command runs if and only if its key is registered, and then it is the command
/// that was registered first under that key.
pub proof fn lemma_only_registered_commands_run(defs: Seq<(String, CommandDef)>, key: Seq<char>, from: int)
    requires
        0 <= from <= defs.len(),
    ensures
        allowed_command(defs, key, from) is None <==> forall|i: int|
            from <= i < defs.len() ==> (#[trigger] defs[i]).0@ != key,
        allowed_command(defs, key, from) matches Some(d) ==> exists|i: int|
            {
                &&& from <= i < defs.len()
                &&& (#[trigger] defs[i]).0@ == key
                &&& defs[i].1 == d
                &&& forall|j: int| from <= j < i ==> (#[trigger] defs[j]).0@ != key
            },
    decreases defs.len() - from,
{
    if from < defs.len() && defs[from].0@ != key {
        lemma_only_registered_commands_run(defs, key, from + 1);
    }
}

// ── Commands ─────────────────────────────────────────────────────────────────

/// A command runs in the directory that the allowlist names for it; where it names
/// none, in the one that the action's own config names; and in the application's
/// only where neither does.
pub proof fn lemma_where_a_command_runs(
    p: CommandPlan,
    def: CommandDef,
    cfg: Option<Json>,
    appdata: Seq<char>,
    windows: bool,
    action_ref: Seq<char>,
    params: Json,
    timeout_secs: Option<u64>,
)
    requires
        is_command_plan(p, def, cfg, appdata, windows, action_ref, params, timeout_secs),
    ensures
        def.cwd matches Some(d) ==> p.cwd@ == d@,
        def.cwd is None ==> (cfg matches Some(c) ==> (c.get_str("cwd"@) matches Some(d) ==> p.cwd@
            == d)),
        def.cwd is None && (cfg is None || cfg->0.get_str("cwd"@) is None) ==> p.cwd@ == appdata,
{
}

/// The string members of an object are its pairs whose value is a string, each with
/// that string.
pub proof fn lemma_string_members(m: Seq<(Seq<char>, Json)>, n: nat, k: Seq<char>, s: Seq<char>)
    requires
        n <= m.len(),
    ensures
        string_members(m, n).contains((k, s)) <==> exists|i: int|
            0 <= i < n && #[trigger] m[i] == (k, Json::Str(s)),
    decreases n,
{
    if n > 0 {
        let before = string_members(m, (n - 1) as nat);
        let now = string_members(m, n);
        lemma_string_members(m, (n - 1) as nat, k, s);
        if before.contains((k, s)) {
            let i = choose|i: int| 0 <= i < before.len() && before[i] == (k, s);
            assert(now[i] == (k, s));
        }
        if m[n - 1] == (k, Json::Str(s)) {
            assert(now[now.len() - 1] == (k, s));
        }
        if now.contains((k, s)) {
            let i = choose|i: int| 0 <= i < now.len() && now[i] == (k, s);
            if i < before.len() {
                assert(before[i] == (k, s));
            } else {
                assert(m[n - 1] == (k, Json::Str(s)));
            }
        }
        if exists|i: int| 0 <= i < n && #[trigger] m[i] == (k, Json::Str(s)) {
            let i = choose|i: int| 0 <= i < n && #[trigger] m[i] == (k, Json::Str(s));
            if i < n - 1 {
                assert(before.contains((k, s)));
            }
        }
    }
}

proof fn lemma_other_members(m: Seq<(Seq<char>, Json)>, n: nat, i: int)
    requires
        n <= m.len(),
        0 <= i < n,
        !(m[i].1 is Str),
    ensures
        other_members(m, n).contains(m[i].0),
    decreases n,
{
    let before = other_members(m, (n - 1) as nat);
    let now = other_members(m, n);
    if i < n - 1 {
        lemma_other_members(m, (n - 1) as nat, i);
        let j = choose|j: int| 0 <= j < before.len() && before[j] == m[i].0;
        assert(now[j] == m[i].0);
    } else {
        assert(now[now.len() - 1] == m[i].0);
    }
}

/// What a planned command does: it runs the registered text, and nothing that the
/// action or its caller wrote, in the shell; it reads the parameters as JSON; it
/// has every string of the configured environment, and every other entry of it is
/// reported; and it may take as long as the call says, or five minutes.
pub proof fn lemma_a_planned_command(
    p: CommandPlan,
    def: CommandDef,
    env: Seq<(Seq<char>, Json)>,
    cfg: Json,
    appdata: Seq<char>,
    windows: bool,
    action_ref: Seq<char>,
    params: Json,
    timeout_secs: Option<u64>,
    i: int,
)
    requires
        is_command_plan(p, def, Some(cfg), appdata, windows, action_ref, params, timeout_secs),
        cfg.get("env"@) == Some(Json::Object(env)),
        0 <= i < env.len(),
    ensures
        p.command@ == def.command@,
        p.stdin@ == json_text(params),
        p.log_segment@ == slug(action_ref),
        windows ==> p.shell@ == "cmd"@ && p.flag@ == "/C"@,
        !windows ==> p.shell@ == "sh"@ && p.flag@ == "-c"@,
        env[i].1 matches Json::Str(s) ==> pair_texts(p.env@).contains((env[i].0, s)),
        !(env[i].1 is Str) ==> texts(p.skipped_env@).contains(env[i].0),
        p.env@.len() + p.skipped_env@.len() == env.len(),
        timeout_secs matches Some(t) ==> p.timeout_secs == t,
        timeout_secs is None ==> p.timeout_secs == 300,
{
    if let Json::Str(s) = env[i].1 {
        lemma_string_members(env, env.len(), env[i].0, s);
        assert(env[i] == (env[i].0, Json::Str(s)));
    } else {
        lemma_other_members(env, env.len(), i);
    }
    crate::execution::lemma_no_entry_is_lost(env, env.len());
    assert(pair_texts(p.env@).len() == p.env@.len());
    assert(texts(p.skipped_env@).len() == p.skipped_env@.len());
}

/// The name of a command's log directory is its reference, each slash inside it
/// written as an underscore.
pub proof fn lemma_log_segment(action_ref: Seq<char>, i: int)
    requires
        action_ref.len() > 0,
        action_ref[0] != '/',
        0 <= i < action_ref.len(),
    ensures
        slug(action_ref).len() == action_ref.len(),
        action_ref[i] != '/' ==> slug(action_ref)[i] == action_ref[i],
        action_ref[i] == '/' ==> slug(action_ref)[i] == '_',
        slug(seq!['/'] + action_ref) == slug(action_ref),
{
    reveal_with_fuel(trimmed_start, 2);
    let s = seq!['/'] + action_ref;
    assert(s.skip(1) =~= action_ref);
}

/// A command action succeeds if and only if the command ran and exited with
/// success. What it returns is what it printed to its standard output: the JSON that
/// this is, else the text.
pub proof fn lemma_a_command_that_fails(
    fn_name: Seq<char>,
    command: Seq<char>,
    timeout_secs: u64,
    end: CommandEnd,
)
    ensures
        command_failure(fn_name, command, timeout_secs, end) is None <==> (end matches CommandEnd::Exited {
            success: s,
            status: _,
            stdout: _,
            stderr: _,
        } && s),
        end matches CommandEnd::Exited { success: _, status: _, stdout, stderr: _ } ==> command_output(
            end,
        ) == lossy_text(stdout@),
        forall|v: Json, t: Seq<char>| #[trigger] parsed_or_text(Some(v), t) == v,
        forall|t: Seq<char>| #[trigger] parsed_or_text(None, t) == Json::Str(t),
{
}

// ── Webhooks ─────────────────────────────────────────────────────────────────

/// A webhook that the allowlist refuses is not planned; one that is planned goes to
/// the URL that was held to the allowlist, with its path parameters in it.
pub proof fn lemma_a_planned_webhook(
    r: Result<WebhookPlan, SolxError>,
    prefixes: Seq<Seq<char>>,
    url: Seq<char>,
    cfg: Option<Json>,
    params: Json,
)
    requires
        is_webhook_plan(r, prefixes, url, cfg, params),
    ensures
        r is Ok <==> outbound(prefixes, webhook_url(url, cfg, params)) is Ok,
        r matches Ok(p) ==> outbound(prefixes, p.url@) is Ok && p.url@ == webhook_url(
            url,
            cfg,
            params,
        ),
        r matches Ok(p) ==> (path_keys(cfg).len() == 0 ==> p.params@ == params),
{
}

proof fn lemma_stripped_keeps(
    m: Seq<(Seq<char>, Json)>,
    keys: Seq<(Seq<char>, Json)>,
    n: nat,
    other: Seq<char>,
)
    requires
        ordered(m),
        n <= keys.len(),
        forall|i: int| 0 <= i < n ==> (#[trigger] keys[i]).0 != other,
    ensures
        stripped(Json::Object(m), keys, n) matches Json::Object(k) && ordered(k),
        stripped(Json::Object(m), keys, n).get(other) == Json::Object(m).get(other),
    decreases n,
{
    if n > 0 {
        lemma_stripped_keeps(m, keys, (n - 1) as nat, other);
        let before = stripped(Json::Object(m), keys, (n - 1) as nat)->Object_0;
        lemma_without_member(before, keys[n - 1].0, other);
    }
}

/// Every parameter that is no path parameter is sent as it is.
pub proof fn lemma_other_params_are_sent(
    cfg: Option<Json>,
    m: Seq<(Seq<char>, Json)>,
    other: Seq<char>,
)
    requires
        ordered(m),
        forall|i: int| 0 <= i < path_keys(cfg).len() ==> (#[trigger] path_keys(cfg)[i]).0 != other,
    ensures
        webhook_params(cfg, Json::Object(m)).get(other) == Json::Object(m).get(other),
{
    lemma_stripped_keeps(m, path_keys(cfg), path_keys(cfg).len(), other);
}

/// A webhook is sent with the resolved authorization, where there is one, in front
/// of every string header of the config.
pub proof fn lemma_webhook_headers(
    cfg: Json,
    headers: Seq<(Seq<char>, Json)>,
    auth: Option<Seq<char>>,
    i: int,
)
    requires
        cfg.get("headers"@) == Some(Json::Object(headers)),
        0 <= i < headers.len(),
    ensures
        ({
            let sent = webhook_header_list(Some(cfg), auth);
            &&& (auth matches Some(a) ==> sent[0] == ("Authorization"@, a))
            &&& (headers[i].1 matches Json::Str(s) ==> sent.contains((headers[i].0, s)))
            &&& sent.len() <= headers.len() + 1
        }),
        webhook_header_list(None, auth).len() == (if auth is Some {
            1int
        } else {
            0int
        }),
{
    let own = string_members(headers, headers.len());
    let sent = webhook_header_list(Some(cfg), auth);
    crate::execution::lemma_no_entry_is_lost(headers, headers.len());
    if let Json::Str(s) = headers[i].1 {
        lemma_string_members(headers, headers.len(), headers[i].0, s);
        assert(headers[i] == (headers[i].0, Json::Str(s)));
        let j = choose|j: int| 0 <= j < own.len() && own[j] == (headers[i].0, s);
        match auth {
            Some(a) => {
                assert(sent[j + 1] == own[j]);
            },
            None => {
                assert(sent[j] == own[j]);
            },
        }
    }
}

/// Unless the config asks for media, the body of a webhook is its parameters; where
/// it does, media that is missing or no base64 is refused.
pub proof fn lemma_webhook_body(r: Result<WebhookBody, SolxError>, cfg: Option<Json>, params: Json)
    requires
        is_webhook_body(r, cfg, params),
    ensures
        (cfg is None || cfg->0.get_str("body_mode"@) != Some("multipart_related"@)) ==> (r matches Ok(
            WebhookBody::Json(v),
        ) && v@ == params),
        cfg matches Some(c) ==> c.get_str("body_mode"@) == Some("multipart_related"@) ==> {
            &&& (params.get_str("media_base64"@) is None ==> r is Err)
            &&& (multipart_media(params) is Ok <==> (r matches Ok(WebhookBody::Multipart(_))))
        },
{
}

/// What a multipart body is made of: the metadata as JSON, the media byte for byte
/// behind it, each in a part of its own between the boundaries that the content
/// type names, the last of which closes the body.
pub proof fn lemma_multipart_holds_the_media(
    b: MultipartRelatedBody,
    params: Json,
    media: Seq<u8>,
    nanos: u128,
)
    requires
        is_multipart_body(b, params, media, nanos),
    ensures
        exists|boundary: Seq<char>|
            {
                let metadata = match params.get("metadata"@) {
                    Some(m) => m,
                    None => Json::Object(Seq::empty()),
                };
                let kind = match params.get_str("media_content_type"@) {
                    Some(t) => t,
                    None => "application/octet-stream"@,
                };
                &&& boundary.len() > 0
                &&& b.content_type@ == #[trigger] ("multipart/related; boundary="@ + boundary)
                &&& b.bytes@ == encode_utf8(
                    "--"@ + boundary + "\r\nContent-Type: application/json; charset=UTF-8\r\n\r\n"@
                        + json_text(metadata) + "\r\n--"@ + boundary + ("\r\nContent-Type: "@ + kind
                        + "\r\n\r\n"@),
                ) + media + encode_utf8("\r\n--"@ + boundary + "--"@)
            },
{
    reveal_strlit("solxmpb");
    let boundary = crate::execution::boundary_at(nanos);
    assert(boundary.len() >= 7);
    assert(b.content_type@ == "multipart/related; boundary="@ + boundary);
}

/// An answer with success is the result, as JSON where it parses and else as text;
/// any other answer is an error that names who answered and with what status.
pub proof fn lemma_only_success_is_a_result(
    r: Result<Value, SolxError>,
    who: Seq<char>,
    success: bool,
    status: Seq<char>,
    text: Seq<char>,
    parsed: Option<Json>,
)
    requires
        is_response(r, who, success, status, text, parsed),
    ensures
        r is Ok <==> success,
        r matches Ok(v) ==> (parsed matches Some(p) ==> v@ == p) && (parsed is None ==> v@ == Json::Str(
            text,
        )),
        r matches Err(e) ==> (e@ matches Failure::Exec(m) && who.is_prefix_of(m)),
{
    if !success {
        let m = who + " returned "@ + status + ": "@ + crate::text::first_chars(text, 500);
        assert(who =~= m.subrange(0, who.len() as int));
    }
}

/// The form of an authorization-code exchange holds the code and the client that
/// it is for, the client's secret where it has one, and the place to come back to:
/// the call's own before the configured one, and none where that is empty.
pub proof fn lemma_exchange_form(
    code: Seq<char>,
    client_id: Seq<char>,
    client_secret: Option<Seq<char>>,
    auth: Json,
    params: Json,
)
    ensures
        ({
            let redirect = exchange_redirect(auth, params);
            let form = exchange_fields(code, client_id, client_secret, redirect);
            &&& form.contains(("grant_type"@, "authorization_code"@))
            &&& form.contains(("code"@, code))
            &&& form.contains(("client_id"@, client_id))
            &&& (client_secret matches Some(s) ==> form.contains(("client_secret"@, s)))
            &&& (client_secret is None ==> forall|s: Seq<char>|
                !(#[trigger] form.contains(("client_secret"@, s))))
            &&& (params.get_str("redirect_uri"@) matches Some(u) ==> u.len() > 0 ==> form.contains(
                ("redirect_uri"@, u),
            ))
            &&& (params.get_str("redirect_uri"@) is None ==> (auth.get_str("redirect_uri"@) matches Some(
                u,
            ) ==> u.len() > 0 ==> form.contains(("redirect_uri"@, u))))
        }),
{
    reveal_strlit("grant_type");
    reveal_strlit("code");
    reveal_strlit("client_id");
    reveal_strlit("client_secret");
    reveal_strlit("redirect_uri");
    assert("grant_type"@.len() == 10);
    assert("code"@.len() == 4);
    assert("client_id"@.len() == 9);
    assert("client_secret"@.len() == 13);
    assert("redirect_uri"@.len() == 12);
    let redirect = exchange_redirect(auth, params);
    let form = exchange_fields(code, client_id, client_secret, redirect);
    assert(form[0] == ("grant_type"@, "authorization_code"@));
    assert(form[1] == ("code"@, code));
    assert(form[2] == ("client_id"@, client_id));
    if let Some(s) = client_secret {
        assert(form[3] == ("client_secret"@, s));
    }
    if redirect.len() > 0 {
        assert(form[form.len() - 1] == ("redirect_uri"@, redirect));
    }
}

/// Which webhooks exchange a code: those whose auth block is of that type.
pub proof fn lemma_who_exchanges_codes(cfg: Option<Json>)
    ensures
        exchanges_code(cfg) <==> (cfg matches Some(c) && c.field("auth"@).get_str("type"@) == Some(
            "oauth_authorization_code"@,
        )),
{
}

/// The code of an exchange is the one that the call gives, and without one there is
/// no exchange.
pub proof fn lemma_the_code_of_an_exchange(r: Result<String, SolxError>, params: Json)
    requires
        is_exchange_code(r, params),
    ensures
        r is Ok <==> params.get_str("code"@) is Some,
        r matches Ok(c) ==> params.get_str("code"@) == Some(c@),
{
}

/// What a webhook logs: a success as information and a failure as a warning, which
/// says what went wrong.
pub proof fn lemma_what_webhooks_log(
    r: (&'static str, String),
    url: Seq<char>,
    elapsed_ms: u64,
    result: Result<Value, SolxError>,
)
    requires
        is_webhook_log(r, url, elapsed_ms, result),
    ensures
        result is Ok <==> r.0@ == "info"@,
        result is Err <==> r.0@ == "warn"@,
        ("POST "@ + url).is_prefix_of(r.1@),
        result matches Err(e) ==> e@.message().is_suffix_of(r.1@),
{
    reveal_strlit("info");
    reveal_strlit("warn");
    assert("info"@[0] == 'i' && "warn"@[0] == 'w');
    let head = "POST "@ + url;
    assert(r.1@.subrange(0, head.len() as int) =~= head);
    if let Err(e) = result {
        let m = e@.message();
        assert(r.1@.subrange(r.1@.len() - m.len(), r.1@.len() as int) =~= m);
    }
}

} // verus!

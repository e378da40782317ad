//! The `oauth-loopback` action: one handler of the dispatcher that starts a
//! loopback listener, awaits its redirect and stops it again, by its `mode`.

use vstd::prelude::*;
use vstd::string::*;

use crate::chance::{generate_token, is_token, is_utc_time, now_rfc3339};
use crate::dispatcher::{DispatchRecord, DispatchResult, HandlerRegistry};
use crate::dispatcher::{Handled, HandlerEntry};
use crate::internal::oauth::{not_registered, not_registered_text, port_in, started_json, started_value};
use crate::internal::oauth::{stopped_early, stopped_early_text, stopped_json, stopped_value};
use crate::internal::oauth::{AwaitOutcome, LoopbackRegistry};
use crate::json::{object_of, pairs_view};
use crate::oauth_loopback::{address_of, callback_json, callback_value, loopback_address, Redirect};
use crate::text::{cat3, cat5, copy_opt, decimal, opt_text, print_u64, same};
use crate::value::{Json, Value};

verus! {

broadcast use crate::value::group_value_views;

/// The operation that this handler takes.
pub const FN_NAME: &'static str = "oauth-loopback";

/// A value that the provider has to echo: sixteen random bytes in hexadecimal.
pub fn generate_state_value() -> (r: String)
    ensures
        is_token(r@),
{
    generate_token()
}

/// What a call of the action asks for.
#[derive(Debug, Clone, Copy, PartialEq, Eq, Structural)]
pub enum LoopbackMode {
    Start,
    AwaitCallback,
    Stop,
}

/// The mode that a call names, or why it names none.
pub open spec fn mode_in(params: Json) -> Result<LoopbackMode, Seq<char>> {
    match params.get_str("mode"@) {
        None => Err(
            "missing required param: mode (\"start\" | \"await_callback\" | \"stop\")"@,
        ),
        Some(m) => if m == "start"@ {
            Ok(LoopbackMode::Start)
        } else if m == "await_callback"@ {
            Ok(LoopbackMode::AwaitCallback)
        } else if m == "stop"@ {
            Ok(LoopbackMode::Stop)
        } else {
            Err(
                "invalid oauth-loopback mode '"@ + m
                    + "'; expected \"start\", \"await_callback\", or \"stop\""@,
            )
        },
    }
}

/// Whether this is the mode that a call of the loopback action asks for; any other call
/// is not its own.
pub open spec fn is_loopback_call(
    r: Option<Result<LoopbackMode, String>>,
    fn_name: Option<Seq<char>>,
    params: Json,
) -> bool {
    if fn_name != Some(FN_NAME@) {
        r is None
    } else {
        r is Some && (match mode_in(params) {
            Ok(m) => r->0 == Ok::<LoopbackMode, String>(m),
            Err(e) => r->0 is Err && r->0->Err_0@ == e,
        })
    }
}

/// What a call asks for; nothing where it is of another action, so that the
/// next handler is asked.
pub fn try_execute(fn_name: Option<&str>, params: &Value) -> (r: Option<
    Result<LoopbackMode, String>,
>)
    ensures
        is_loopback_call(r, opt_text(fn_name), params@),
{
    let own = match fn_name {
        Some(f) => same(f, FN_NAME),
        None => false,
    };
    if !own {
        return None;
    }
    match params.get_str("mode") {
        None => Some(
            Err(
                "missing required param: mode (\"start\" | \"await_callback\" | \"stop\")".to_owned(),
            ),
        ),
        Some(m) => if same(m, "start") {
            Some(Ok(LoopbackMode::Start))
        } else if same(m, "await_callback") {
            Some(Ok(LoopbackMode::AwaitCallback))
        } else if same(m, "stop") {
            Some(Ok(LoopbackMode::Stop))
        } else {
            Some(
                Err(
                    cat3(
                        "invalid oauth-loopback mode '",
                        m,
                        "'; expected \"start\", \"await_callback\", or \"stop\"",
                    ),
                ),
            )
        },
    }
}

fn named(result: Value, success: bool, message: Option<String>) -> (r: DispatchResult)
    ensures
        r@ == (DispatchRecord {
            action_name: FN_NAME@,
            result: result@,
            success,
            message: crate::text::opt_string(message),
            trace: Seq::empty(),
        }),
{
    DispatchResult { action_name: FN_NAME.to_owned(), result, success, message, trace: Vec::new() }
}

/// Whether this is what a listener that could not start comes to.
pub open spec fn is_start_failure(r: DispatchRecord, error: Seq<char>) -> bool {
    r == (DispatchRecord {
        action_name: FN_NAME@,
        result: object_of(
            seq![("started"@, Json::Bool(false)), ("error"@, Json::Str(error))],
        ),
        success: false,
        message: Some(error),
        trace: Seq::empty(),
    })
}

/// What is said where a sign-in cannot be registered.
pub fn start_failed(error: &str) -> (r: DispatchResult)
    ensures
        is_start_failure(r@, error@),
{
    let pairs: Vec<(&'static str, Value)> = vec![
        ("started", Value::Bool(false)),
        ("error", Value::text(error)),
    ];
    assert(pairs_view(pairs@) =~= seq![
        ("started"@, Json::Bool(false)),
        ("error"@, Json::Str(error@)),
    ]);
    named(Value::object(pairs), false, Some(error.to_owned()))
}

/// How a start is answered.
pub open spec fn started_record(port: u16, state_value: Seq<char>, started_at: Seq<char>) -> DispatchRecord {
    DispatchRecord {
        action_name: FN_NAME@,
        result: started_json(port, state_value, started_at),
        success: true,
        message: Some(
            "OAuth loopback listening on "@ + address_of(port) + " (state "@ + state_value + ")"@,
        ),
        trace: Seq::empty(),
    }
}

/// Note that a listener is open under a fresh state value, and answer with how to
/// reach it.
pub fn start_loopback(registry: &mut LoopbackRegistry, params: &Value) -> (r: (
    String,
    DispatchResult,
))
    ensures
        is_token(r.0@),
        exists|started_at: Seq<char>|
            is_utc_time(started_at) && r.1@ == #[trigger] started_record(
                port_in(params@),
                r.0@,
                started_at,
            ),
        final(registry).open_states() == old(registry).open_states().insert(r.0@),
        final(registry).awaitable() == old(registry).awaitable().insert(r.0@),
{
    let state_value = generate_state_value();
    let started_at = now_rfc3339();
    let answer = loopback_started(registry, params, state_value.as_str(), started_at.as_str());
    (state_value, answer)
}

/// Note that a listener is open under the given state value, and answer with how
/// to reach it.
pub fn loopback_started(
    registry: &mut LoopbackRegistry,
    params: &Value,
    state_value: &str,
    started_at: &str,
) -> (r: DispatchResult)
    ensures
        r@ == started_record(port_in(params@), state_value@, started_at@),
        final(registry).open_states() == old(registry).open_states().insert(state_value@),
        final(registry).awaitable() == old(registry).awaitable().insert(state_value@),
{
    let port = crate::internal::oauth::loopback_port(params);
    registry.opened(state_value);
    let addr = loopback_address(port);
    let message = cat5(
        "OAuth loopback listening on ",
        addr.as_str(),
        " (state ",
        state_value,
        ")",
    );
    named(started_value(port, state_value, started_at), true, Some(message))
}

pub open spec fn await_failure(error: Seq<char>, state_value: Seq<char>) -> DispatchRecord {
    DispatchRecord {
        action_name: FN_NAME@,
        result: object_of(
            seq![("error"@, Json::Str(error)), ("state_value"@, Json::Str(state_value))],
        ),
        success: false,
        message: Some(error),
        trace: Seq::empty(),
    }
}

fn await_failed(error: String, state_value: &str) -> (r: DispatchResult)
    ensures
        r@ == await_failure(error@, state_value@),
{
    let pairs: Vec<(&'static str, Value)> = vec![
        ("error", Value::text(error.as_str())),
        ("state_value", Value::text(state_value)),
    ];
    assert(pairs_view(pairs@) =~= seq![
        ("error"@, Json::Str(error@)),
        ("state_value"@, Json::Str(state_value@)),
    ]);
    named(Value::object(pairs), false, Some(error))
}

/// Whether this begins to await a redirect.
pub open spec fn is_await(
    r: Result<(String, Option<u64>), DispatchResult>,
    params: Json,
    awaitable: Set<Seq<char>>,
    awaitable_after: Set<Seq<char>>,
    open_states: Set<Seq<char>>,
    open_after: Set<Seq<char>>,
) -> bool {
    &&& match params.get_str("state_value"@) {
        None => r is Err && r->Err_0@ == (DispatchRecord {
            action_name: FN_NAME@,
            result: object_of(
                seq![("error"@, Json::Str("missing required param: state_value"@))],
            ),
            success: false,
            message: Some("missing required param: state_value"@),
            trace: Seq::empty(),
        }) && awaitable_after == awaitable,
        Some(s) => if awaitable.contains(s) {
            &&& r is Ok
            &&& r->Ok_0.0@ == s
            &&& r->Ok_0.1 == params.get_u64("timeout_secs"@)
            &&& awaitable_after == awaitable.remove(s)
        } else {
            r is Err && r->Err_0@ == await_failure(not_registered(s), s) && awaitable_after == awaitable
        },
    }
    &&& open_after == open_states
}

/// Begin to await a redirect: hands out the state value and the time limit, or
/// the result where there is nothing to await. Whoever takes a redirect here
/// takes it for good.
pub fn await_callback(registry: &mut LoopbackRegistry, params: &Value) -> (r: Result<
    (String, Option<u64>),
    DispatchResult,
>)
    ensures
        is_await(
            r,
            params@,
            old(registry).awaitable(),
            final(registry).awaitable(),
            old(registry).open_states(),
            final(registry).open_states(),
        ),
{
    let state_value = match params.get_str("state_value") {
        Some(s) => s,
        None => {
            let pairs: Vec<(&'static str, Value)> = vec![
                ("error", Value::text("missing required param: state_value")),
            ];
            assert(pairs_view(pairs@) =~= seq![
                ("error"@, Json::Str("missing required param: state_value"@)),
            ]);
            return Err(
                named(
                    Value::object(pairs),
                    false,
                    Some("missing required param: state_value".to_owned()),
                ),
            );
        },
    };
    let ghost before = registry.awaitable();
    if registry.take(state_value) {
        Ok((state_value.to_owned(), params.get_u64("timeout_secs")))
    } else {
        assert(registry.awaitable() =~= before);
        Err(await_failed(not_registered_text(state_value), state_value))
    }
}

/// What a redirect that came is reported as.
pub open spec fn callback_record(state_value: Seq<char>, r: Redirect) -> DispatchRecord {
    DispatchRecord {
        action_name: FN_NAME@,
        result: callback_json(state_value, r),
        success: r.succeeded(),
        message: if r.succeeded() {
            Some("OAuth callback captured"@)
        } else {
            match r.error_description {
                Some(d) => Some(d),
                None => r.error,
            }
        },
        trace: Seq::empty(),
    }
}

/// What the end of a wait comes to.
pub open spec fn awaited(state_value: Seq<char>, outcome: AwaitOutcome) -> DispatchRecord {
    match outcome {
        AwaitOutcome::Received(x) => callback_record(state_value, x@),
        AwaitOutcome::Stopped => await_failure(stopped_early(state_value), state_value),
        AwaitOutcome::TimedOut(secs) => await_failure(
            "oauth callback timed out after "@ + decimal(secs as nat) + "s for state_value '"@
                + state_value + "'"@,
            state_value,
        ),
    }
}

pub fn await_callback_action(state_value: &str, outcome: AwaitOutcome) -> (r: DispatchResult)
    ensures
        r@ == awaited(state_value@, outcome),
{
    match outcome {
        AwaitOutcome::Received(x) => {
            let succeeded = x.succeeded();
            let message = if succeeded {
                Some("OAuth callback captured".to_owned())
            } else {
                match &x.error_description {
                    Some(d) => Some(d.clone()),
                    None => copy_opt(&x.error),
                }
            };
            named(callback_value(state_value, &x), succeeded, message)
        },
        AwaitOutcome::Stopped => await_failed(stopped_early_text(state_value), state_value),
        AwaitOutcome::TimedOut(secs) => {
            let d = print_u64(secs);
            let e = cat5(
                "oauth callback timed out after ",
                d.as_str(),
                "s for state_value '",
                state_value,
                "'",
            );
            await_failed(e, state_value)
        },
    }
}

/// Whether this stops a listener.
pub open spec fn is_stop(
    r: Result<(bool, DispatchResult), String>,
    params: Json,
    awaitable: Set<Seq<char>>,
    awaitable_after: Set<Seq<char>>,
    open_states: Set<Seq<char>>,
    open_after: Set<Seq<char>>,
) -> bool {
    match params.get_str("state_value"@) {
        None => r is Err && r->Err_0@ == "missing required param: state_value"@ && open_after == open_states && awaitable_after == awaitable,
        Some(s) => {
            let there = open_states.contains(s);
            &&& r is Ok
            &&& r->Ok_0.0 == there
            &&& r->Ok_0.1@ == (DispatchRecord {
                action_name: FN_NAME@,
                result: stopped_json(there, s),
                success: there,
                message: Some(
                    if there {
                        "OAuth loopback for state "@ + s + " stopped"@
                    } else {
                        not_registered(s)
                    },
                ),
                trace: Seq::empty(),
            })
            &&& open_after == open_states.remove(s)
            &&& awaitable_after == awaitable.remove(s)
        },
    }
}

/// Stop a listener. Says whether there is one to shut down, and the result.
pub fn stop_loopback(registry: &mut LoopbackRegistry, params: &Value) -> (r: Result<
    (bool, DispatchResult),
    String,
>)
    ensures
        is_stop(
            r,
            params@,
            old(registry).awaitable(),
            final(registry).awaitable(),
            old(registry).open_states(),
            final(registry).open_states(),
        ),
{
    let state_value = match params.get_str("state_value") {
        Some(s) => s,
        None => {
            return Err("missing required param: state_value".to_owned());
        },
    };
    let stopped = registry.closed(state_value);
    let message = if stopped {
        cat3("OAuth loopback for state ", state_value, " stopped")
    } else {
        not_registered_text(state_value)
    };
    Ok((stopped, named(stopped_value(stopped, state_value), stopped, Some(message))))
}

// ── The catalogue entry ──────────────────────────────────────────────────────

/// An action that a module brings along.
#[derive(Debug)]
pub struct BuiltinAction {
    pub name: &'static str,
    pub fn_name: Option<&'static str>,
    pub bin_name: Option<&'static str>,
    pub phrases: Vec<&'static str>,
    pub description: &'static str,
    pub model_instructions: Option<&'static str>,
}

/// What the action does.
pub const LOOPBACK_DESCRIPTION: &'static str = "Provider-agnostic OAuth 2.0 authorization-code loopback. Three modes drive the action end-to-end through the dispatcher (no Tauri event bus required): `mode: \"start\"` binds 127.0.0.1:{port} (default 8765) and returns a CSRF `state_value` plus `redirect_uri`; `mode: \"await_callback\"` blocks until the user finishes the sign-in flow and returns `{code, state, error, succeeded}`; `mode: \"stop\"` releases the port. Works with any RFC 6749 / RFC 8252 provider (Google, Microsoft, GitHub, Slack, etc.).";

/// How a model uses the action.
pub const LOOPBACK_INSTRUCTIONS: &'static str = "Generic OAuth 2.0 authorization-code with loopback redirect (RFC 6749 §4.1, RFC 8252 §7.3). To complete a sign-in flow with any OAuth provider: (1) call `oauth loopback` with `{\"mode\": \"start\"}` (optionally override `port` if the default 8765 is taken). The result contains `port`, `redirect_uri` (`http://127.0.0.1:{port}/callback`), and a random `state_value` (CSRF token). (2) build the provider's authorization URL with `redirect_uri=<redirect_uri>`, `state=<state_value>`, and the provider's required scopes. Add `access_type=offline&prompt=consent` if you need a refresh token. (3) call `open system browser` with `{\"url\": <auth_url>}`. (4) call `oauth loopback` with `{\"mode\": \"await_callback\", \"state_value\": <state_value>}` (optionally add `timeout_secs` to bound the wait — defaults to no timeout). The action blocks until the provider redirects to the loopback; result is `{code, state, error, error_description, succeeded, state_value}`. **Validate `state == state_value` before proceeding** (CSRF protection). (5) POST the code to the provider's token endpoint (with `code_verifier` if PKCE) to exchange for `access_token` / `refresh_token`. (6) call `oauth loopback` with `{\"mode\": \"stop\", \"state_value\": <state_value>}` to release the port. Store the tokens on the consuming action's `action_config.auth` block. Error path: if the provider redirects with `?error=access_denied&error_description=...`, the await_callback action returns `success: false` and the result contains the error fields so the caller can surface it instead of timing out.";

/// Brings the loopback action into the catalogue.
#[derive(Debug, Clone, Copy, PartialEq, Eq, Structural)]
pub struct LoopbackControlActionsProvider;

pub open spec fn words_of(v: Seq<&'static str>) -> Seq<Seq<char>> {
    Seq::new(v.len(), |i: int| v[i]@)
}

impl LoopbackControlActionsProvider {
    /// Where the actions come from.
    pub fn source_name(&self) -> (r: &'static str)
        ensures
            r@ == "loopback_control"@,
    {
        "loopback_control"
    }

    /// The one action of this module.
    pub fn actions(&self) -> (r: Vec<BuiltinAction>)
        ensures
            r@.len() == 1,
            r@[0].name@ == "oauth loopback"@,
            opt_text(r@[0].fn_name) == Some(FN_NAME@),
            r@[0].bin_name is None,
            words_of(r@[0].phrases@) == seq![
                "oauth loopback"@,
                "start oauth loopback"@,
                "stop oauth loopback"@,
                "await oauth callback"@,
                "oauth callback listener"@,
                "oauth loopback server"@,
                "oauth sign in callback"@,
            ],
            r@[0].description@ == LOOPBACK_DESCRIPTION@,
            opt_text(r@[0].model_instructions) == Some(LOOPBACK_INSTRUCTIONS@),
    {
        let phrases: Vec<&'static str> = vec![
            "oauth loopback",
            "start oauth loopback",
            "stop oauth loopback",
            "await oauth callback",
            "oauth callback listener",
            "oauth loopback server",
            "oauth sign in callback",
        ];
        assert(words_of(phrases@) =~= seq![
            "oauth loopback"@,
            "start oauth loopback"@,
            "stop oauth loopback"@,
            "await oauth callback"@,
            "oauth callback listener"@,
            "oauth loopback server"@,
            "oauth sign in callback"@,
        ]);
        vec![
            BuiltinAction {
                name: "oauth loopback",
                fn_name: Some(FN_NAME),
                bin_name: None,
                phrases,
                description: LOOPBACK_DESCRIPTION,
                model_instructions: Some(LOOPBACK_INSTRUCTIONS),
            },
        ]
    }
}

/// Add the handler of this module to those of the dispatcher. `handle` runs it.
pub fn register<
    N: Fn(Option<&str>, &Value) -> Handled,
    B: Fn(Option<&str>, &Value, Option<&str>) -> Handled,
>(registry: &mut HandlerRegistry<N, B>, handle: B)
    ensures
        final(registry)@ == old(registry)@.push(HandlerEntry::Borrowing { handle }),
{
    registry.push_borrowing(handle);
}

} // verus!

//! The OAuth loopback: redirects, listeners and the actions that drive them.

use solx_actions::internal::{operation, run_internal, Dispatch, Operation};
use solx_actions::internal::oauth::{bind_failed, loopback_port, AwaitOutcome, LoopbackRegistry};
use solx_actions::loopback_control::{
    await_callback, await_callback_action, loopback_started, start_failed, start_loopback, stop_loopback, try_execute,
    LoopbackControlActionsProvider, LoopbackMode, FN_NAME,
};
use solx_actions::oauth_loopback::{
    callback_value, error_html, loopback_address, redirect_uri, CallbackQuery, LoopbackResult,
    LoopbackState, DEFAULT_LOOPBACK_PORT, SUCCESS_HTML,
};
use solx_actions::dispatcher::DispatchResult;
use solx_actions::value::Value;

fn of(j: &serde_json::Value) -> Value {
    match j {
        serde_json::Value::Null => Value::Null,
        serde_json::Value::Bool(b) => Value::Bool(*b),
        serde_json::Value::Number(n) => match (n.as_u64(), n.as_i64()) {
            (Some(u), _) => Value::UInt(u),
            (None, Some(i)) => Value::NegInt(i),
            (None, None) => Value::Float(n.to_string()),
        },
        serde_json::Value::String(s) => Value::Str(s.clone()),
        serde_json::Value::Array(items) => Value::Array(items.iter().map(of).collect()),
        serde_json::Value::Object(members) => {
            Value::Object(members.iter().map(|(k, v)| (k.clone(), of(v))).collect())
        }
    }
}

/// The value that a JSON text stands for.
fn json(text: &str) -> Value {
    of(&serde_json::from_str(text).unwrap())
}

fn redirect(code: Option<&str>, state: Option<&str>, error: Option<&str>, text: Option<&str>) -> LoopbackResult {
    LoopbackResult {
        code: code.map(String::from),
        state: state.map(String::from),
        error: error.map(String::from),
        error_description: text.map(String::from),
    }
}

fn query(code: Option<&str>, state: Option<&str>, error: Option<&str>, text: Option<&str>) -> CallbackQuery {
    CallbackQuery {
        code: code.map(String::from),
        state: state.map(String::from),
        error: error.map(String::from),
        error_description: text.map(String::from),
    }
}

/// What the `oauth-loopback` action answers, with nothing but the registry to go by.
fn dispatch(
    registry: &mut LoopbackRegistry,
    fn_name: Option<&str>,
    params: &Value,
    arrived: Option<LoopbackResult>,
) -> Option<Result<DispatchResult, String>> {
    Some(match try_execute(fn_name, params)? {
        Err(e) => Err(e),
        Ok(LoopbackMode::Start) => Ok(loopback_started(registry, params, "minted", "2024-01-01T00:00:00Z")),
        Ok(LoopbackMode::AwaitCallback) => Ok(match await_callback(registry, params) {
            Err(answer) => answer,
            Ok((state, timeout)) => await_callback_action(
                &state,
                match arrived {
                    Some(r) => AwaitOutcome::Received(r),
                    None => AwaitOutcome::TimedOut(timeout.unwrap_or(0)),
                },
            ),
        }),
        Ok(LoopbackMode::Stop) => stop_loopback(registry, params).map(|(_, answer)| answer),
    })
}

fn refusal<T>(r: Option<Result<T, String>>) -> String {
    match r {
        Some(Err(e)) => e,
        _ => panic!("expected a refusal"),
    }
}

fn answer<T>(r: Option<Result<T, String>>) -> T {
    match r {
        Some(Ok(x)) => x,
        _ => panic!("expected an answer"),
    }
}

fn is_token(s: &str) -> bool {
    s.len() == 32 && s.chars().all(|c| c.is_ascii_hexdigit())
}

#[test]
fn redirect_uri_includes_callback_path() {
    assert_eq!(redirect_uri(8765), "http://127.0.0.1:8765/callback");
}

#[test]
fn loopback_result_succeeded_requires_code_and_no_error() {
    assert!(LoopbackResult {
        code: Some("abc".into()),
        state: Some("xyz".into()),
        error: None,
        error_description: None,
    }
    .succeeded());

    assert!(!LoopbackResult {
        code: None,
        state: Some("xyz".into()),
        error: Some("access_denied".into()),
        error_description: None,
    }
    .succeeded());

    assert!(!LoopbackResult {
        code: Some("abc".into()),
        state: Some("xyz".into()),
        error: Some("access_denied".into()),
        error_description: None,
    }
    .succeeded());
}

#[test]
fn register_and_deregister_round_trip() {
    let mut state: LoopbackState<u32> = LoopbackState::new();
    state.register("state-1", 7);
    assert!(state.deregister("state-1").is_some(), "should remove the registered sender");
    assert!(state.deregister("state-1").is_none());
}

#[test]
fn register_replaces_existing_sender() {
    let mut state: LoopbackState<u32> = LoopbackState::new();
    state.register("dup", 1);
    state.register("dup", 2);
    assert_eq!(state.pending.keys().len(), 1);
    assert_eq!(state.deregister("dup"), Some(2));
}

#[test]
fn callback_fires_sender_for_known_state() {
    let mut state: LoopbackState<u32> = LoopbackState::new();
    state.register("good-state", 7);
    let out = state.callback(query(Some("the-code"), Some("good-state"), None, None));
    assert_eq!(out.status, 200);
    assert_eq!(out.sender, Some(7));
    assert_eq!(out.result.code.as_deref(), Some("the-code"));
    assert_eq!(out.result.state.as_deref(), Some("good-state"));
    assert!(out.result.succeeded());
    let again = state.callback(query(Some("the-code"), Some("good-state"), None, None));
    assert_eq!(again.sender, None);
}

#[test]
fn callback_fires_sender_on_error_path() {
    let mut state: LoopbackState<u32> = LoopbackState::new();
    state.register("err-state", 7);
    let out = state.callback(query(None, Some("err-state"), Some("access_denied"), Some("user said no")));
    assert_eq!(out.status, 200);
    assert_eq!(out.sender, Some(7));
    assert!(!out.result.succeeded());
    assert_eq!(out.result.error.as_deref(), Some("access_denied"));
    assert_eq!(out.result.error_description.as_deref(), Some("user said no"));
}

#[test]
fn callback_returns_200_for_unknown_state_with_code() {
    let mut state: LoopbackState<u32> = LoopbackState::new();
    let out = state.callback(query(Some("the-code"), Some("never-registered"), None, None));
    assert_eq!(out.status, 200);
    assert_eq!(out.sender, None);
}

#[test]
fn callback_returns_200_when_state_missing() {
    let mut state: LoopbackState<u32> = LoopbackState::new();
    let out = state.callback(query(Some("the-code"), None, None, None));
    assert_eq!(out.status, 200);
}

#[test]
fn callback_returns_200_for_unknown_state_without_code() {
    let mut state: LoopbackState<u32> = LoopbackState::new();
    state.register("other", 1);
    let out = state.callback(query(None, Some("never-registered"), None, None));
    assert_eq!(out.status, 200);
    assert_eq!(out.sender, None);
    assert_eq!(state.deregister("other"), Some(1));
}

#[test]
fn error_html_escapes_user_input() {
    let page = error_html("<script>alert(1)</script>");
    assert!(!page.contains("<script>alert(1)</script>"));
    assert!(page.contains("&lt;script&gt;"));
}

#[test]
fn every_special_character_is_escaped() {
    assert!(error_html("a&b\"c'd").contains("a&amp;b"));
    assert!(!error_html("a\"c").contains("a\"c"));
}

#[test]
fn end_to_end_callback_over_http() {
    let mut state: LoopbackState<u32> = LoopbackState::new();
    state.register("e2e-state", 9);
    let out = state.callback(query(Some("the_code"), Some("e2e-state"), None, None));
    assert!(out.status / 100 == 2, "callback should respond 2xx");
    assert!(out.page.contains("Sign-in complete"));
    assert_eq!(out.page, SUCCESS_HTML);
    assert_eq!(out.sender, Some(9));
    assert_eq!(out.result.code.as_deref(), Some("the_code"));
}

#[test]
fn the_default_port_is_part_of_the_address() {
    assert_eq!(DEFAULT_LOOPBACK_PORT, 8765);
    assert_eq!(loopback_address(8765), "127.0.0.1:8765");
    assert_eq!(loopback_port(&json("{}")), 8765);
    assert_eq!(loopback_port(&json(r#"{"port": 9000}"#)), 9000);
}

#[test]
fn mod_generate_state_value_is_unique_and_hex() {
    let a = solx_actions::internal::oauth::generate_state_value();
    let b = solx_actions::internal::oauth::generate_state_value();
    assert_ne!(a, b);
    assert_eq!(a.len(), 32);
    assert!(a.chars().all(|c| c.is_ascii_hexdigit()));
}

#[test]
fn internal_generate_state_value_is_unique_and_hex() {
    let a = solx_actions::chance::generate_token();
    let b = solx_actions::chance::generate_token();
    assert_ne!(a, b);
    assert!(is_token(&a) && is_token(&b));
}

#[test]
fn loopback_control_generate_state_value_is_unique_and_hex() {
    let a = solx_actions::loopback_control::generate_state_value();
    let b = solx_actions::loopback_control::generate_state_value();
    assert_ne!(a, b);
    assert_eq!(a.len(), 32);
    assert!(a.chars().all(|c| c.is_ascii_hexdigit()));
}

#[test]
fn unknown_fn_name_returns_none() {
    let mut registry = LoopbackRegistry::new();
    assert!(dispatch(&mut registry, Some("not-oauth-loopback"), &json("{}"), None).is_none());
    assert!(dispatch(&mut registry, None, &json("{}"), None).is_none());
}

#[test]
fn missing_mode_param_errors() {
    let err = refusal(dispatch(&mut LoopbackRegistry::new(), Some(FN_NAME), &json("{}"), None));
    assert!(err.contains("missing required param: mode"), "{err}");
}

#[test]
fn invalid_mode_errors() {
    let err = refusal(dispatch(
        &mut LoopbackRegistry::new(),
        Some(FN_NAME),
        &json(r#"{"mode": "dance"}"#),
        None,
    ));
    assert!(err.contains("invalid oauth-loopback mode 'dance'"), "{err}");
    assert!(err.contains("await_callback"), "{err}");
}

#[test]
fn stop_with_missing_state_value_errors() {
    let err = refusal(dispatch(
        &mut LoopbackRegistry::new(),
        Some(FN_NAME),
        &json(r#"{"mode": "stop"}"#),
        None,
    ));
    assert!(err.contains("missing required param: state_value"), "{err}");
}

#[test]
fn stop_unknown_state_value_succeeds_with_message() {
    let ar = answer(dispatch(
        &mut LoopbackRegistry::new(),
        Some(FN_NAME),
        &json(r#"{"mode": "stop", "state_value": "never-registered"}"#),
        None,
    ));
    assert!(!ar.success);
    let msg = ar.message.unwrap();
    assert!(msg.contains("no loopback registered"), "{msg}");
    assert_eq!(ar.result.get_bool("stopped"), Some(false));
}

#[test]
fn await_callback_unknown_state_value_errors() {
    let ar = answer(dispatch(
        &mut LoopbackRegistry::new(),
        Some(FN_NAME),
        &json(r#"{"mode": "await_callback", "state_value": "nope"}"#),
        None,
    ));
    assert!(!ar.success);
    assert!(ar.message.as_deref().unwrap_or("").contains("no loopback registered"));
}

#[test]
fn await_callback_captures_success() {
    let mut registry = LoopbackRegistry::new();
    registry.opened("test-state");
    let ar = answer(dispatch(
        &mut registry,
        Some(FN_NAME),
        &json(r#"{"mode": "await_callback", "state_value": "test-state"}"#),
        Some(redirect(Some("the-code"), Some("test-state"), None, None)),
    ));
    assert!(ar.success);
    assert_eq!(ar.result.get_str("code"), Some("the-code"));
    assert_eq!(ar.result.get_str("state_value"), Some("test-state"));
    assert_eq!(ar.result.get_bool("succeeded"), Some(true));
}

#[test]
fn await_callback_captures_error() {
    let mut registry = LoopbackRegistry::new();
    registry.opened("denied");
    let ar = answer(dispatch(
        &mut registry,
        Some(FN_NAME),
        &json(r#"{"mode": "await_callback", "state_value": "denied"}"#),
        Some(redirect(None, Some("denied"), Some("access_denied"), Some("user said no"))),
    ));
    assert!(!ar.success);
    assert_eq!(ar.result.get_str("error"), Some("access_denied"));
    assert_eq!(ar.result.get_str("error_description"), Some("user said no"));
    assert_eq!(ar.result.get_bool("succeeded"), Some(false));
}

#[test]
fn await_callback_with_timeout_fires_after_no_callback() {
    let params = json(r#"{"mode": "await_callback", "state_value": "never-arrives", "timeout_secs": 1}"#);
    let ar = answer(dispatch(&mut LoopbackRegistry::new(), Some(FN_NAME), &params, None));
    assert!(!ar.success);
    let msg = ar.message.unwrap_or_default();
    assert!(msg.contains("timed out") || msg.contains("no loopback registered"), "{msg}");

    let mut registry = LoopbackRegistry::new();
    registry.opened("never-arrives");
    let ar = answer(dispatch(&mut registry, Some(FN_NAME), &params, None));
    assert!(!ar.success);
    let msg = ar.message.unwrap_or_default();
    assert!(msg.contains("timed out"), "{msg}");
}

#[test]
fn a_started_loopback_can_be_awaited_and_stopped() {
    let mut registry = LoopbackRegistry::new();
    let ar = answer(dispatch(&mut registry, Some(FN_NAME), &json(r#"{"mode": "start", "port": 9001}"#), None));
    assert!(ar.success);
    assert_eq!(ar.result.get_str("state_value"), Some("minted"));
    assert_eq!(ar.result.get_str("redirect_uri"), Some("http://127.0.0.1:9001/callback"));
    let stop = json(r#"{"mode": "stop", "state_value": "minted"}"#);
    let ar = answer(dispatch(&mut registry, Some(FN_NAME), &stop, None));
    assert!(ar.success);
    assert_eq!(ar.result.get_bool("stopped"), Some(true));
    let ar = answer(dispatch(&mut registry, Some(FN_NAME), &stop, None));
    assert!(!ar.success);
}

#[test]
fn starts_make_up_their_state_values() {
    let mut registry = LoopbackRegistry::new();
    let (state, ar) = start_loopback(&mut registry, &json(r#"{"port": 9002}"#));
    assert!(is_token(&state));
    assert_eq!(ar.result.get_str("state_value"), Some(state.as_str()));
    assert!(ar.result.get_str("started_at").unwrap().contains('T'));
    let (other, v) = registry.oauth_start(9003);
    assert!(is_token(&other) && other != state);
    assert_eq!(v.get_str("redirect_uri"), Some("http://127.0.0.1:9003/callback"));
    let params = json(&format!(r#"{{"state_value": "{other}"}}"#));
    assert!(registry.oauth_await(&params).is_ok());
    assert!(registry.oauth_await(&params).is_err());
    let (stopped, _) = registry.oauth_stop(&params).unwrap();
    assert!(stopped);
}

#[test]
fn a_loopback_that_cannot_start_says_so() {
    let ar = start_failed("address in use");
    assert!(!ar.success);
    assert!(ar.message.unwrap().contains("address in use"));
}

#[test]
fn the_provider_offers_one_action() {
    let provider = LoopbackControlActionsProvider;
    let actions = provider.actions();
    assert_eq!(actions.len(), 1);
    assert_eq!(actions[0].name, "oauth loopback");
    assert_eq!(actions[0].fn_name, Some("oauth-loopback"));
    assert_eq!(actions[0].bin_name, None);
    assert!(actions[0].phrases.contains(&"start oauth loopback"));
}

// ── The internal operations ──────────────────────────────────────────────────

fn unknown_name_errors() {
    let err = match run_internal("bogus", false) {
        Err(e) => e,
        Ok(_) => panic!("expected a refusal"),
    };
    assert!(err.contains("unknown internal fn_name 'bogus'"), "{err}");
    assert!(matches!(run_internal("bogus", true), Ok(Dispatch::Plugin)));
    assert!(operation("bogus").is_none());
    assert!(matches!(operation("oauth_await"), Some(Operation::OauthAwait)));
    assert!(matches!(operation("oauth-await"), Some(Operation::OauthAwait)));
}

fn missing_state_value_errors() {
    let err = LoopbackRegistry::new().oauth_await(&json("{}")).unwrap_err();
    assert!(err.contains("missing required param: state_value"), "{err}");
}

fn unknown_state_value_errors() {
    let err = LoopbackRegistry::new().oauth_await(&json(r#"{"state_value": "nope"}"#)).unwrap_err();
    assert!(err.contains("no loopback registered"), "{err}");
}

fn captures_success() {
    let mut registry = LoopbackRegistry::new();
    registry.opened("test-state");
    let (state, timeout) = registry.oauth_await(&json(r#"{"state_value": "test-state"}"#)).unwrap();
    assert_eq!(timeout, None);
    let arrived = redirect(Some("the-code"), Some("test-state"), None, None);
    let v = registry.oauth_awaited(&state, AwaitOutcome::Received(arrived)).unwrap();
    assert_eq!(v.get_str("code"), Some("the-code"));
    assert_eq!(v.get_str("state_value"), Some("test-state"));
    assert_eq!(v.get_bool("succeeded"), Some(true));
}

fn captures_error() {
    let mut registry = LoopbackRegistry::new();
    registry.opened("denied");
    let (state, _) = registry.oauth_await(&json(r#"{"state_value": "denied"}"#)).unwrap();
    let arrived = redirect(None, Some("denied"), Some("access_denied"), Some("user said no"));
    let v = registry.oauth_awaited(&state, AwaitOutcome::Received(arrived)).unwrap();
    assert_eq!(v.get_str("error"), Some("access_denied"));
    assert_eq!(v.get_str("error_description"), Some("user said no"));
    assert_eq!(v.get_bool("succeeded"), Some(false));
}

fn stop_without_state_value_errors() {
    let err = LoopbackRegistry::new().oauth_stop(&json("{}")).unwrap_err();
    assert!(err.contains("missing required param: state_value"), "{err}");
}

fn stop_of_an_unknown_state_value() {
    let (_, v) = LoopbackRegistry::new()
        .oauth_stop(&json(r#"{"state_value": "never-registered"}"#))
        .unwrap();
    assert_eq!(v.get_bool("stopped"), Some(false));
}

fn timeout_then_retry() {
    let mut registry = LoopbackRegistry::new();
    registry.opened("retry-state");
    let (state, timeout) = registry
        .oauth_await(&json(r#"{"state_value": "retry-state", "timeout_secs": 0}"#))
        .unwrap();
    assert_eq!(timeout, Some(0));
    let err = registry.oauth_awaited(&state, AwaitOutcome::TimedOut(0)).unwrap_err();
    assert!(err.contains("timed out"), "{err}");

    let (state, timeout) = registry.oauth_await(&json(r#"{"state_value": "retry-state"}"#)).unwrap();
    assert_eq!(timeout, None);
    let late = redirect(Some("late-code"), Some("retry-state"), None, None);
    let v = registry.oauth_awaited(&state, AwaitOutcome::Received(late)).unwrap();
    assert_eq!(v.get_str("code"), Some("late-code"));
}

fn bind_failure_is_told() {
    let err = bind_failed(loopback_port(&json(r#"{"port": 4321}"#)), "address in use");
    assert!(err.contains("failed to bind"), "expected a bind-failure error, got: {err}");
    assert!(err.contains("4321"), "{err}");
}

#[test]
fn mod_unknown_fn_name_errors() {
    unknown_name_errors();
}

#[test]
fn internal_unknown_fn_name_errors() {
    unknown_name_errors();
}

#[test]
fn mod_oauth_await_missing_state_value_errors() {
    missing_state_value_errors();
}

#[test]
fn internal_oauth_await_missing_state_value_errors() {
    missing_state_value_errors();
}

#[test]
fn mod_oauth_await_unknown_state_value_errors() {
    unknown_state_value_errors();
}

#[test]
fn internal_oauth_await_unknown_state_value_errors() {
    unknown_state_value_errors();
}

#[test]
fn mod_oauth_await_captures_success() {
    captures_success();
}

#[test]
fn internal_oauth_await_captures_success() {
    captures_success();
}

#[test]
fn mod_oauth_await_captures_error() {
    captures_error();
}

#[test]
fn internal_oauth_await_captures_error() {
    captures_error();
}

#[test]
fn mod_oauth_stop_missing_state_value_errors() {
    stop_without_state_value_errors();
}

#[test]
fn internal_oauth_stop_missing_state_value_errors() {
    stop_without_state_value_errors();
}

#[test]
fn mod_oauth_stop_unknown_state_value_succeeds_with_message() {
    stop_of_an_unknown_state_value();
}

#[test]
fn internal_oauth_stop_unknown_state_value_succeeds_with_message() {
    stop_of_an_unknown_state_value();
}

#[test]
fn mod_oauth_await_timeout_then_retry_succeeds() {
    timeout_then_retry();
}

#[test]
fn internal_oauth_await_timeout_then_retry_succeeds() {
    timeout_then_retry();
}

#[test]
fn mod_oauth_start_surfaces_bind_failure() {
    bind_failure_is_told();
}

#[test]
fn internal_oauth_start_surfaces_bind_failure() {
    bind_failure_is_told();
}

#[test]
fn a_sender_that_is_gone_is_an_error() {
    let mut registry = LoopbackRegistry::new();
    registry.opened("s");
    let (state, _) = registry.oauth_await(&json(r#"{"state_value": "s"}"#)).unwrap();
    assert!(registry.oauth_awaited(&state, AwaitOutcome::Stopped).is_err());
}

#[test]
fn an_awaited_redirect_as_a_value() {
    let v = callback_value("s", &redirect(Some("c"), Some("s"), None, None));
    assert_eq!(v.get_str("code"), Some("c"));
    assert_eq!(v.field("error"), Value::Null);
}

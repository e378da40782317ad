//! Routing, webhooks, commands, prompts, schedules and guests.

use std::cell::RefCell;
use std::collections::HashMap;
use std::rc::Rc;

use solx_actions::dispatcher::actions::{
    dispatch_actions, dispatch_prompt, dispatch_prompt_or_actions, named_result, ArtifactAction, PromptStep,
};
use solx_actions::dispatcher::commands::{
    command_dir, command_log_line, command_run, dispatch_command, event_timestamp, log_timestamp, spawn_failed, spawn_failed_line, CommandOutput,
};
use solx_actions::dispatcher::webhooks::{
    authorize, dispatch_webhook, finish_token_exchange, finish_webhook, persist_refresh_token_for_action,
    refresh_token_to_keep, token_exchange_form, webhook_target, RefreshStep, WebhookDispatch,
};
use solx_actions::dispatcher::{
    artifact_unreadable, collect_action_link_bases, completion_events, execute_action_once,
    handled_or_refused, load_artifact_bytes_from_entity, next_artifact, no_handler,
    process_due_schedules, schema_not_loaded, scheduled_failure, trigger_schedule_event,
    ArtifactSource, ArtifactStep, DispatchAction, DispatchResult, HandlerRegistry, Route, Schedule,
};
use solx_actions::loopback_control::register;
use solx_actions::secrets::{get_secret, set_secret, SecretBackendOverride, SecretStore};
use solx_actions::value::Value;
use solx_actions::wasm::{
    compile_panicked, exec, guest_params, guest_reply, guest_run, invalid_component, link_failed,
    ComponentCache, GuestEnd,
};

use base64::Engine;

fn of(j: &serde_json::Value) -> Value {
    match j {
        serde_json::Value::Null => Value::Null,
        serde_json::Value::Bool(b) => Value::Bool(*b),
        serde_json::Value::Number(n) => match (n.as_u64(), n.as_i64()) {
            (Some(u), _) => Value::UInt(u),
            (None, Some(i)) => Value::NegInt(i),
            (None, None) => Value::Float(n.to_string()),
        },
        serde_json::Value::String(s) => Value::Str(s.clone()),
        serde_json::Value::Array(items) => Value::Array(items.iter().map(of).collect()),
        serde_json::Value::Object(members) => {
            Value::Object(members.iter().map(|(k, v)| (k.clone(), of(v))).collect())
        }
    }
}

/// The value that a JSON text stands for.
fn json(text: &str) -> Value {
    of(&serde_json::from_str(text).unwrap())
}

fn parse(text: &str) -> Option<Value> {
    serde_json::from_str::<serde_json::Value>(text).ok().map(|j| of(&j))
}

fn parse_or_complain(text: &str) -> Result<Value, String> {
    serde_json::from_str::<serde_json::Value>(text).map(|j| of(&j)).map_err(|e| e.to_string())
}

fn action(ty: Option<&str>, fn_name: Option<&str>, bin_name: Option<&str>) -> DispatchAction {
    DispatchAction {
        name: "a".to_string(),
        action_type: ty.map(String::from),
        fn_name: fn_name.map(String::from),
        bin_name: bin_name.map(String::from),
    }
}

fn done(name: &str) -> DispatchResult {
    DispatchResult { action_name: name.to_string(), result: Value::Null, success: true, message: None, trace: vec![Value::Bool(true)] }
}

fn ok<T, E>(r: Result<T, E>) -> T {
    match r {
        Ok(x) => x,
        Err(_) => panic!("expected success"),
    }
}

fn refusal<T>(r: Result<T, String>) -> String {
    match r {
        Err(e) => e,
        Ok(_) => panic!("expected a refusal"),
    }
}

fn allow_all(_: &str) -> Result<(), String> {
    Ok(())
}

// ── Routing ──────────────────────────────────────────────────────────────────

#[test]
fn actions_are_routed_by_their_type() {
    assert!(matches!(execute_action_once(&action(Some("Prompt"), None, Some("p"))), Ok(Route::PromptOrActions)));
    assert!(matches!(execute_action_once(&action(Some("Actions"), None, Some("p"))), Ok(Route::PromptOrActions)));
    assert!(matches!(execute_action_once(&action(None, Some("f"), None)), Ok(Route::Handlers)));
    assert!(matches!(
        execute_action_once(&action(Some("Webhook"), Some("https://h/"), None)),
        Ok(Route::Webhook(u)) if u == "https://h/"
    ));
    assert!(matches!(
        execute_action_once(&action(Some("Command"), Some("k"), None)),
        Ok(Route::Command(c)) if c == "k"
    ));
}

#[test]
fn an_action_without_a_handler_is_refused() {
    let e = no_handler(&action(None, Some("f\"x"), None));
    assert_eq!(e, "action 'a' has no registered handler (bin_name=None, fn_name=Some(\"f\\\"x\"))");
    assert_eq!(refusal(handled_or_refused(&action(None, Some("f\"x"), None), None)), e);
    assert_eq!(ok(handled_or_refused(&action(None, None, None), Some(Ok(done("x"))))).action_name, "x");
    assert!(schema_not_loaded("/types/x", "gone").contains("gone"));
}

#[test]
fn the_first_handler_that_answers_wins() {
    let mut registry = HandlerRegistry::new();
    registry.push_native(|name: Option<&str>, _: &Value| match name {
        Some("one") => Some(Ok(done("native"))),
        _ => None,
    });
    let borrowing = |name: Option<&str>, _: &Value, caller: Option<&str>| match name {
        Some("one") => panic!("a handler behind the one that answers is not asked"),
        Some("two") => Some(Ok(done(caller.unwrap_or("nobody")))),
        Some("three") => Some(Err("no".to_string())),
        _ => None,
    };
    register(&mut registry, borrowing);
    let asked = |n: &str| registry.try_execute(Some(n), &Value::Null, Some("caller"));
    assert_eq!(ok(asked("one").unwrap()).action_name, "native");
    assert_eq!(ok(asked("two").unwrap()).action_name, "caller");
    assert_eq!(refusal(asked("three").unwrap()), "no");
    assert!(asked("four").is_none());
}

#[test]
fn artifacts_are_looked_for_in_three_places() {
    let mut errors: Vec<String> = vec![];
    let mut seen: Vec<String> = vec![];
    loop {
        match next_artifact("ent", "x.wasm", &errors) {
            ArtifactStep::Look(n) => {
                seen.push(n);
                errors.push(format!("e{}", errors.len()));
            }
            ArtifactStep::Missing(e) => {
                assert!(e.contains("x.wasm") && e.contains("e0") && e.contains("e2"), "{e}");
                break;
            }
        }
    }
    assert_eq!(seen.len(), 3);
    assert!(seen.iter().all(|n| n.contains("x.wasm")));
}

#[test]
fn artifact_bytes_are_inline_or_in_a_file() {
    let data = base64::engine::general_purpose::STANDARD.encode([1u8, 2, 3]);
    assert!(matches!(load_artifact_bytes_from_entity(&data, None), Ok(ArtifactSource::Bytes(b)) if b == vec![1, 2, 3]));
    assert!(matches!(load_artifact_bytes_from_entity("", Some("/f")), Ok(ArtifactSource::File(p)) if p == "/f"));
    assert!(load_artifact_bytes_from_entity("%%%", None).is_err());
    assert!(load_artifact_bytes_from_entity("", None).is_err());
    assert!(artifact_unreadable("/f", "denied").contains("denied"));
}

#[test]
fn link_bases_are_collected_in_order() {
    let links = vec![Some("/a".to_string()), None, Some("/b".to_string())];
    assert_eq!(collect_action_link_bases(Some(links)), vec!["/a".to_string(), "/b".to_string()]);
    assert_eq!(collect_action_link_bases(None), Vec::<String>::new());
}

#[test]
fn completed_actions_are_announced() {
    let events = completion_events(
        "e",
        Some("artifact_upload_file"),
        &json(r#"{"p": 1}"#),
        true,
        &json(r#"{"name": "f"}"#),
        &json("{}"),
        true,
    );
    assert_eq!(events.len(), 2);
    assert_eq!(events[0].name, "on_action_completed");
    assert_eq!(events[1].name, "on_file_upload_completed");
    assert!(completion_events("e", None, &Value::Null, false, &Value::Null, &Value::Null, true).is_empty());
    assert!(completion_events("e", None, &Value::Null, true, &Value::Null, &Value::Null, false).is_empty());
}

// ── Schedules ────────────────────────────────────────────────────────────────

fn schedule(name: &str, event: &str) -> Schedule {
    Schedule {
        name: name.to_string(),
        action_name: format!("run-{name}"),
        event_name: event.to_string(),
        enabled: true,
        max_runs: None,
        run_count: 0,
        next_run_at: None,
        trigger_at: Some(100),
        artifact_names: vec![],
        payload: Value::Null,
    }
}

#[test]
fn due_schedules_run_and_spent_ones_rest() {
    let mut spent = schedule("spent", "timer");
    spent.max_runs = Some(2);
    spent.run_count = 2;
    let mut off = schedule("off", "timer");
    off.enabled = false;
    let all = vec![schedule("now", "timer"), spent, off];
    let due = process_due_schedules(&all, 100);
    let names: Vec<&str> = due.iter().map(|i| i.schedule_name.as_str()).collect();
    assert!(names.iter().all(|n| *n == "now"), "{names:?}");
    assert!(process_due_schedules(&all, 99).is_empty());
    assert!(scheduled_failure("a", "s", "boom").contains("boom"));
}

#[test]
fn events_trigger_their_schedules() {
    let all = vec![schedule("a", "on_action_completed"), schedule("b", "other")];
    let fired = trigger_schedule_event(&all, "on_action_completed", &json(r#"{"x": 1}"#));
    assert_eq!(fired.len(), 1);
    assert_eq!(fired[0].schedule, 0);
    assert_eq!(fired[0].action_name, "run-a");
    assert!(trigger_schedule_event(&all, "nothing", &Value::Null).is_empty());
}

// ── Webhooks ─────────────────────────────────────────────────────────────────

#[test]
fn placeholders_take_parameters_and_defaults() {
    let cfg = json(r#"{ "path_params": { "v": "v3", "id": "" } }"#);
    let url = webhook_target("https://h/{v}/files/{id}", Some(&cfg), &json(r#"{"id": 7}"#));
    assert_eq!(url, "https://h/v3/files/7");
}

#[test]
fn a_get_sends_its_parameters_in_the_query_without_nulls() {
    let cfg = json(r#"{ "method": "get" }"#);
    let r = ok(dispatch_webhook("https://h/x", &json(r#"{"a": 1, "b": null}"#), Some(&cfg), allow_all));
    match r {
        WebhookDispatch::Request(r) => {
            assert_eq!(r.method, "GET");
            assert_eq!(r.query, Some(json(r#"{"a": 1}"#)));
            assert_eq!(r.body, None);
        }
        WebhookDispatch::TokenExchange(_) => panic!("expected a request"),
    }
}

#[test]
fn a_post_sends_its_parameters_in_the_body() {
    match ok(dispatch_webhook("https://h/x", &json(r#"{"a": 1}"#), None, allow_all)) {
        WebhookDispatch::Request(r) => {
            assert_eq!(r.method, "POST");
            assert_eq!(r.body, Some(json(r#"{"a": 1}"#)));
        }
        WebhookDispatch::TokenExchange(_) => panic!("expected a request"),
    }
}

#[test]
fn a_refused_url_is_not_requested() {
    let e = refusal(dispatch_webhook("https://h/x", &json("{}"), None, |u: &str| Err(format!("not {u}"))));
    assert!(e.contains("not https://h/x"), "{e}");
    let cfg = json(r#"{ "method": "brew" }"#);
    assert!(refusal(dispatch_webhook("https://h/x", &json("{}"), Some(&cfg), allow_all)).contains("BREW"));
}

#[test]
fn token_exchanges_go_their_own_way() {
    let cfg = json(r#"{ "auth": { "type": "oauth_authorization_code" } }"#);
    assert!(matches!(
        dispatch_webhook("https://h/token", &json("{}"), Some(&cfg), allow_all),
        Ok(WebhookDispatch::TokenExchange(u)) if u == "https://h/token"
    ));
}

#[test]
fn webhook_answers_carry_their_status() {
    let r = finish_webhook("a", json("1"), false, "404 Not Found");
    assert_eq!(r.message.as_deref(), Some("webhook returned HTTP 404 Not Found"));
    assert!(finish_webhook("a", json("1"), true, "200 OK").message.is_none());
    let r = finish_token_exchange("a", json("1"), false, "400 Bad Request");
    assert!(!r.success && r.message.unwrap().contains("400 Bad Request"));
}

type Getter = Box<dyn Fn(&str) -> Result<Option<String>, String>>;
type Setter = Box<dyn Fn(&str, &str) -> Result<(), String>>;
type Deleter = Box<dyn Fn(&str) -> Result<(), String>>;
type Backend = SecretBackendOverride<Getter, Setter, Deleter>;

/// A backend in memory that keeps what it is handed.
fn memory() -> Backend {
    let blobs: Rc<RefCell<HashMap<String, String>>> = Rc::new(RefCell::new(HashMap::new()));
    let (read, written, deleted) = (blobs.clone(), blobs.clone(), blobs);
    SecretBackendOverride {
        get: Box::new(move |name: &str| Ok(read.borrow().get(name).cloned())),
        set: Box::new(move |name: &str, blob: &str| {
            written.borrow_mut().insert(name.to_string(), blob.to_string());
            Ok(())
        }),
        delete: Box::new(move |name: &str| {
            deleted.borrow_mut().remove(name);
            Ok(())
        }),
    }
}

fn key() -> String {
    base64::engine::general_purpose::STANDARD.encode([9u8; 32])
}

#[test]
fn the_token_form_reads_secrets_and_leaves_pointers_out() {
    let store = SecretStore::new(memory());
    ok(set_secret(&store, "MY_CLIENT", "s3cret", &key()));
    let cfg = json(&format!(
        r#"{{ "auth": {{ "type": "oauth_authorization_code", "client_id": "cid", "client_secret_secret": "MY_CLIENT" }},
              "secrets": {{ "MY_CLIENT": "{}" }} }}"#,
        key()
    ));
    let form = token_exchange_form(Some(&cfg), &json(r#"{"code": "c"}"#), &store);
    assert!(form.contains(&("client_id".to_string(), "cid".to_string())), "{form:?}");
    assert!(form.contains(&("client_secret".to_string(), "s3cret".to_string())), "{form:?}");
    assert!(form.contains(&("code".to_string(), "c".to_string())), "{form:?}");
    assert!(form.iter().all(|(k, _)| !k.ends_with("_secret") || k == "client_secret"), "{form:?}");
    assert!(form.iter().all(|(k, _)| k != "type"));
}

#[test]
fn the_token_form_takes_an_inline_client_secret() {
    let mut backend = memory();
    backend.get = Box::new(|_: &str| panic!("no secret is to be read"));
    let store = SecretStore::new(backend);
    let cfg = json(
        r#"{ "auth": { "type": "oauth_authorization_code", "client_secret": "inline",
              "client_secret_secret": "X", "refresh_token_secret": "RT" },
             "secrets": { "X": "k" } }"#,
    );
    let form = token_exchange_form(Some(&cfg), &json("{}"), &store);
    assert_eq!(
        form,
        vec![
            ("grant_type".to_string(), "authorization_code".to_string()),
            ("client_secret".to_string(), "inline".to_string()),
        ]
    );
}

#[test]
fn a_token_that_is_kept_elsewhere_does_not_reach_the_secret_store() {
    let mut backend = memory();
    backend.set = Box::new(|_: &str, _: &str| panic!("nothing is to be stored"));
    let store = SecretStore::new(backend);
    let cfg = json(&format!(
        r#"{{ "auth": {{ "refresh_token_secret": "RT" }}, "secrets": {{ "RT": "{}" }} }}"#,
        key()
    ));
    for storage in ["inline", "keyring:svc:me"] {
        let step = persist_refresh_token_for_action(&store, Some(&cfg), "t", "rt", Some(storage));
        assert!(!matches!(step, RefreshStep::Secret(_)), "{storage}");
    }
    let held = json(r#"{ "auth": { "refresh_token": "old" } }"#);
    let step = persist_refresh_token_for_action(&store, Some(&held), "t", "rt", None);
    assert!(matches!(step, RefreshStep::Inline(_)));
}

#[test]
fn refresh_tokens_are_kept_where_the_config_says() {
    let body = json(r#"{"refresh_token": "rt"}"#);
    assert!(refresh_token_to_keep(false, &body, &json("{}"), "a").is_none());
    let kept = refresh_token_to_keep(true, &body, &json(r#"{"target_action": "t"}"#), "a");
    assert_eq!(kept.map(|(_, t)| t).as_deref(), Some("rt"));

    let store = SecretStore::new(memory());
    match persist_refresh_token_for_action(&store, Some(&json("{}")), "t", "rt", None) {
        RefreshStep::Inline(c) => assert_eq!(c.field("auth").get_str("refresh_token"), Some("rt")),
        _ => panic!("expected an inline token"),
    }
    let cfg = json(r#"{ "auth": { "refresh_token": { "keyring_service": "sol", "keyring_account": "x" } } }"#);
    match persist_refresh_token_for_action(&store, Some(&cfg), "t", "rt", None) {
        RefreshStep::Keyring { service, account } => assert_eq!((service.as_str(), account.as_str()), ("sol", "x")),
        _ => panic!("expected a keyring entry"),
    }
    let cfg = json(&format!(
        r#"{{ "auth": {{ "refresh_token_secret": "RT" }}, "secrets": {{ "RT": "{}" }} }}"#,
        key()
    ));
    match persist_refresh_token_for_action(&store, Some(&cfg), "t", "rt", None) {
        RefreshStep::Secret(r) => assert!(r.is_ok()),
        _ => panic!("expected a secret"),
    }
    assert_eq!(get_secret(&store, "RT", &key()), Ok(Some("rt".to_string())));
    assert!(matches!(
        persist_refresh_token_for_action(&store, Some(&json("1")), "t", "rt", None),
        RefreshStep::NotAnObject
    ));
}

#[test]
fn persist_storage_is_followed_before_the_config() {
    let store = SecretStore::new(memory());
    let kept = json(r#"{ "auth": { "refresh_token": { "keyring_service": "sol", "keyring_account": "x" } } }"#);
    match persist_refresh_token_for_action(&store, Some(&kept), "t", "rt", Some("inline")) {
        RefreshStep::Inline(c) => assert_eq!(c.field("auth").get_str("refresh_token"), Some("rt")),
        _ => panic!("expected an inline token"),
    }
    match persist_refresh_token_for_action(&store, Some(&json("{}")), "t", "rt", Some("keyring:svc:me:too")) {
        RefreshStep::Keyring { service, account } => {
            assert_eq!((service.as_str(), account.as_str()), ("svc", "me:too"))
        }
        _ => panic!("expected a keyring entry"),
    }
    match persist_refresh_token_for_action(&store, Some(&json("{}")), "t", "rt", Some("keyring:svc")) {
        RefreshStep::Inline(_) => {}
        _ => panic!("expected an inline token"),
    }
}

#[test]
fn an_explicit_authorization_header_wins() {
    let own = vec![("authorization".to_string(), "Basic x".to_string())];
    assert_eq!(authorize(own.clone(), Some("Bearer y")), own);
    let other = vec![("User-Agent".to_string(), "sol-webhook/1.0".to_string())];
    assert_eq!(authorize(other.clone(), None), other);
    let mut expected = other.clone();
    expected.push(("Authorization".to_string(), "Bearer y".to_string()));
    assert_eq!(authorize(other, Some("Bearer y")), expected);
}

// ── Commands ─────────────────────────────────────────────────────────────────

fn output(stdout: &str, stderr: &str, success: bool) -> CommandOutput {
    CommandOutput {
        stdout: stdout.as_bytes().to_vec(),
        stderr: stderr.as_bytes().to_vec(),
        success,
        exit_code: Some(if success { 0 } else { 2 }),
    }
}

#[test]
fn commands_run_in_a_shell_with_their_parameters_in_the_environment() {
    let run = command_run(false, "echo hi", &json(r#"{"a": 1}"#), "/logs/a", Some("/w"));
    assert_eq!((run.shell, run.flag, run.command.as_str()), ("sh", "-c", "echo hi"));
    assert!(run.env.iter().any(|(_, v)| v == r#"{"a":1}"#), "{:?}", run.env);
    assert_eq!(run.cwd.as_deref(), Some("/w"));
    assert_eq!(command_run(true, "x", &Value::Null, "/l", None).shell, "cmd.exe");
    assert_eq!(command_dir(Some(&json(r#"{"cwd": "/c"}"#)), Some("/r"), "/app"), "/c");
    assert_eq!(command_dir(None, Some("/r"), "/app"), "/r");
    assert_eq!(command_dir(None, None, "/app"), "/app");
}

#[test]
fn command_output_is_parsed_where_it_is_json() {
    let r = dispatch_command("a", output(r#"{"x": 1}"#, "", true), parse);
    assert!(r.success);
    assert_eq!(r.result, json(r#"{"x": 1}"#));
    let r = dispatch_command("a", output("plain", "oops", false), parse);
    assert!(!r.success);
    assert!(r.message.is_some());
}

#[test]
fn log_lines_quote_their_previews() {
    let line = command_log_line("T", "a", false, 12, Some(2), "say \"hi\"", "");
    assert_eq!(
        line,
        "ts=T action=a status=failed duration_ms=12 exit_code=Some(2) stdout_preview=\"say \\\"hi\\\"\" stderr_preview=\"\""
    );
    assert_eq!(
        spawn_failed_line("T", "a", "c", 3, "E"),
        "ts=T action=a command=\"c\" status=spawn_failed duration_ms=3 error=E"
    );
    assert_eq!(spawn_failed("E"), "failed to execute command: E");
}

#[test]
fn log_times_are_in_utc_with_milliseconds() {
    assert_eq!(log_timestamp(1_700_000_000, 42), "2023-11-14T22:13:20.042Z");
    assert_eq!(log_timestamp(i64::MAX, 7), "9223372036854775807.007");
    assert!(event_timestamp().ends_with('Z'));
}

// ── Prompts ──────────────────────────────────────────────────────────────────

#[test]
fn prompts_instruct_without_leave_to_destroy() {
    match ok(dispatch_prompt("e", b"do it".to_vec(), &json("{}"), parse)) {
        PromptStep::Instruct(v) => {
            assert_eq!(v.get_str("instruction"), Some("do it"));
            assert_eq!(v.get_bool("allow_destructive"), Some(false));
        }
        PromptStep::Override(_) => panic!("expected an instruction"),
    }
    match ok(dispatch_prompt("e", br#"{"f": "text of f"}"#.to_vec(), &json(r#"{"prompt_file": "f"}"#), parse)) {
        PromptStep::Override(d) => assert_eq!(d.result.get_str("prompt"), Some("text of f")),
        PromptStep::Instruct(_) => panic!("expected an override"),
    }
    assert!(dispatch_prompt("e", vec![255], &json("{}"), parse).is_err());
}

#[test]
fn artifact_actions_need_a_file() {
    assert!(matches!(
        dispatch_prompt_or_actions(Some("Prompt"), Some("p.txt")),
        Ok((ArtifactAction::Prompt, f)) if f == "p.txt"
    ));
    assert!(dispatch_prompt_or_actions(Some("Prompt"), None).is_err());
    assert!(dispatch_prompt_or_actions(Some("Webhook"), Some("x")).is_err());
    assert_eq!(ok(dispatch_actions(b"[1]".to_vec(), parse_or_complain)), json("[1]"));
    assert!(dispatch_actions(b"[".to_vec(), parse_or_complain).is_err());
    let named = named_result("e", done("x"));
    assert_eq!(named.action_name, "e");
    assert_eq!(named.trace, vec![Value::Bool(true)]);
}

// ── Guests ───────────────────────────────────────────────────────────────────

#[test]
fn guests_report_or_fail() {
    let run = guest_run(Some("main"), &json(r#"{"a": 1}"#), None);
    assert_eq!(run.params_json, r#"{"a":1}"#);
    let end = GuestEnd::Returned { success: true, message: Some("m".into()), output: Some("[1]".into()) };
    let r = ok(exec("/t/w", &run, end, parse));
    assert!(r.success);
    assert_eq!(r.result, json("[1]"));
    assert_eq!(r.message.as_deref(), Some("m"));
    for end in [GuestEnd::Refused("no".into()), GuestEnd::Trapped("no".into())] {
        let r = ok(exec("/t/w", &run, end, parse));
        assert!(!r.success);
        assert_eq!((r.result, r.message.as_deref()), (Value::Null, Some("no")));
    }
    let late = ok(exec("/t/w", &guest_run(Some("main"), &Value::Null, Some(9)), GuestEnd::TimedOut, parse));
    assert!(!late.success && late.message.unwrap().contains("9"));
    let e = match exec("/t/w", &run, GuestEnd::Panicked(None), parse) {
        Err(e) => e.message(),
        Ok(_) => panic!("expected a refusal"),
    };
    assert!(e.contains("panic in WASM execution (fn_name=Some(\"main\"))"), "{e}");
    let reply = guest_reply(ok(exec(
        "/t/w",
        &run,
        GuestEnd::Returned { success: true, message: None, output: None },
        parse,
    )));
    assert!(reply.success);
    assert_eq!(ok(guest_params("{}", parse_or_complain)), json("{}"));
    assert!(guest_params("{", parse_or_complain).is_err());
}

#[test]
fn components_are_kept_by_their_bytes() {
    let mut cache: ComponentCache<u8> = ComponentCache::new();
    let (key, found) = cache.lookup(b"abc");
    assert!(found.is_none());
    cache.keep(key, 7);
    let (again, found) = cache.lookup(b"abc");
    assert_eq!((again, found), (key, Some(&7)));
    let (other, found) = cache.lookup(b"abd");
    assert!(other != key && found.is_none());
}

#[test]
fn component_errors_say_where() {
    assert!(compile_panicked("E").message().contains("E"));
    assert!(invalid_component("E").message().contains("E"));
    assert!(link_failed("wasi", "E").message().contains("wasi"));
}

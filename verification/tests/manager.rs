//! The action store, the manager around it, and detached runs.

use solx_actions::caller::Caller;
use solx_actions::config::Config;
use solx_actions::entities::{Action, ActionExecResult, ActionInput, ActionType};
use solx_actions::error::SolxError;
use solx_actions::internal::entity::{action_delete, action_get, action_save, exclude_hidden_flag};
use solx_actions::internal::params::normalize_params;
use solx_actions::internal::file::{file_put, file_put_reply};
use solx_actions::invocations::{is_terminal, InvocationStore};
use solx_actions::manager::{
    action_to_row, action_type_from_str, action_type_to_str, exec_result, fts_match_query,
    is_filterable, is_long_lived_host, list_sql, load_artifact, normalizes_params, opt, paths_sql,
    plan_exec, poll_wait, redact_all, row_to_action, script_source, script_timed_out, search_limit,
    search_page, search_sql, search_term, set_long_lived_host, sort_columns, timeout_secs, ExecTarget,
    HostMode, LocalActionManager, PollStep, StopStep,
};
use solx_actions::seed::{builtin_actions, seed_builtins, seed_entries};
use solx_actions::store::ActionStore;
use solx_actions::value::Value;

fn of(j: &serde_json::Value) -> Value {
    match j {
        serde_json::Value::Null => Value::Null,
        serde_json::Value::Bool(b) => Value::Bool(*b),
        serde_json::Value::Number(n) => match (n.as_u64(), n.as_i64()) {
            (Some(u), _) => Value::UInt(u),
            (None, Some(i)) => Value::NegInt(i),
            (None, None) => Value::Float(n.to_string()),
        },
        serde_json::Value::String(s) => Value::Str(s.clone()),
        serde_json::Value::Array(items) => Value::Array(items.iter().map(of).collect()),
        serde_json::Value::Object(members) => {
            Value::Object(members.iter().map(|(k, v)| (k.clone(), of(v))).collect())
        }
    }
}

/// The value that a JSON text stands for.
fn json(text: &str) -> Value {
    of(&serde_json::from_str(text).unwrap())
}

const NOW: &str = "2024-05-01T10:00:00+00:00";
const NOW_SECS: i64 = 1_714_557_600;
const LATER: &str = "2024-05-02T10:00:00+00:00";
const KEY: &str = "c3VwZXItc2VjcmV0LWtleS1oZXJlLXBhZGRpbmc=";

fn config() -> Config {
    Config {
        allowed_base_urls: vec![],
        allowed_webhook_base_urls: vec![],
        command_actions: vec![],
        appdata: "/appdata".to_string(),
        logs_dir: "/logs".to_string(),
        background_timeout_secs: 3600,
        stop_grace_secs: 5,
        invocation_ttl_days: 7,
        http_stream_max_buffer_bytes: 1024,
        http_stream_idle_ttl_secs: 60,
    }
}

fn setup(long_lived: bool) -> LocalActionManager {
    LocalActionManager::open_at(
        config(),
        HostMode { long_lived },
        ActionStore::new(),
        InvocationStore::new(),
        NOW_SECS,
        0,
    )
}

/// Tags of the reserved namespace have to be known ones.
fn reserved_tags(capabilities: &Vec<String>) -> Result<(), String> {
    for tag in capabilities {
        if tag.starts_with("solx:") && tag != "solx:hidden" && tag != "solx:destructive" {
            return Err(format!("unknown reserved capability '{tag}'"));
        }
    }
    Ok(())
}

fn cfg_with_secret(key: &str) -> Value {
    json(&format!(r#"{{ "cwd": "/work", "secrets": {{ "API_TOKEN": "{key}" }} }}"#))
}

fn ok<T, E>(r: Result<T, E>) -> T {
    match r {
        Ok(x) => x,
        Err(_) => panic!("expected success"),
    }
}

fn err<T, E>(r: Result<T, E>) -> E {
    match r {
        Err(e) => e,
        Ok(_) => panic!("expected a refusal"),
    }
}

fn save(m: &mut LocalActionManager, path: &str, name: &str, input: ActionInput) -> Result<Action, SolxError> {
    m.actions.save(path, name, input, "id-1", NOW, reserved_tags)
}

fn command(fn_name: &str) -> ActionInput {
    ActionInput {
        action_type: Some(ActionType::Command),
        fn_name: Some(fn_name.to_string()),
        ..Default::default()
    }
}

fn unmasked(m: &LocalActionManager, path: &str, name: &str) -> Result<Action, SolxError> {
    m.actions.get_unmasked(path, name, &format!("{path}/{name}"))
}

fn get(m: &LocalActionManager, path: &str, name: &str) -> Result<Action, SolxError> {
    m.get(path, name, &format!("{path}/{name}"))
}

fn secret_of(a: &Action) -> Option<&str> {
    a.action_config.as_ref().unwrap().get("secrets").unwrap().get_str("API_TOKEN")
}

// ── Saving, reading, deleting ────────────────────────────────────────────────

#[test]
fn save_get_delete() {
    let mut m = setup(false);
    let input = ActionInput {
        description: Some("echoes".into()),
        action_type: Some(ActionType::Command),
        fn_name: Some("echo".into()),
        ..Default::default()
    };
    let a = ok(save(&mut m, "/tools", "echo", input));
    assert_eq!(a.path, "/tools");
    assert!(a.action_type == Some(ActionType::Command));
    assert!(get(&m, "/tools", "echo").is_ok());
    ok(m.delete("/tools", "echo", "/tools/echo"));
    assert!(get(&m, "/tools", "echo").is_err());
    assert!(matches!(err(m.delete("/tools", "echo", "/tools/echo")), SolxError::NotFound(_)));
}

#[test]
fn get_and_list_redact_secrets_but_exec_reads_them_raw() {
    let mut m = setup(false);
    let mut input = command("echo");
    input.action_config = Some(cfg_with_secret(KEY));
    ok(save(&mut m, "/tools", "s", input));

    let got = ok(get(&m, "/tools", "s"));
    assert_eq!(secret_of(&got), Some("***"));
    assert_eq!(got.action_config.as_ref().unwrap().get_str("cwd"), Some("/work"));

    let listed = redact_all(vec![ok(unmasked(&m, "/tools", "s"))]);
    assert_eq!(secret_of(&listed[0]), Some("***"));

    assert_eq!(secret_of(&ok(unmasked(&m, "/tools", "s"))), Some(KEY));
}

#[test]
fn save_rejects_an_unknown_reserved_capability() {
    let mut m = setup(false);
    let input = ActionInput {
        capabilities: vec!["document".into(), "solx:destructiv".into()],
        ..Default::default()
    };
    let e = err(save(&mut m, "/tools", "typo", input));
    assert!(matches!(e, SolxError::Invalid(_)));
    assert!(e.message().contains("solx:destructiv"), "{}", e.message());
    assert!(get(&m, "/tools", "typo").is_err());
}

#[test]
fn save_accepts_reserved_and_free_form_capabilities() {
    let mut m = setup(false);
    let input = ActionInput {
        capabilities: vec!["document".into(), "solx:hidden".into(), "solx:destructive".into()],
        ..Default::default()
    };
    let saved = ok(save(&mut m, "/tools", "flagged", input));
    assert!(saved.capabilities.iter().any(|c| c == "solx:hidden"));
    assert!(saved.capabilities.iter().any(|c| c == "solx:destructive"));
}

#[test]
fn save_response_redacts_secrets_too() {
    let mut m = setup(false);
    let mut input = command("echo");
    input.action_config = Some(cfg_with_secret(KEY));
    let saved = ok(save(&mut m, "/tools", "s", input));
    assert_eq!(secret_of(&saved), Some("***"));
    assert_eq!(saved.action_config.as_ref().unwrap().get_str("cwd"), Some("/work"));
}

#[test]
fn saving_back_a_redacted_config_preserves_the_key() {
    let mut m = setup(false);
    let mut input = command("echo");
    input.action_config = Some(cfg_with_secret(KEY));
    ok(save(&mut m, "/tools", "s", input));

    let fetched = ok(get(&m, "/tools", "s")).action_config.unwrap();
    let edited = fetched.with_field("cwd", Value::text("/elsewhere"));
    ok(save(&mut m, "/tools", "s", ActionInput { action_config: Some(edited), ..Default::default() }));

    let raw = ok(unmasked(&m, "/tools", "s"));
    assert_eq!(secret_of(&raw), Some(KEY));
    assert_eq!(raw.action_config.as_ref().unwrap().get_str("cwd"), Some("/elsewhere"));
    assert!(raw.action_type == Some(ActionType::Command));
}

#[test]
fn saving_an_invented_mask_sentinel_is_rejected() {
    let mut m = setup(false);
    let input = ActionInput {
        action_type: Some(ActionType::Command),
        action_config: Some(json(r#"{ "secrets": { "NEW": "***" } }"#)),
        ..Default::default()
    };
    let e = err(save(&mut m, "/tools", "s", input)).message();
    assert!(e.contains("no stored value to restore"), "{e}");
}

#[test]
fn an_update_keeps_what_it_does_not_name() {
    let mut m = setup(false);
    let mut input = command("echo");
    input.phrases = vec!["say it".into()];
    input.trusted = Some(true);
    let first = ok(save(&mut m, "/tools", " echo ", input));
    assert_eq!(first.name, "echo");
    let second = ok(m.actions.save(
        "/tools",
        "echo",
        ActionInput { caption: Some("Echo".into()), ..Default::default() },
        "id-2",
        LATER,
        reserved_tags,
    ));
    assert_eq!(second.id, first.id);
    assert_eq!(second.created_at, NOW);
    assert_eq!(second.updated_at, LATER);
    assert_eq!(second.caption.as_deref(), Some("Echo"));
    assert_eq!(second.fn_name.as_deref(), Some("echo"));
    assert_eq!(second.phrases, vec!["say it".to_string()]);
    assert!(second.trusted);
}

// ── The guard ────────────────────────────────────────────────────────────────

#[test]
fn entity_save_action_refuses_to_create_command_or_webhook() {
    let mut store = ActionStore::new();
    for ty in [ActionType::Command, ActionType::Webhook] {
        let input = ActionInput { action_type: Some(ty), fn_name: Some("rm -rf /".into()), ..Default::default() };
        let params = json(r#"{ "path": "/evil", "name": "shell" }"#);
        let e = err(action_save(&mut store, &params, "/evil", input, reserved_tags));
        assert!(e.contains("use the solx CLI"), "{e}");
        assert!(store.get_unmasked("/evil", "shell", "/evil/shell").is_err());
    }
}

#[test]
fn entity_save_action_refuses_to_repoint_an_existing_command() {
    let mut m = setup(false);
    ok(save(&mut m, "/tools", "safe", command("echo 42")));
    let input = ActionInput { fn_name: Some("rm -rf /".into()), ..Default::default() };
    let params = json(r#"{ "path": "/tools", "name": "safe" }"#);
    let e = err(action_save(&mut m.actions, &params, "/tools", input, reserved_tags));
    assert!(e.contains("use the solx CLI"), "{e}");
    assert_eq!(ok(unmasked(&m, "/tools", "safe")).fn_name.as_deref(), Some("echo 42"));
}

#[test]
fn entity_delete_action_refuses_to_remove_a_command() {
    let mut m = setup(false);
    ok(save(&mut m, "/tools", "safe", command("echo 42")));
    let params = json(r#"{ "path": "/tools", "name": "safe" }"#);
    let e = err(action_delete(&mut m.actions, &params, "/tools", "/tools/safe"));
    assert!(e.contains("use the solx CLI"), "{e}");
    assert!(unmasked(&m, "/tools", "safe").is_ok(), "action was deleted anyway");
}

#[test]
fn entity_save_action_still_allows_non_executable_types() {
    let mut store = ActionStore::new();
    let input = ActionInput {
        action_type: Some(ActionType::Wasm),
        bin_name: Some("x.wasm".into()),
        ..Default::default()
    };
    let params = json(r#"{ "path": "/tools", "name": "w" }"#);
    ok(action_save(&mut store, &params, "/tools", input, reserved_tags));
    assert!(store.get_unmasked("/tools", "w", "/tools/w").is_ok());
    ok(action_delete(&mut store, &params, "/tools", "/tools/w"));
    assert!(store.get_unmasked("/tools", "w", "/tools/w").is_err());
}

#[test]
fn exec_script_action_not_blocked_by_executable_action_guard() {
    let mut store = ActionStore::new();
    let input = ActionInput {
        action_type: Some(ActionType::Script),
        bin_name: Some("x.solx".into()),
        ..Default::default()
    };
    let params = json(r#"{ "path": "/tools", "name": "s" }"#);
    ok(action_save(&mut store, &params, "/tools", input, reserved_tags));
    assert!(store.get_unmasked("/tools", "s", "/tools/s").is_ok());
}

#[test]
fn a_hidden_action_reads_as_missing_where_asked() {
    let mut m = setup(false);
    ok(save(&mut m, "/tools", "secret", ActionInput::default()));
    let found = ok(get(&m, "/tools", "secret"));
    let params = json(r#"{ "path": "/tools", "name": "secret", "exclude_hidden": true }"#);
    assert!(exclude_hidden_flag(&params));
    assert!(action_get(&params, "secret", found, true).is_err());
    let found = ok(get(&m, "/tools", "secret"));
    assert!(action_get(&json(r#"{ "path": "/tools", "name": "secret" }"#), "secret", found, true).is_ok());
}

// ── Listing and searching ────────────────────────────────────────────────────

fn named(names: &[&str]) -> Vec<Action> {
    names
        .iter()
        .map(|n| {
            let mut m = setup(false);
            ok(save(&mut m, "/tools", n, ActionInput::default()))
        })
        .collect()
}

fn names(page: &[Action]) -> Vec<&str> {
    page.iter().map(|a| a.name.as_str()).collect()
}

#[test]
fn search_without_the_flag_still_returns_hidden_actions() {
    let page = search_page(named(&["visible", "secret"]), &vec![false, true], false, 50);
    assert_eq!(page.len(), 2);
}

#[test]
fn search_with_exclude_hidden_drops_tagged_actions() {
    let page = search_page(named(&["visible", "secret"]), &vec![false, true], true, 50);
    assert_eq!(names(&page), vec!["visible"]);
}

#[test]
fn exclude_hidden_still_fills_a_page_when_it_can() {
    assert_eq!(search_limit(2, true), 8);
    assert_eq!(search_limit(2, false), 2);
    assert_eq!(search_limit(900, true), 1000);
    let page = search_page(named(&["a", "b", "c"]), &vec![false, true, false], true, 2);
    assert_eq!(names(&page), vec!["a", "c"]);
}

#[test]
fn list_ignores_unknown_filter_field() {
    assert!(!is_filterable("name) OR 1=1 --"));
    assert!(is_filterable("name") && is_filterable("category") && is_filterable("caption"));
}

#[test]
fn list_never_filters_on_action_config() {
    assert!(!is_filterable("action_config"));
    assert!(sort_columns("action_config").is_none());
    assert!(sort_columns("name").is_some());
}

#[test]
fn match_queries_quote_their_words() {
    let q = fts_match_query("live \"journal\"");
    assert_eq!(q.matches('"').count() % 2, 0, "{q}");
    assert!(q.contains("live") && q.contains("journal"), "{q}");
    assert_eq!(search_term(Some("  x ")).as_deref(), Some("x"));
    assert_eq!(search_term(Some("   ")), None);
    assert_eq!(search_term(None), None);
}

#[test]
fn queries_are_paged() {
    let sql = search_sql(Some("beta"), "WHERE path=?1", "ORDER BY name", 1, 50, 10);
    assert!(sql.page_sql.contains("LIMIT 50") && sql.page_sql.contains("OFFSET 10"), "{}", sql.page_sql);
    assert!(sql.page_sql.contains("?2"), "{}", sql.page_sql);
    assert!(sql.match_bind.is_some());
    let (count, page) = list_sql("WHERE path=?1", "ORDER BY name", 50, 0);
    assert!(count.contains("COUNT(*)") && page.contains("ORDER BY name"), "{count} {page}");
    let (_, page) = paths_sql("", true, 5, 0);
    assert!(page.contains("DESC"), "{page}");
    let sql = search_sql(None, "", "ORDER BY name", 0, 50, 0);
    assert!(sql.match_bind.is_none());
}

fn parse(text: &str) -> Option<Value> {
    serde_json::from_str::<serde_json::Value>(text).ok().map(|j| of(&j))
}

fn parse_files(text: &str) -> Option<Vec<Value>> {
    match parse(text) {
        Some(Value::Array(files)) => Some(files),
        _ => None,
    }
}

#[test]
fn rows_and_actions_go_back_and_forth() {
    let mut m = setup(false);
    let mut input = command("echo");
    input.capabilities = vec!["a \"b\"".into(), "\u{e9}".into()];
    input.action_config = Some(cfg_with_secret(KEY));
    ok(m.save("/tools", "s", input, reserved_tags));
    let a = ok(unmasked(&m, "/tools", "s"));
    let row = action_to_row(&a);
    assert_eq!(row.capabilities, "[\"a \\\"b\\\"\",\"\u{e9}\"]");
    assert_eq!(row.action_type, "command");
    assert_eq!(row.caption, "");
    assert_eq!(row.trusted, 0);
    let back = ok(row_to_action(row, parse, parse_files));
    assert_eq!(back.id, a.id);
    assert_eq!(back.name, a.name);
    assert_eq!(back.capabilities, a.capabilities);
    assert_eq!(back.action_config, a.action_config);
    assert_eq!(back.created_at, a.created_at);
    assert!(back.caption.is_none() && back.action_type == Some(ActionType::Command));
}

#[test]
fn rows_that_do_not_parse_are_empty_or_refused() {
    let mut m = setup(false);
    ok(m.save("/tools", "s", command("echo"), reserved_tags));
    let a = ok(unmasked(&m, "/tools", "s"));
    let mut row = action_to_row(&a);
    row.capabilities = "oops".into();
    row.action_config = "null".into();
    row.files = "{".into();
    let back = ok(row_to_action(row, parse, parse_files));
    assert!(back.capabilities.is_empty() && back.action_config.is_none() && back.files.is_empty());
    let mut row = action_to_row(&a);
    row.id = "no uuid".into();
    assert!(matches!(err(row_to_action(row, parse, parse_files)), SolxError::Db(_)));
    let mut row = action_to_row(&a);
    row.created_at = "yesterday".into();
    assert!(matches!(err(row_to_action(row, parse, parse_files)), SolxError::Db(_)));
    let mut row = action_to_row(&a);
    row.updated_at = "2024-05-01T12:00:00+02:00".into();
    assert_eq!(ok(row_to_action(row, parse, parse_files)).updated_at, "2024-05-01T10:00:00+00:00");
    let mut row = action_to_row(&a);
    row.id = "550E8400E29B41D4A716446655440000".into();
    assert_eq!(ok(row_to_action(row, parse, parse_files)).id, "550e8400-e29b-41d4-a716-446655440000");
}

#[test]
fn opening_seeds_the_catalogue_and_new_actions_get_identifiers() {
    let mut m = ok(LocalActionManager::open(
        config(),
        HostMode { long_lived: false },
        ActionStore::new(),
        InvocationStore::new(),
        vec![],
    ));
    let seeded = ok(get(&m, "/builtin/file", "file-put"));
    assert_eq!(seeded.id.len(), 36);
    let a = ok(m.save("/tools", "a", ActionInput::default(), reserved_tags));
    let b = ok(m.save("/tools", "b", ActionInput::default(), reserved_tags));
    assert_eq!(a.id.len(), 36);
    assert_ne!(a.id, b.id);
    assert_eq!(a.created_at, a.updated_at);
    assert_eq!(ok(m.save("/tools", "a", ActionInput::default(), reserved_tags)).id, a.id);
}

#[test]
fn executing_reads_the_secrets_and_mints_an_identifier() {
    let mut m = setup(false);
    let mut input = command("echo");
    input.action_config = Some(cfg_with_secret(KEY));
    input.param_type_ref = Some("/types/x".into());
    ok(save(&mut m, "/tools", "s", input));
    let start = ok(m.exec_as_with("/tools", "s", "/tools/s", json(r#"{"relPath": 1}"#), None, None));
    assert_eq!(start.params, json(r#"{"relPath": 1}"#));
    assert_eq!(start.param_type_ref.as_deref(), Some("/types/x"));
    assert_eq!(start.action_config, Some(cfg_with_secret(KEY)));
    assert_eq!(ok(start.plan).invocation_id.len(), 36);
    let start = ok(m.exec_as_with("/tools", "s", "/tools/s", json("{}"), None, Some("given")));
    let plan = ok(start.plan);
    assert_eq!((plan.invocation_id.as_str(), plan.timeout_secs), ("given", Some(3600)));
    assert!(m.exec_as_with("/tools", "none", "/tools/none", json("{}"), None, None).is_err());
}

#[test]
fn action_types_have_names() {
    for t in [ActionType::Wasm, ActionType::Webhook, ActionType::Command, ActionType::Internal, ActionType::Script] {
        assert!(action_type_from_str(action_type_to_str(Some(t))) == Some(t));
    }
    assert_eq!(action_type_to_str(None), "");
    assert!(action_type_from_str("other").is_none());
    assert_eq!(opt(String::new()), None);
    assert_eq!(opt("x".into()).as_deref(), Some("x"));
}

// ── Running ──────────────────────────────────────────────────────────────────

fn plan_error(a: &Action) -> String {
    err(plan_exec(a, "/tools/w", None, None, "minted", 3600)).message()
}

#[test]
fn exec_wasm_missing_artifact_errors() {
    let e = err(load_artifact("wasm", "x.wasm", "shared/x.wasm", "own/x.wasm", None, None)).message();
    assert!(e.contains("x.wasm"), "{e}");
    assert_eq!(ok(load_artifact("wasm", "x.wasm", "s", "o", None, Some(vec![1]))), vec![1]);
    assert_eq!(ok(load_artifact("wasm", "x.wasm", "s", "o", Some(vec![2]), Some(vec![1]))), vec![2]);
}

#[test]
fn exec_wasm_without_bin_name_errors() {
    let mut m = setup(false);
    let a = ok(save(&mut m, "/tools", "w", ActionInput { action_type: Some(ActionType::Wasm), ..Default::default() }));
    let e = plan_error(&a);
    assert!(e.contains("bin_name"), "{e}");
}

#[test]
fn exec_script_missing_bin_name_errors() {
    let mut m = setup(false);
    let a = ok(save(&mut m, "/tools", "s", ActionInput { action_type: Some(ActionType::Script), ..Default::default() }));
    let e = plan_error(&a);
    assert!(e.contains("bin_name"), "{e}");
}

#[test]
fn exec_script_missing_artifact_errors() {
    let e = err(load_artifact("script", "missing.solx", "shared/missing.solx", "own/missing.solx", None, None)).message();
    assert!(e.contains("missing.solx"), "{e}");
}

#[test]
fn exec_script_times_out() {
    assert_eq!(timeout_secs(&Some(json(r#"{ "timeout_secs": 1 }"#))), Some(1));
    let e = script_timed_out("/tools/slow").message();
    assert!(e.contains("timed out"), "{e}");
}

#[test]
fn a_script_artifact_has_to_be_text() {
    assert_eq!(ok(script_source("a.solx", b"json 1".to_vec())), "json 1");
    assert!(script_source("a.solx", vec![255]).is_err());
}

#[test]
fn plans_name_their_target_and_keep_a_given_invocation() {
    let mut m = setup(false);
    let a = ok(save(&mut m, "/tools", "echo", command("echo-42")));
    let plan = ok(plan_exec(&a, "/tools/echo", None, None, "minted", 3600));
    assert_eq!(plan.invocation_id, "minted");
    assert!(matches!(plan.target, ExecTarget::Command { ref fn_name } if fn_name == "echo-42"));
    let plan = ok(plan_exec(&a, "/tools/echo", None, Some("given"), "minted", 3600));
    assert_eq!(plan.invocation_id, "given");
    let r = exec_result("/tools/echo", json("42"));
    assert!(r.success && r.action == "/tools/echo" && r.result == json("42"));
}

#[test]
fn frames_are_told_apart_by_their_action() {
    let caller = Caller::with_invocation("/pkg/foo", Some(&json(r#"{"secrets": {"A": "k"}}"#)), "inv");
    assert_eq!(caller.action_ref(), "/pkg/foo");
    assert_eq!(caller.invocation_id(), "inv");
    assert_eq!(caller.secret_key("A"), Some("k"));
    assert_eq!(caller.secret_key("B"), None);
    assert_eq!(caller.copy().display(), caller.display());
}

#[test]
fn exec_accepts_camel_case_for_a_required_snake_case_builtin_param() {
    let mut store = ActionStore::new();
    let entries = builtin_actions();
    let ids: Vec<String> = (0..entries.len()).map(|i| format!("id-{i}")).collect();
    seed_entries(&mut store, &entries, &ids, NOW);
    let file_put_action = ok(store.get("/builtin/file", "file-put", "/builtin/file/file-put"));
    assert!(normalizes_params(&file_put_action));
    let params = normalize_params(&json(r#"{"relPath": "a.txt", "content": "hi"}"#));
    let write = ok(file_put(&params));
    assert_eq!(file_put_reply(&write.rel_path).get_str("rel_path"), Some("a.txt"));
}

#[test]
fn seeded_builtin_actions_are_discoverable() {
    let mut store = ActionStore::new();
    let entries = builtin_actions();
    assert!(entries.len() > 0, "expected seeded built-in actions under /builtin");
    let ids: Vec<String> = (0..entries.len()).map(|i| format!("id-{i}")).collect();
    seed_entries(&mut store, &entries, &ids, NOW);
    let doc = entries.iter().find(|e| e.name == "entity-get-document").expect("entity-get-document should be seeded");
    let doc_get = ok(store.get(doc.path, doc.name, "x"));
    assert!(doc_get.trusted, "seeded built-ins should be trusted");
    assert!(doc_get.action_type == Some(ActionType::Internal));
    for e in &entries {
        assert!(e.path.starts_with("/builtin"));
        let a = ok(store.get(e.path, e.name, "x"));
        assert!(a.action_type == Some(ActionType::Internal));
    }
    let first = ok(store.get(doc.path, doc.name, "x")).id;
    seed_entries(&mut store, &entries, &ids, LATER);
    let again = ok(store.get(doc.path, doc.name, "x"));
    assert_eq!(again.id, first);
    assert_eq!(again.updated_at, NOW);
    seed_builtins(&mut store, vec![]);
    assert_eq!(ok(store.get(doc.path, doc.name, "x")).id, first);
}

// ── Detached runs ────────────────────────────────────────────────────────────

fn started(m: &mut LocalActionManager, name: &str) -> Value {
    ok(save(m, "/t", name, command(name)));
    ok(m.start_invocation_as("/t", name, &format!("/t/{name}"), "inv-1", 1, NOW))
}

fn polled(m: &LocalActionManager, id: &str) -> Value {
    match ok(m.poll_invocation(id, None, 0)) {
        PollStep::Reply(v) => v,
        PollStep::Wait(_) => panic!("expected a reply"),
    }
}

#[test]
fn start_invocation_refuses_without_a_long_lived_host() {
    let mut m = setup(false);
    ok(save(&mut m, "/t", "quick", command("quick")));
    let e = err(m.start_invocation("/t", "quick", "/t/quick", 1)).message();
    assert!(e.contains("requires a long-lived host"), "{e}");
    set_long_lived_host(&mut m.host, true);
    assert!(is_long_lived_host(&m.host));
    assert!(m.start_invocation("/t", "quick", "/t/quick", 1).is_ok());
}

#[test]
fn start_then_poll_reaches_ok_with_the_started_actions_result() {
    let mut m = setup(true);
    let s = started(&mut m, "quick");
    assert_eq!(s.get_str("invocation_id"), Some("inv-1"));
    assert_eq!(s.get_str("action_ref"), Some("/t/quick"));
    assert_eq!(s.get_i64("console_seq_start"), Some(1));
    assert!(matches!(m.poll_invocation("inv-1", Some(10), 0), Ok(PollStep::Wait(_))));
    m.finish_invocation_at("inv-1", Ok(exec_result("/t/quick", json("42"))), LATER);
    let v = polled(&m, "inv-1");
    assert_eq!(v.get_str("status"), Some("ok"));
    assert_eq!(v.get("result"), Some(&json("42")));
    assert_eq!(v.get_str("invocation_id"), Some("inv-1"));
    assert!(v.get_str("finished_at").is_some());
}

#[test]
fn a_run_that_fails_says_why() {
    let mut m = setup(true);
    started(&mut m, "bad");
    m.finish_invocation_at("inv-1", Err(SolxError::Exec("boom".into())), LATER);
    let v = polled(&m, "inv-1");
    assert_eq!(v.get_str("status"), Some("failed"));
    assert!(v.get_str("error").unwrap().contains("boom"));
    let unsuccessful = ActionExecResult {
        action: "/t/x".into(),
        result: Value::Null,
        success: false,
        message: Some("no".into()),
    };
    let mut m = setup(true);
    started(&mut m, "x");
    m.finish_invocation_at("inv-1", Ok(unsuccessful), LATER);
    assert!(is_terminal(polled(&m, "inv-1").get_str("status").unwrap()));
}

#[test]
fn a_started_run_ends_under_the_identifier_that_it_was_given() {
    let mut m = setup(true);
    ok(save(&mut m, "/t", "quick", command("quick")));
    let s = ok(m.start_invocation("/t", "quick", "/t/quick", 4));
    let id = s.get_str("invocation_id").unwrap().to_string();
    assert_eq!(id.len(), 36);
    m.finish_invocation(&id, Ok(exec_result("/t/quick", json("42"))));
    assert_eq!(polled(&m, &id).get_str("status"), Some("ok"));
    assert!(!m.force_abort(&id));
    assert_eq!(polled(&m, &id).get_str("status"), Some("ok"));
}

#[test]
fn poll_invocation_of_an_unknown_id_is_not_found() {
    let e = err(setup(false).poll_invocation("no-such-id", None, 0));
    assert!(matches!(e, SolxError::NotFound(_)), "{e:?}");
}

#[test]
fn stop_invocation_of_an_unknown_id_is_not_found() {
    let e = err(setup(false).stop_invocation("no-such-id", false, None));
    assert!(matches!(e, SolxError::NotFound(_)), "{e:?}");
}

#[test]
fn stop_force_aborts_a_hanging_command_promptly() {
    let mut m = setup(true);
    started(&mut m, "hangs");
    match ok(m.stop_invocation("inv-1", true, None)) {
        StopStep::Aborted { abort_task, reply } => {
            assert!(abort_task);
            assert_eq!(reply.get_str("status"), Some("cancelled"));
        }
        _ => panic!("expected an abort"),
    }
    assert_eq!(polled(&m, "inv-1").get_str("status"), Some("cancelled"));
}

#[test]
fn stop_cooperative_returns_cancelling_without_blocking_then_force_finishes_it() {
    let mut m = setup(true);
    started(&mut m, "hangs");
    let stopped = match ok(m.stop_invocation_at("inv-1", false, Some(30), LATER)) {
        StopStep::Done(v) => v,
        StopStep::Aborted { reply, .. } => reply,
        StopStep::AbortLater { grace_secs, reply } => {
            assert_eq!(grace_secs, 30);
            reply
        }
    };
    assert_eq!(stopped.get_str("status"), Some("cancelling"));
    assert!(m.invocations().is_cancelled("inv-1"));
    match ok(m.stop_invocation("inv-1", true, None)) {
        StopStep::Aborted { reply, .. } => assert_eq!(reply.get_str("status"), Some("cancelled")),
        _ => panic!("expected an abort"),
    }
}

#[test]
fn opening_marks_what_was_left_running() {
    let mut store = InvocationStore::new();
    ok(store.create("left", "/t/x", 1, "2024-04-30T00:00:00+00:00"));
    let m = LocalActionManager::open_at(
        config(),
        HostMode { long_lived: true },
        ActionStore::new(),
        store,
        NOW_SECS,
        0,
    );
    assert_eq!(polled(&m, "left").get_str("status"), Some("interrupted"));
}

#[test]
fn opening_drops_the_runs_that_ended_before_the_retention() {
    let mut store = InvocationStore::new();
    for (id, ended) in [("old", "2024-04-24T09:59:59+00:00"), ("kept", "2024-04-24T10:00:00+00:00")] {
        ok(store.create(id, "/t/x", 1, "2024-04-20T00:00:00+00:00"));
        store.finish(id, "ok", None, None, ended);
    }
    let m = LocalActionManager::open_at(
        config(),
        HostMode { long_lived: true },
        ActionStore::new(),
        store,
        NOW_SECS,
        0,
    );
    assert!(m.invocations().get("old").is_none());
    assert!(m.invocations().get("kept").is_some());
}

#[test]
fn a_retention_that_leaves_the_calendar_is_refused() {
    for days in [i64::MAX, i64::MIN, 100_000_000, -100_000_000] {
        let mut c = config();
        c.invocation_ttl_days = days;
        let r = LocalActionManager::open(
            c,
            HostMode { long_lived: true },
            ActionStore::new(),
            InvocationStore::new(),
            vec![],
        );
        assert!(matches!(r, Err(SolxError::Invalid(_))), "{days}");
    }
    let mut c = config();
    c.invocation_ttl_days = 90_000_000;
    assert!(LocalActionManager::open(
        c,
        HostMode { long_lived: true },
        ActionStore::new(),
        InvocationStore::new(),
        vec![],
    )
    .is_ok());
}

#[test]
fn waits_are_short_and_bounded() {
    assert_eq!(poll_wait(None, 0), None);
    assert_eq!(poll_wait(Some(1), 0), Some(250));
    assert_eq!(poll_wait(Some(1), 900), Some(100));
    assert_eq!(poll_wait(Some(1), 1000), None);
    assert_eq!(poll_wait(Some(1000), 60_000), None);
}

// ── The table of runs ────────────────────────────────────────────────────────

#[test]
fn create_and_get_round_trips_as_running_not_cancelled() {
    let mut store = InvocationStore::new();
    ok(store.create("inv-1", "/pkg/a", 7, NOW));
    let inv = store.get("inv-1").unwrap();
    assert_eq!(inv.action_ref, "/pkg/a");
    assert_eq!(inv.status, "running");
    assert!(!inv.cancel_requested);
    assert_eq!(inv.console_seq_start, 7);
    assert_eq!(inv.result, None);
    assert_eq!(inv.finished_at, None);
    assert!(store.create("inv-1", "/pkg/a", 7, NOW).is_err());
}

#[test]
fn get_of_unknown_id_is_none_not_an_error() {
    assert!(InvocationStore::new().get("nope").is_none());
}

#[test]
fn is_cancelled_reflects_request_cancel() {
    let mut store = InvocationStore::new();
    ok(store.create("inv-1", "/pkg/a", 0, NOW));
    assert!(!store.is_cancelled("inv-1"));
    store.request_cancel("inv-1", LATER);
    assert!(store.is_cancelled("inv-1"));
}

#[test]
fn is_cancelled_of_unknown_id_is_false() {
    assert!(!InvocationStore::new().is_cancelled("nope"));
}

#[test]
fn request_cancel_moves_running_to_cancelling() {
    let mut store = InvocationStore::new();
    ok(store.create("inv-1", "/pkg/a", 0, NOW));
    let inv = store.request_cancel("inv-1", LATER).unwrap();
    assert_eq!(inv.status, "cancelling");
    assert!(inv.cancel_requested);
}

#[test]
fn request_cancel_on_unknown_id_returns_none() {
    assert!(InvocationStore::new().request_cancel("nope", NOW).is_none());
}

#[test]
fn request_cancel_does_not_disturb_an_already_terminal_status() {
    let mut store = InvocationStore::new();
    ok(store.create("inv-1", "/pkg/a", 0, NOW));
    store.finish("inv-1", "ok", Some(json(r#"{"n": 1}"#)), None, LATER);
    let inv = store.request_cancel("inv-1", LATER).unwrap();
    assert_eq!(inv.status, "ok");
    assert!(inv.cancel_requested);
}

#[test]
fn to_json_carries_every_field() {
    let mut store = InvocationStore::new();
    ok(store.create("inv-1", "/pkg/a", 3, NOW));
    store.finish("inv-1", "ok", Some(json(r#"{"n": 1}"#)), None, LATER);
    let v = store.get("inv-1").unwrap().to_json();
    assert_eq!(v.get_str("invocation_id"), Some("inv-1"));
    assert_eq!(v.get_str("action_ref"), Some("/pkg/a"));
    assert_eq!(v.get_str("status"), Some("ok"));
    assert_eq!(v.get("result"), Some(&json(r#"{"n": 1}"#)));
    assert_eq!(v.get("error"), Some(&Value::Null));
    assert_eq!(v.get_i64("console_seq_start"), Some(3));
    assert!(v.get_str("finished_at").is_some());
}

#[test]
fn finish_sets_result_and_terminal_status() {
    let mut store = InvocationStore::new();
    ok(store.create("inv-1", "/pkg/a", 0, NOW));
    store.finish("inv-1", "ok", Some(json(r#"{"n": 42}"#)), None, LATER);
    let inv = store.get("inv-1").unwrap();
    assert_eq!(inv.status, "ok");
    assert_eq!(inv.result, Some(json(r#"{"n": 42}"#)));
    assert_eq!(inv.error, None);
    assert!(inv.finished_at.is_some());
}

#[test]
fn finish_sets_error_on_failure() {
    let mut store = InvocationStore::new();
    ok(store.create("inv-1", "/pkg/a", 0, NOW));
    store.finish("inv-1", "failed", None, Some("boom".into()), LATER);
    let inv = store.get("inv-1").unwrap();
    assert_eq!(inv.status, "failed");
    assert_eq!(inv.result, None);
    assert_eq!(inv.error.as_deref(), Some("boom"));
}

#[test]
fn finish_is_idempotent_second_call_is_a_no_op() {
    let mut store = InvocationStore::new();
    ok(store.create("inv-1", "/pkg/a", 0, NOW));
    store.finish("inv-1", "ok", Some(json(r#""first""#)), None, LATER);
    store.finish("inv-1", "cancelled", Some(json(r#""second""#)), None, LATER);
    let inv = store.get("inv-1").unwrap();
    assert_eq!(inv.status, "ok");
    assert_eq!(inv.result, Some(json(r#""first""#)));
}

#[test]
fn mark_aborted_only_applies_to_a_still_running_row() {
    let mut store = InvocationStore::new();
    ok(store.create("inv-1", "/pkg/a", 0, NOW));
    ok(store.create("inv-2", "/pkg/b", 0, NOW));
    store.finish("inv-2", "ok", None, None, NOW);
    store.mark_aborted("inv-1", LATER);
    store.mark_aborted("inv-2", LATER);
    assert_eq!(store.get("inv-1").unwrap().status, "cancelled");
    assert_eq!(store.get("inv-2").unwrap().status, "ok");
}

#[test]
fn list_orders_newest_first_and_respects_action_ref_filter() {
    let mut store = InvocationStore::new();
    ok(store.create("inv-1", "/pkg/a", 0, "2024-05-01T10:00:00+00:00"));
    ok(store.create("inv-2", "/pkg/b", 0, "2024-05-01T10:00:01+00:00"));
    ok(store.create("inv-3", "/pkg/a", 0, "2024-05-01T10:00:02+00:00"));
    let all = store.list(None, 100);
    assert_eq!(all.len(), 3);
    assert_eq!(all[0].invocation_id, "inv-3");
    let a_only = store.list(Some("/pkg/a"), 100);
    assert_eq!(a_only.len(), 2);
    assert!(a_only.iter().all(|i| i.action_ref == "/pkg/a"));
    assert_eq!(store.list(None, 1).len(), 1);
}

#[test]
fn mark_orphans_flips_non_terminal_rows_and_leaves_terminal_ones() {
    let mut store = InvocationStore::new();
    ok(store.create("inv-running", "/pkg/a", 0, NOW));
    ok(store.create("inv-cancelling", "/pkg/a", 0, NOW));
    store.request_cancel("inv-cancelling", NOW);
    ok(store.create("inv-done", "/pkg/a", 0, NOW));
    store.finish("inv-done", "ok", None, None, NOW);
    assert_eq!(store.mark_orphans(LATER), 2);
    assert_eq!(store.get("inv-running").unwrap().status, "interrupted");
    assert_eq!(store.get("inv-cancelling").unwrap().status, "interrupted");
    assert_eq!(store.get("inv-done").unwrap().status, "ok");
}

#[test]
fn sweep_expired_removes_only_stale_terminal_rows() {
    let mut store = InvocationStore::new();
    ok(store.create("inv-fresh", "/pkg/a", 0, LATER));
    store.finish("inv-fresh", "ok", None, None, LATER);
    ok(store.create("inv-stale", "/pkg/a", 0, "2020-01-01T00:00:00+00:00"));
    store.finish("inv-stale", "ok", None, None, "2020-01-01T00:00:00+00:00");
    ok(store.create("inv-still-running", "/pkg/a", 0, "2020-01-01T00:00:00+00:00"));
    assert_eq!(store.sweep_expired(NOW), 1);
    assert!(store.get("inv-fresh").is_some());
    assert!(store.get("inv-stale").is_none());
    assert!(store.get("inv-still-running").is_some());
}

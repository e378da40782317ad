//! Script stages.

use solx_actions::caller::Caller;
use solx_actions::entities::ActionExecResult;
use solx_actions::error::SolxError;
use solx_actions::script::{
    parse_exec_stage, run, run_exec, run_json, stage_failed, stage_started, stage_value, Stage,
};
use solx_actions::value::Value;

fn of(j: &serde_json::Value) -> Value {
    match j {
        serde_json::Value::Null => Value::Null,
        serde_json::Value::Bool(b) => Value::Bool(*b),
        serde_json::Value::Number(n) => match (n.as_u64(), n.as_i64()) {
            (Some(u), _) => Value::UInt(u),
            (None, Some(i)) => Value::NegInt(i),
            (None, None) => Value::Float(n.to_string()),
        },
        serde_json::Value::String(s) => Value::Str(s.clone()),
        serde_json::Value::Array(items) => Value::Array(items.iter().map(of).collect()),
        serde_json::Value::Object(members) => {
            Value::Object(members.iter().map(|(k, v)| (k.clone(), of(v))).collect())
        }
    }
}

/// The value that a JSON text stands for.
fn json(text: &str) -> Value {
    of(&serde_json::from_str(text).unwrap())
}

fn parse(text: &str) -> Result<Value, String> {
    match serde_json::from_str::<serde_json::Value>(text) {
        Ok(j) => Ok(of(&j)),
        Err(e) => Err(e.to_string()),
    }
}

fn tokens(words: &[&str]) -> Vec<String> {
    words.iter().map(|w| w.to_string()).collect()
}

fn exec_of(stage: Stage) -> (String, Value) {
    match stage {
        Stage::Exec { reference, params } => (reference, params),
        Stage::Value(_) => panic!("expected an exec stage"),
    }
}

#[test]
fn parse_exec_stage_ref_then_flag() {
    let (reference, json) =
        parse_exec_stage(&tokens(&["exec", "/pkg/name", "--json", r#"{"x":1}"#])).unwrap();
    assert_eq!(reference, "/pkg/name");
    assert_eq!(json.as_deref(), Some(r#"{"x":1}"#));
}

#[test]
fn parse_exec_stage_flag_then_ref() {
    let (reference, json) = parse_exec_stage(&tokens(&["exec", "-j", "{}", "/pkg/name"])).unwrap();
    assert_eq!(reference, "/pkg/name");
    assert_eq!(json.as_deref(), Some("{}"));
}

#[test]
fn parse_exec_stage_ref_only() {
    let (reference, json) = parse_exec_stage(&tokens(&["exec", "/pkg/name"])).unwrap();
    assert_eq!(reference, "/pkg/name");
    assert_eq!(json, None);
}

#[test]
fn parse_exec_stage_missing_ref_errors() {
    assert!(parse_exec_stage(&tokens(&["exec"])).is_err());
}

#[test]
fn parse_exec_stage_missing_json_value_errors() {
    assert!(parse_exec_stage(&tokens(&["exec", "/a/b", "--json"])).is_err());
}

#[test]
fn parse_exec_stage_duplicate_ref_errors() {
    assert!(parse_exec_stage(&tokens(&["exec", "/a/b", "/c/d"])).is_err());
}

#[test]
fn run_json_parses_literal() {
    assert_eq!(run_json(&tokens(&["json", "5"]), &parse).unwrap(), Value::uint(5));
}

#[test]
fn run_json_requires_exactly_one_arg() {
    assert!(run_json(&tokens(&["json"]), &parse).is_err());
    assert!(run_json(&tokens(&["json", "1", "2"]), &parse).is_err());
}

#[test]
fn run_json_invalid_literal_errors() {
    assert!(run_json(&tokens(&["json", "not-json"]), &parse).is_err());
}

#[test]
fn explicit_json_wins_over_the_pipe() {
    let stage = run_exec(
        &tokens(&["exec", "/a/b", "--json", r#"{"x":1}"#]),
        Some(json(r#"{"y":2}"#)),
        &parse,
    )
    .unwrap();
    assert_eq!(exec_of(stage), ("/a/b".to_string(), json(r#"{"x":1}"#)));
}

#[test]
fn the_pipe_is_the_params_where_no_json_is_given() {
    let stage = run_exec(&tokens(&["exec", "/a/b"]), Some(json(r#"{"y":2}"#)), &parse).unwrap();
    assert_eq!(exec_of(stage), ("/a/b".to_string(), json(r#"{"y":2}"#)));
    let stage = run_exec(&tokens(&["exec", "/a/b"]), None, &parse).unwrap();
    assert_eq!(exec_of(stage), ("/a/b".to_string(), json("{}")));
}

#[test]
fn an_unknown_verb_is_refused() {
    let err = match run(&tokens(&["frobnicate"]), None, &parse) {
        Err(e) => e,
        Ok(_) => panic!("expected a refusal"),
    };
    assert_eq!(
        err,
        SolxError::Invalid(
            "unsupported script stage 'frobnicate' (Script actions only support 'exec <path/name> [--json '<params>']' and 'json <value>')".to_string()
        )
    );
}

#[test]
fn a_json_stage_gives_its_value() {
    match run(&tokens(&["json", "[1,\"a\"]"]), None, &parse).unwrap_or(Stage::Value(Value::Null)) {
        Stage::Value(v) => assert_eq!(v, json("[1,\"a\"]")),
        Stage::Exec { .. } => panic!("expected a value"),
    }
}

#[test]
fn unparsable_params_are_refused() {
    assert!(run_exec(&tokens(&["exec", "/a/b", "-j", "{"]), None, &parse).is_err());
}

fn stage(text: &str) -> Vec<String> {
    text.split(' ').map(str::to_string).collect()
}

#[test]
fn exec_script_logs_each_stage_to_the_console() {
    let caller = Caller::from_action("/tools/count", None);
    let source = "exec /builtin/action/entity-list-actions; exec /builtin/document/entity-list-documents";
    let entries: Vec<_> = source.split("; ").map(|s| stage_started(&caller, &stage(s))).collect();
    assert_eq!(entries.len(), 2, "{entries:?}");
    assert_eq!(entries[0].action_ref, "/tools/count");
    assert_eq!(entries[0].source, "script");
    assert_eq!(entries[0].message.as_deref(), Some("exec /builtin/action/entity-list-actions"));
    assert_eq!(entries[1].message.as_deref(), Some("exec /builtin/document/entity-list-documents"));
    assert_eq!(entries[0].invocation_id, entries[1].invocation_id);
}

#[test]
fn exec_script_logs_a_stage_failure() {
    let caller = Caller::from_action("/tools/bad", None);
    let tokens = stage("exec /builtin/nope");
    let failure = SolxError::NotFound("action /builtin/nope".to_string());
    let entries = vec![stage_started(&caller, &tokens), stage_failed(&caller, &tokens, &failure)];
    assert_eq!(entries.len(), 2, "{entries:?}");
    assert_eq!(entries[0].level, "info");
    assert_eq!(entries[1].level, "warn");
    assert!(entries[1].message.as_deref().unwrap().contains("failed"));
    assert_eq!(
        entries[1].message.as_deref(),
        Some("exec /builtin/nope failed: action /builtin/nope")
    );
}

#[test]
fn exec_script_unsupported_stage_verb_errors() {
    let err = run(&stage("post doc /a --json '{}'"), None, &parse).unwrap_err();
    assert!(err.message().contains("unsupported script stage"), "{err:?}");
}

#[test]
fn logged_stages_hold_no_parameters() {
    let caller = Caller::from_action("/tools/s", None);
    let tokens = stage("exec --json {\"k\":\"hush\"} /pkg/a");
    assert_eq!(stage_started(&caller, &tokens).message.as_deref(), Some("exec /pkg/a"));
    assert_eq!(stage_started(&caller, &stage("json 5")).message.as_deref(), Some("json"));
    assert_eq!(stage_started(&caller, &stage("exec a b")).message.as_deref(), Some("exec"));
}

#[test]
fn an_exec_stage_hands_on_the_whole_result() {
    let done = ActionExecResult {
        action: "/pkg/a".to_string(),
        result: json(r#"{"items": []}"#),
        success: true,
        message: None,
    };
    assert_eq!(
        stage_value(done),
        json(r#"{"action": "/pkg/a", "message": null, "result": {"items": []}, "success": true}"#)
    );
}

//! Planning and finishing of commands and webhooks.

use solx_actions::config::{CommandDef, Config};
use solx_actions::error::SolxError;
use solx_actions::execution::{
    build_multipart_related_body, exchange_code, exchange_form, finish_command, finish_response,
    is_token_exchange, log_dir_slug, multipart_of, plan_command, plan_webhook, substitute_path_params,
    webhook_body, webhook_headers, webhook_log_end, webhook_log_start, CommandEnd, WebhookBody,
    DEFAULT_TIMEOUT_SECS,
};
use solx_actions::json::to_text;
use solx_actions::text::print_hex;
use solx_actions::value::Value;

use base64::Engine;

fn of(j: &serde_json::Value) -> Value {
    match j {
        serde_json::Value::Null => Value::Null,
        serde_json::Value::Bool(b) => Value::Bool(*b),
        serde_json::Value::Number(n) => match (n.as_u64(), n.as_i64()) {
            (Some(u), _) => Value::UInt(u),
            (None, Some(i)) => Value::NegInt(i),
            (None, None) => Value::Float(n.to_string()),
        },
        serde_json::Value::String(s) => Value::Str(s.clone()),
        serde_json::Value::Array(items) => Value::Array(items.iter().map(of).collect()),
        serde_json::Value::Object(members) => {
            Value::Object(members.iter().map(|(k, v)| (k.clone(), of(v))).collect())
        }
    }
}

/// The value that a JSON text stands for.
fn json(text: &str) -> Value {
    of(&serde_json::from_str(text).unwrap())
}

fn parse(text: &str) -> Option<Value> {
    serde_json::from_str::<serde_json::Value>(text).ok().map(|j| of(&j))
}

fn config() -> Config {
    Config {
        allowed_base_urls: vec!["https://api.example.com/".to_string()],
        allowed_webhook_base_urls: vec![],
        command_actions: vec![(
            "greet".to_string(),
            CommandDef { command: "echo hi".to_string(), cwd: None },
        )],
        appdata: "/appdata".to_string(),
        logs_dir: "/logs".to_string(),
        background_timeout_secs: 3600,
        stop_grace_secs: 5,
        invocation_ttl_days: 7,
        http_stream_max_buffer_bytes: 1024,
        http_stream_idle_ttl_secs: 60,
    }
}

fn value_of(form: &[(String, String)], key: &str) -> Option<String> {
    form.iter().find(|(k, _)| k == key).map(|(_, v)| v.clone())
}

#[test]
fn substitute_path_params_replaces_placeholder_and_strips_body_key() {
    let action_config = json(r#"{ "path_params": { "fileId": "" } }"#);
    let params = json(r#"{ "fileId": "abc123", "type": "anyone", "role": "reader" }"#);
    let (url, remaining) = substitute_path_params(
        "https://www.googleapis.com/drive/v3/files/{fileId}/permissions",
        Some(&action_config),
        &params,
    );
    assert_eq!(url, "https://www.googleapis.com/drive/v3/files/abc123/permissions");
    assert_eq!(remaining, json(r#"{ "type": "anyone", "role": "reader" }"#));
}

#[test]
fn substitute_path_params_is_a_no_op_without_config() {
    let params = json(r#"{ "documentId": "xyz" }"#);
    let (url, remaining) = substitute_path_params(
        "https://docs.googleapis.com/v1/documents/{documentId}",
        None,
        &params,
    );
    assert_eq!(url, "https://docs.googleapis.com/v1/documents/{documentId}");
    assert_eq!(remaining, params);
}

#[test]
fn substitute_path_params_leaves_placeholder_when_param_missing() {
    let action_config = json(r#"{ "path_params": { "documentId": "" } }"#);
    let (url, remaining) = substitute_path_params(
        "https://docs.googleapis.com/v1/documents/{documentId}",
        Some(&action_config),
        &json("{}"),
    );
    assert_eq!(url, "https://docs.googleapis.com/v1/documents/{documentId}");
    assert_eq!(remaining, json("{}"));
}

#[test]
fn multipart_related_body_contains_metadata_and_media_parts() {
    let media = base64::engine::general_purpose::STANDARD.encode(b"fake-png-bytes");
    let params = json(&format!(
        r#"{{ "metadata": {{ "name": "icon.png" }}, "media_base64": "{media}", "media_content_type": "image/png" }}"#
    ));
    let body = match build_multipart_related_body(&params) {
        Ok(b) => b,
        Err(e) => panic!("body should build: {}", e.message()),
    };
    assert!(body.content_type.starts_with("multipart/related; boundary=solxmpb"));

    let text = String::from_utf8_lossy(&body.bytes);
    assert!(text.contains("Content-Type: application/json; charset=UTF-8"));
    assert!(text.contains("\"name\":\"icon.png\""));
    assert!(text.contains("Content-Type: image/png"));
    assert!(body.bytes.windows(b"fake-png-bytes".len()).any(|w| w == b"fake-png-bytes"));
    assert!(text.trim_end().ends_with("--"));
}

#[test]
fn multipart_related_body_requires_media_base64() {
    let err = match build_multipart_related_body(&json(r#"{ "metadata": {} }"#)) {
        Err(e) => e.message(),
        Ok(_) => panic!("expected a refusal"),
    };
    assert!(err.contains("media_base64"));
}

#[test]
fn oauth_authorization_code_prefers_params_redirect_uri_over_auth() {
    let auth = json(
        r#"{ "type": "oauth_authorization_code", "client_id": "cid",
             "redirect_uri": "http://static-fallback/callback" }"#,
    );
    let params = json(r#"{ "code": "the-code", "redirect_uri": "http://127.0.0.1:8765/callback" }"#);
    let code = exchange_code(&params).unwrap();
    let form = exchange_form(&code, "cid", None, &auth, &params);
    assert_eq!(value_of(&form, "redirect_uri").as_deref(), Some("http://127.0.0.1:8765/callback"));
    assert_eq!(value_of(&form, "code").as_deref(), Some("the-code"));
    assert!(form.iter().all(|(_, v)| !v.contains("static-fallback")));
}

#[test]
fn oauth_authorization_code_falls_back_to_auth_redirect_uri() {
    let auth = json(
        r#"{ "type": "oauth_authorization_code", "client_id": "cid",
             "redirect_uri": "http://static-fallback/callback" }"#,
    );
    let params = json(r#"{ "code": "the-code" }"#);
    let form = exchange_form("the-code", "cid", None, &auth, &params);
    assert_eq!(value_of(&form, "redirect_uri").as_deref(), Some("http://static-fallback/callback"));
    assert_eq!(value_of(&form, "client_id").as_deref(), Some("cid"));
    assert_eq!(value_of(&form, "grant_type").as_deref(), Some("authorization_code"));
}

#[test]
fn a_code_is_needed_for_the_exchange() {
    assert!(exchange_code(&json("{}")).is_err());
}

#[test]
fn exec_command_resolves_fn_name_through_the_allowlist() {
    let mut cfg = config();
    cfg.command_actions.push((
        "echo-42".to_string(),
        CommandDef { command: "echo 42".to_string(), cwd: None },
    ));
    let plan = match plan_command(&cfg, false, "/tools/echo", "echo-42", None, &json("{}"), None) {
        Ok(p) => p,
        Err(e) => panic!("{}", e.message()),
    };
    assert_eq!(plan.command, "echo 42");
    assert_eq!(plan.shell, "sh");
    assert_eq!(plan.flag, "-c");
    assert_eq!(plan.stdin, "{}");
    assert_eq!(plan.timeout_secs, DEFAULT_TIMEOUT_SECS);
    assert_eq!(plan.log_segment, "tools_echo");
    let end = CommandEnd::Exited {
        success: true,
        status: "exit status: 0".to_string(),
        stdout: b"42\n".to_vec(),
        stderr: vec![],
    };
    assert_eq!(finish_command("echo-42", "echo 42", 300, end, parse).unwrap(), json("42"));
}

#[test]
fn exec_command_with_unregistered_key_is_denied() {
    let mut cfg = config();
    cfg.command_actions = vec![];
    let err = match plan_command(&cfg, false, "/tools/echo", "echo 42", None, &json("{}"), None) {
        Err(e) => e.message(),
        Ok(_) => panic!("expected a refusal"),
    };
    assert!(err.contains("command_actions"), "{err}");
}

#[test]
fn exec_webhook_with_unlisted_url_is_denied_before_any_request() {
    let mut cfg = config();
    cfg.allowed_base_urls = vec![];
    let err = match plan_webhook(&cfg, "http://127.0.0.1:1", None, &json("{}")) {
        Err(e) => e.message(),
        Ok(_) => panic!("expected a refusal"),
    };
    assert!(err.contains("allowed_base_urls"), "{err}");
}

#[test]
fn a_filled_in_url_is_held_to_the_allowlist() {
    let cfg = json(r#"{ "path_params": { "host": "" } }"#);
    let params = json(r#"{ "host": "evil.example.net" }"#);
    assert!(plan_webhook(&config(), "https://{host}/x", Some(&cfg), &params).is_err());
    let plan = match plan_webhook(&config(), "https://api.example.com/{host}", Some(&cfg), &params) {
        Ok(p) => p,
        Err(e) => panic!("{}", e.message()),
    };
    assert_eq!(plan.url, "https://api.example.com/evil.example.net");
    assert_eq!(plan.params, json("{}"));
}

#[test]
fn a_slash_is_an_underscore_in_a_log_segment() {
    assert_eq!(log_dir_slug("//a/b/c"), "a_b_c");
    assert_eq!(log_dir_slug("name"), "name");
}

#[test]
fn a_command_that_succeeds_answers_with_its_output() {
    let end = CommandEnd::Exited {
        success: true,
        status: "exit status: 0".to_string(),
        stdout: b" {\"x\":1}\n".to_vec(),
        stderr: vec![],
    };
    assert_eq!(finish_command("k", "cmd", 5, end, parse).unwrap(), json(r#"{"x":1}"#));
    let end = CommandEnd::Exited {
        success: true,
        status: "exit status: 0".to_string(),
        stdout: b"plain\n".to_vec(),
        stderr: vec![],
    };
    assert_eq!(finish_command("k", "cmd", 5, end, parse).unwrap(), Value::text("plain\n"));
}

#[test]
fn a_command_that_fails_says_how() {
    let end = CommandEnd::Exited {
        success: false,
        status: "exit status: 3".to_string(),
        stdout: vec![],
        stderr: b"boom".to_vec(),
    };
    let err = finish_command("k", "cmd", 5, end, parse).unwrap_err().message();
    assert!(err.contains("boom") && err.contains("3"), "{err}");
    let err = finish_command("k", "cmd", 5, CommandEnd::TimedOut, parse).unwrap_err().message();
    assert!(err.contains("5"), "{err}");
    assert!(finish_command("k", "cmd", 5, CommandEnd::SpawnFailed("no sh".into()), parse)
        .unwrap_err()
        .message()
        .contains("no sh"));
    assert!(finish_command("k", "cmd", 5, CommandEnd::WaitFailed("gone".into()), parse)
        .unwrap_err()
        .message()
        .contains("gone"));
}

#[test]
fn a_body_is_json_unless_multipart_is_asked_for() {
    match webhook_body(None, &json(r#"{"a":1}"#)) {
        Ok(WebhookBody::Json(v)) => assert_eq!(v, json(r#"{"a":1}"#)),
        _ => panic!("expected a JSON body"),
    }
}

#[test]
fn a_multipart_body_has_its_boundary_from_the_time() {
    let body = multipart_of(&json(r#"{ "metadata": {"a": 1} }"#), &b"xy".to_vec(), 255);
    assert_eq!(body.content_type, "multipart/related; boundary=solxmpbff");
    assert_eq!(
        String::from_utf8(body.bytes).unwrap(),
        "--solxmpbff\r\nContent-Type: application/json; charset=UTF-8\r\n\r\n{\"a\":1}\r\n--solxmpbff\r\nContent-Type: application/octet-stream\r\n\r\nxy\r\n--solxmpbff--"
    );
    let cfg = json(r#"{ "body_mode": "multipart_related" }"#);
    assert!(matches!(
        webhook_body(Some(&cfg), &json(r#"{ "media_base64": "eHk=" }"#)),
        Ok(WebhookBody::Multipart(_))
    ));
    assert!(webhook_body(Some(&cfg), &json(r#"{ "media_base64": "%" }"#)).is_err());
}

#[test]
fn headers_come_from_the_config_and_the_auth_header_is_added() {
    let cfg = json(r#"{ "headers": { "X-A": "1" } }"#);
    let headers = webhook_headers(Some(&cfg), Some("Bearer t"));
    assert!(headers.iter().any(|(k, v)| k == "X-A" && v == "1"));
    assert!(headers.iter().any(|(k, v)| k == "Authorization" && v == "Bearer t"));
}

#[test]
fn a_response_is_parsed_where_it_can_be() {
    assert_eq!(
        finish_response("webhook", true, "200 OK", r#"{"x":1}"#.to_string(), parse).unwrap(),
        json(r#"{"x":1}"#)
    );
    assert_eq!(
        finish_response("webhook", true, "200 OK", "text".to_string(), parse).unwrap(),
        Value::text("text")
    );
    let err = finish_response("webhook", false, "500 Oops", "x".repeat(600), parse).unwrap_err();
    assert_eq!(err.message(), SolxError::Exec(format!("webhook returned 500 Oops: {}", "x".repeat(500))).message());
}

#[test]
fn token_exchanges_are_told_by_their_auth_type() {
    assert!(is_token_exchange(Some(&json(r#"{ "auth": { "type": "oauth_authorization_code" } }"#))));
    assert!(!is_token_exchange(Some(&json(r#"{ "auth": { "type": "bearer" } }"#))));
    assert!(!is_token_exchange(None));
}

#[test]
fn exec_webhook_logs_start_and_success_to_the_console() {
    let url = "http://127.0.0.1:4242";
    let start = webhook_log_start(url);
    let result = finish_response("webhook", true, "200 OK", r#"{"ok":true}"#.to_string(), parse);
    let (level, end) = webhook_log_end(url, 12, &result);
    assert_eq!(level, "info");
    assert!(start.starts_with("POST http"));
    assert!(end.contains("succeeded"));
    assert!(!start.contains("\"x\"") && !end.contains("\"x\""));
}

#[test]
fn exec_webhook_logs_failure_to_the_console() {
    let (level, line) = webhook_log_end(
        "http://127.0.0.1:1",
        3,
        &Err(SolxError::Exec("connection refused".to_string())),
    );
    assert_eq!(level, "warn");
    assert!(line.contains("failed"), "{line}");
}

#[test]
fn json_text_escapes_quotes_backslashes_and_controls() {
    let s = "a\"b\\c\u{8}\u{c}\n\r\t\u{0}\u{1f}\u{7f}\u{e9}/";
    let text = to_text(&Value::Str(s.to_string()));
    assert_eq!(text, "\"a\\\"b\\\\c\\b\\f\\n\\r\\t\\u0000\\u001f\u{7f}\u{e9}/\"");
}

#[test]
fn environment_entries_that_are_no_strings_are_reported() {
    let mut cfg = config();
    cfg.command_actions =
        vec![("k".to_string(), CommandDef { command: "true".to_string(), cwd: None })];
    let action_config = json(r#"{ "env": { "A": "a", "B": 1, "C": null, "D": "d" } }"#);
    let plan = match plan_command(&cfg, false, "/t/k", "k", Some(&action_config), &json("{}"), None) {
        Ok(plan) => plan,
        Err(_) => panic!("expected a plan"),
    };
    let text = |k: &str, v: &str| (k.to_string(), v.to_string());
    assert_eq!(plan.env, vec![text("A", "a"), text("D", "d")]);
    assert_eq!(plan.skipped_env, vec!["B".to_string(), "C".to_string()]);
}

#[test]
fn different_bytes_have_different_hex() {
    assert_eq!(print_hex(&vec![0, 10, 255]), "000aff");
    assert_ne!(print_hex(&vec![1, 16]), print_hex(&vec![17, 0]));
}

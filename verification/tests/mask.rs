//! Masking of action configs, and putting masked values back.

use solx_actions::mask::{mask_action_config, mask_action_config_opt, render_path, unmask_merge, MASK};
use solx_actions::value::Value;

fn of(j: &serde_json::Value) -> Value {
    match j {
        serde_json::Value::Null => Value::Null,
        serde_json::Value::Bool(b) => Value::Bool(*b),
        serde_json::Value::Number(n) => match (n.as_u64(), n.as_i64()) {
            (Some(u), _) => Value::UInt(u),
            (None, Some(i)) => Value::NegInt(i),
            (None, None) => Value::Float(n.to_string()),
        },
        serde_json::Value::String(s) => Value::Str(s.clone()),
        serde_json::Value::Array(items) => Value::Array(items.iter().map(of).collect()),
        serde_json::Value::Object(members) => {
            Value::Object(members.iter().map(|(k, v)| (k.clone(), of(v))).collect())
        }
    }
}

/// The value that a JSON text stands for.
fn json(text: &str) -> Value {
    of(&serde_json::from_str(text).unwrap())
}

fn masked(text: &str) -> Value {
    let mut cfg = json(text);
    mask_action_config(&mut cfg);
    cfg
}

fn at<'a>(v: &'a Value, path: &[&str]) -> &'a Value {
    let mut here = v;
    for key in path {
        here = here.get(key).unwrap();
    }
    here
}

fn mask() -> Value {
    Value::text(MASK)
}

#[test]
fn masks_every_secret_key() {
    let cfg = masked(
        r#"{ "cwd": "/tmp/work", "secrets": { "API_TOKEN": "aGVsbG8=", "OTHER": "d29ybGQ=" } }"#,
    );
    assert_eq!(at(&cfg, &["secrets", "API_TOKEN"]), &mask());
    assert_eq!(at(&cfg, &["secrets", "OTHER"]), &mask());
    assert_eq!(at(&cfg, &["cwd"]), &Value::text("/tmp/work"));
}

#[test]
fn masks_auth_values_but_keeps_pointers_readable() {
    let cfg = masked(
        r#"{
            "auth": {
                "type": "oauth_refresh",
                "client_id": "1234.apps.example.com",
                "client_secret": "super-secret",
                "refresh_token": "rt-abc",
                "scope": "read write",
                "client_secret_secret": "MY_SECRET_NAME",
                "token_env": "TOKEN_VAR",
                "private_key": { "keyring_service": "sol", "keyring_account": "google" }
            }
        }"#,
    );
    let auth = at(&cfg, &["auth"]);
    assert_eq!(at(auth, &["type"]), &Value::text("oauth_refresh"));
    assert_eq!(at(auth, &["scope"]), &Value::text("read write"));
    assert_eq!(at(auth, &["token_env"]), &Value::text("TOKEN_VAR"));
    assert_eq!(at(auth, &["private_key", "keyring_service"]), &Value::text("sol"));
    assert_eq!(at(auth, &["private_key", "keyring_account"]), &Value::text("google"));
    assert_eq!(at(auth, &["client_id"]), &mask());
    assert_eq!(at(auth, &["client_secret"]), &mask());
    assert_eq!(at(auth, &["refresh_token"]), &mask());
}

#[test]
fn secret_suffix_is_not_treated_as_a_pointer_exemption() {
    let cfg = masked(r#"{ "auth": { "client_secret": "leak-me", "client_id_secret": "A_NAME" } }"#);
    assert_eq!(at(&cfg, &["auth", "client_secret"]), &mask());
    assert_eq!(at(&cfg, &["auth", "client_id_secret"]), &mask());
}

#[test]
fn non_object_config_is_left_alone() {
    assert_eq!(masked(r#""just a string""#), Value::text("just a string"));
}

#[test]
fn round_trip_preserves_secrets() {
    let stored = json(
        r#"{
            "cwd": "/old",
            "secrets": { "API_TOKEN": "aGVsbG8=" },
            "auth": { "type": "bearer", "token": "real-token" }
        }"#,
    );
    let mut fetched = stored.clone();
    mask_action_config(&mut fetched);
    let edited = fetched.with_field("cwd", Value::text("/new"));

    let merged = unmask_merge(edited, Some(&stored)).unwrap();
    assert_eq!(at(&merged, &["cwd"]), &Value::text("/new"));
    assert_eq!(at(&merged, &["secrets", "API_TOKEN"]), &Value::text("aGVsbG8="));
    assert_eq!(at(&merged, &["auth", "token"]), &Value::text("real-token"));
}

#[test]
fn explicit_new_value_overwrites_stored() {
    let stored = json(r#"{ "secrets": { "API_TOKEN": "old-key" } }"#);
    let incoming = json(r#"{ "secrets": { "API_TOKEN": "new-key" } }"#);
    let merged = unmask_merge(incoming, Some(&stored)).unwrap();
    assert_eq!(at(&merged, &["secrets", "API_TOKEN"]), &Value::text("new-key"));
}

#[test]
fn removing_a_key_still_removes_it() {
    let stored = json(r#"{ "cwd": "/old", "secrets": { "A": "k" } }"#);
    let incoming = json(r#"{ "secrets": { "A": "***" } }"#);
    let merged = unmask_merge(incoming, Some(&stored)).unwrap();
    assert!(merged.get("cwd").is_none(), "dropped key should not be resurrected");
    assert_eq!(at(&merged, &["secrets", "A"]), &Value::text("k"));
}

#[test]
fn sentinel_without_stored_value_errors() {
    let stored = json(r#"{ "secrets": { "A": "k" } }"#);
    let incoming = json(r#"{ "secrets": { "B": "***" } }"#);
    let err = unmask_merge(incoming, Some(&stored)).unwrap_err();
    assert!(err.contains(".secrets.B"), "{err}");
    assert!(err.contains("no stored value to restore"), "{err}");
}

#[test]
fn sentinel_with_no_existing_config_at_all_errors() {
    let incoming = json(r#"{ "secrets": { "A": "***" } }"#);
    let err = unmask_merge(incoming, None).unwrap_err();
    assert!(err.contains(".secrets.A"), "{err}");
}

#[test]
fn restores_inside_arrays() {
    let stored = json(r#"{ "list": ["a", "b"] }"#);
    let incoming = json(r#"{ "list": ["***", "c"] }"#);
    let merged = unmask_merge(incoming, Some(&stored)).unwrap();
    assert_eq!(at(&merged, &["list"]), &json(r#"["a", "c"]"#));
}

#[test]
fn the_mask_is_three_stars() {
    assert_eq!(MASK, "***");
}

#[test]
fn masking_twice_is_masking_once() {
    let once = masked(r#"{ "secrets": { "A": ["x", 1, { "y": "z" }] }, "auth": { "token": "t" } }"#);
    let mut twice = once.clone();
    mask_action_config(&mut twice);
    assert_eq!(once, twice);
}

#[test]
fn a_missing_config_stays_missing() {
    let mut none: Option<Value> = None;
    mask_action_config_opt(&mut none);
    assert_eq!(none, None);
    let mut some = Some(json(r#"{ "secrets": { "A": "k" } }"#));
    mask_action_config_opt(&mut some);
    assert_eq!(some, Some(json(r#"{ "secrets": { "A": "***" } }"#)));
}

#[test]
fn an_array_position_is_named_in_the_complaint() {
    let incoming = json(r#"{ "list": ["a", "***"] }"#);
    let err = unmask_merge(incoming, Some(&json(r#"{ "list": ["a"] }"#))).unwrap_err();
    assert!(err.contains(".list[1]"), "{err}");
    assert_eq!(render_path(&vec![".a".to_string(), "[0]".to_string()]), ".a[0]");
}

#[test]
fn credentials_in_a_list_are_masked_too() {
    let shown = masked(r#"{ "auth": { "keys": ["a", { "k": "b", "type": "t" }], "scope": ["r", "w"] } }"#);
    assert_eq!(
        shown,
        json(r#"{ "auth": { "keys": ["***", { "k": "***", "type": "t" }], "scope": ["r", "w"] } }"#)
    );
    assert_eq!(masked(r#"{ "auth": "token" }"#), json(r#"{ "auth": "***" }"#));
}

//! The built-in operations.

use std::cell::RefCell;
use std::collections::HashMap;
use std::rc::Rc;

use solx_actions::caller::Caller;
use solx_actions::config::Config;
use solx_actions::internal::console::{
    clear, clear_reply, list, list_reply, print, print_reply, read, result_to_value, tail,
    ConsoleEntry, ConsoleInfo, ReadResult,
};
use solx_actions::internal::doc_fields::{
    create_missing_parents, field_request, get_field, get_field_at_path, parse_path, path_request,
    set_at_path, set_field, set_field_at_path, value_at_path,
};
use solx_actions::internal::entity::entity_named;
use solx_actions::internal::env::{
    get_env, init_env_mappings, init_persisted_env, persist_id, set_env, EnvStore,
};
use solx_actions::internal::file::{
    copy_request, dir_copy, dir_copy_reply, dir_delete, dir_delete_reply, file_copy_reply,
    file_delete_reply, file_get_reply, file_list_reply, file_named, file_put, file_put_reply,
    list_prefix,
};
use solx_actions::internal::http::{fetch_html, fetched, http_request, http_response};
use solx_actions::internal::http_stream::{
    stream_request, PollStep, StreamEvent, StreamRegistry, StreamState,
};
use solx_actions::internal::invocation::{cancelled, poll, start, stop};
use solx_actions::internal::open_url::{launch_failed, open_url, opened_reply, Platform};
use solx_actions::internal::params::{normalize_params, to_camel, to_snake};
use solx_actions::internal::script_exec::{script_run, script_timed_out};
use solx_actions::internal::secrets::{
    get_own_secret, get_secret, resolve_secret_key, set_own_secret, set_secret,
};
use solx_actions::internal::utils::{now_value, random_int_value, random_string_value, uuid_value};
use solx_actions::invocations::InvocationStore;
use solx_actions::secrets::{SecretBackendOverride, SecretStore};
use solx_actions::table::Table;
use solx_actions::value::Value;

use base64::Engine;

fn of(j: &serde_json::Value) -> Value {
    match j {
        serde_json::Value::Null => Value::Null,
        serde_json::Value::Bool(b) => Value::Bool(*b),
        serde_json::Value::Number(n) => match (n.as_u64(), n.as_i64()) {
            (Some(u), _) => Value::UInt(u),
            (None, Some(i)) => Value::NegInt(i),
            (None, None) => Value::Float(n.to_string()),
        },
        serde_json::Value::String(s) => Value::Str(s.clone()),
        serde_json::Value::Array(items) => Value::Array(items.iter().map(of).collect()),
        serde_json::Value::Object(members) => {
            Value::Object(members.iter().map(|(k, v)| (k.clone(), of(v))).collect())
        }
    }
}

/// The value that a JSON text stands for.
fn json(text: &str) -> Value {
    of(&serde_json::from_str(text).unwrap())
}

fn parse(text: &str) -> Option<Value> {
    serde_json::from_str::<serde_json::Value>(text).ok().map(|j| of(&j))
}

fn items(v: Option<&Value>) -> Vec<Value> {
    match v {
        Some(Value::Array(a)) => a.clone(),
        _ => panic!("expected an array"),
    }
}

fn texts(words: &[&str]) -> Vec<String> {
    words.iter().map(|w| w.to_string()).collect()
}

fn ok<T, E>(r: Result<T, E>) -> T {
    match r {
        Ok(x) => x,
        Err(_) => panic!("expected success"),
    }
}

fn refusal<T>(r: Result<T, String>) -> String {
    match r {
        Err(e) => e,
        Ok(_) => panic!("expected a refusal"),
    }
}

// ── Entities and files ───────────────────────────────────────────────────────

#[test]
fn entities_are_named_with_a_path_and_a_name() {
    let (path, name) = ok(entity_named(&json(r#"{"path": "/research/ai", "name": "note"}"#)));
    assert_eq!((path.as_str(), name.as_str()), ("/research/ai", "note"));
    let (path, _) = ok(entity_named(&json(r#"{"name": "note"}"#)));
    assert_eq!(path, "/");
    assert!(refusal(entity_named(&json("{}"))).contains("missing required param: name"));
}

fn files_round_trip() {
    let w = ok(file_put(&json(r#"{"rel_path": "notes/a.txt", "content": "hello"}"#)));
    assert_eq!(w.rel_path, "notes/a.txt");
    assert_eq!(w.bytes, b"hello");
    assert!(file_put_reply(&w.rel_path).is_object());

    let rel_path = ok(file_named(&json(r#"{"rel_path": "notes/a.txt"}"#)));
    let got = file_get_reply(&rel_path, w.bytes);
    assert_eq!(got.get_str("content"), Some("hello"));

    assert_eq!(list_prefix(&json(r#"{"prefix": "notes"}"#)), "notes");
    let listed = file_list_reply(&texts(&["notes/a.txt"]));
    assert!(!items(listed.get("files")).is_empty());
    assert_eq!(file_delete_reply(), json(r#"{"deleted": true}"#));
}

#[test]
fn mod_file_put_get_list_delete_roundtrip() {
    files_round_trip();
}

#[test]
fn internal_file_put_get_list_delete_roundtrip() {
    files_round_trip();
}

#[test]
fn base64_contents_are_decoded_and_binary_files_encoded() {
    let media = base64::engine::general_purpose::STANDARD.encode([0u8, 255, 1]);
    let w = ok(file_put(&json(&format!(
        r#"{{"rel_path": "b", "content": "{media}", "encoding": "base64"}}"#
    ))));
    assert_eq!(w.bytes, vec![0u8, 255, 1]);
    let got = file_get_reply("b", w.bytes);
    assert_eq!(got.get_str("encoding"), Some("base64"));
    assert_eq!(got.get_str("content"), Some(media.as_str()));
    assert!(file_put(&json(r#"{"rel_path": "b", "content": "%", "encoding": "base64"}"#)).is_err());
    assert!(file_put(&json(r#"{"rel_path": "b", "content": "x", "encoding": "rot13"}"#)).is_err());
    assert!(file_put(&json(r#"{"content": "x"}"#)).is_err());
}

fn copies_work() {
    let one = ok(copy_request(&json(r#"{"source": "src/a.txt", "dest": "dst/a.txt"}"#)));
    assert_eq!((one.source.as_str(), one.dest.as_str()), ("src/a.txt", "dst/a.txt"));
    assert!(file_copy_reply(&one.dest).is_object());

    let all = ok(copy_request(&json(r#"{"source": "src", "dest": "dst2"}"#)));
    let copied = dir_copy(&all, &texts(&["src/a.txt", "src/sub/b.txt"]));
    assert_eq!(copied, texts(&["dst2/a.txt", "dst2/sub/b.txt"]));
    assert!(dir_copy_reply(&copied).is_object());
}

#[test]
fn mod_file_copy_and_dir_copy_work() {
    copies_work();
}

#[test]
fn internal_file_copy_and_dir_copy_work() {
    copies_work();
}

#[test]
fn dir_delete_recursively_removes_tree() {
    let entries = texts(&["tree/a.txt", "tree/sub/b.txt", "tree/sub/deeper/c.txt"]);
    let v = dir_delete_reply(&dir_delete("tree", &entries));
    let deleted = items(v.get("deleted"));
    assert_eq!(deleted.len(), 3, "{deleted:?}");
    assert!(deleted.iter().any(|e| e.as_str() == Some("tree/a.txt")));
    assert!(deleted.iter().any(|e| e.as_str() == Some("tree/sub/b.txt")));
    assert!(deleted.iter().any(|e| e.as_str() == Some("tree/sub/deeper/c.txt")));
}

#[test]
fn dir_delete_does_not_delete_siblings() {
    let entries = texts(&["keep/x.txt", "drop/y.txt", "dropped/z.txt"]);
    assert_eq!(dir_delete("drop", &entries), texts(&["drop/y.txt"]));
}

// ── Fields of documents ──────────────────────────────────────────────────────

fn fields_round_trip() {
    let contents = json(r#"{"a": 1}"#);
    assert_eq!(get_field(&contents, "a"), Value::uint(1));
    let request = ok(field_request(&json(r#"{"name": "note", "field": "b", "value": "two"}"#)));
    assert_eq!((request.path.as_str(), request.name.as_str()), ("/", "note"));
    let contents = set_field(contents, &request.field, request.value);
    assert_eq!(get_field(&contents, "b"), Value::text("two"));
    assert_eq!(get_field(&contents, "a"), Value::uint(1));
    assert_eq!(get_field(&contents, "c"), Value::Null);
}

#[test]
fn mod_get_field_and_set_field_round_trip() {
    fields_round_trip();
}

#[test]
fn internal_get_field_and_set_field_round_trip() {
    fields_round_trip();
}

fn read_at(contents: &Value, path: &str) -> Value {
    let request = ok(path_request(&json(&format!(r#"{{"name": "doc", "path": "{path}"}}"#))));
    get_field_at_path(contents, &request.segments)
}

fn write_at(contents: Value, params: &str) -> Result<Value, String> {
    set_field_at_path(contents, ok(path_request(&json(params))))
}

#[test]
fn get_field_at_path_reads_nested_value() {
    let doc = json(r#"{ "metadata": { "tags": ["alpha", "beta"] }, "score": 7 }"#);
    assert_eq!(items(read_at(&doc, "metadata").get("tags")).len(), 2);
    assert_eq!(read_at(&doc, "metadata/tags").at(0).and_then(Value::as_str), Some("alpha"));
    assert_eq!(read_at(&doc, "metadata/tags/1"), Value::text("beta"));
    assert_eq!(read_at(&doc, "score"), Value::uint(7));
    assert_eq!(read_at(&doc, "metadata/missing"), Value::Null);
}

#[test]
fn set_field_at_path_overwrites_existing_path() {
    let doc = json(r#"{ "metadata": { "tags": ["a", "b", "c"] }, "score": 1 }"#);
    let doc = ok(write_at(doc, r#"{"name": "doc", "path": "metadata/tags/1", "value": "B"}"#));
    assert_eq!(read_at(&doc, "metadata/tags"), json(r#"["a", "B", "c"]"#));
    assert_eq!(read_at(&doc, "score"), Value::uint(1));
}

#[test]
fn a_write_keeps_what_parts_from_it_however_an_index_is_written() {
    let doc = json(r#"{ "rows": [ { "a": 1, "b": 2 } ] }"#);
    let after = ok(set_at_path(doc, &ok(parse_path("rows/0/b")), json("3")));
    assert_eq!(ok(value_at_path(&after, &ok(parse_path("rows/00/a")))).as_u64(), Some(1));
    assert_eq!(ok(value_at_path(&after, &ok(parse_path("rows/00/b")))).as_u64(), Some(3));
}

#[test]
fn an_index_that_no_array_can_hold_is_only_looked_up() {
    let params = format!(r#"{{"name": "doc", "path": "rows/{}", "value": 1}}"#, usize::MAX);
    let err = refusal(set_field_at_path(json(r#"{ "rows": [] }"#), ok(path_request(&json(&params)))));
    assert!(err.contains("does not exist"), "{err}");
}

#[test]
fn set_field_at_path_errors_without_create() {
    let err = refusal(write_at(json("{}"), r#"{"name": "doc", "path": "metadata/foo", "value": "bar"}"#));
    assert!(err.contains("does not exist"), "{err}");
    assert!(err.contains("create:true"), "{err}");
}

#[test]
fn set_field_at_path_creates_missing_parents() {
    let doc = ok(write_at(
        json("{}"),
        r#"{"name": "doc", "path": "metadata/foo", "value": "bar", "create": true}"#,
    ));
    assert_eq!(read_at(&doc, "metadata/foo"), Value::text("bar"));
    let doc = ok(write_at(
        doc,
        r#"{"name": "doc", "path": "arr/2", "value": "third", "create": true}"#,
    ));
    let arr = read_at(&doc, "arr");
    assert_eq!(items(Some(&arr)).len(), 3);
    assert_eq!(arr.at(2), Some(&Value::text("third")));
    assert_eq!(arr.at(0), Some(&Value::Null));
    assert_eq!(arr.at(1), Some(&Value::Null));
    assert_eq!(read_at(&doc, "metadata/foo"), Value::text("bar"));
}

#[test]
fn paths_are_split_at_slashes() {
    assert_eq!(ok(parse_path("a/b/0")), texts(&["a", "b", "0"]));
    assert!(parse_path("").is_err());
}

#[test]
fn a_write_through_a_scalar_is_refused() {
    assert!(set_at_path(json(r#"{"a": 1}"#), &texts(&["a", "b"]), Value::Null).is_err());
    assert!(value_at_path(&json(r#"{"a": [1]}"#), &texts(&["a", "x"])).is_err());
    assert!(value_at_path(&json(r#"{"a": [1]}"#), &texts(&["a", "1"])).is_err());
    assert_eq!(value_at_path(&json(r#"{"a": [1]}"#), &texts(&["a", "0"])), Ok(&Value::uint(1)));
}

#[test]
fn parents_are_created_inside_arrays() {
    let made = ok(create_missing_parents(json("{}"), &texts(&["rows", "1", "name"])));
    assert_eq!(made, json(r#"{"rows":[null,{"name":{}}]}"#));
    let made = ok(create_missing_parents(json(r#"{"rows":[]}"#), &texts(&["rows", "0", "2"])));
    assert_eq!(made, json(r#"{"rows":[[null,null,null]]}"#));
}

#[test]
fn created_parents_hold_what_was_there() {
    let made = ok(create_missing_parents(json(r#"{"a": {"x": 1}}"#), &texts(&["a", "b", "c"])));
    assert_eq!(read_at(&made, "a/x"), Value::uint(1));
    assert!(value_at_path(&made, &texts(&["a", "b"])).is_ok());
}

// ── Environment ──────────────────────────────────────────────────────────────

fn never(_: &str, _: &str, _: &str) -> Result<(), String> {
    panic!("nothing is to be written")
}

fn environment_round_trip() {
    let mut store = EnvStore::new();
    let missing = get_env(&store, &json(r#"{"key": "SOLX_TEST_NOPE"}"#));
    assert_eq!(missing.get("value"), Some(&Value::Null));
    ok(set_env(&mut store, &json(r#"{"key": "SOLX_TEST_KEY", "value": "hi"}"#), never));
    let got = get_env(&store, &json(r#"{"key": "SOLX_TEST_KEY"}"#));
    assert_eq!(got.get_str("value"), Some("hi"));
}

#[test]
fn mod_get_env_set_env_round_trip() {
    environment_round_trip();
}

#[test]
fn internal_get_env_set_env_round_trip() {
    let mut store: Table<String> = Table::new();
    let missing = solx_actions::internal::utils::get_env(&store, &json(r#"{"key": "SOLX_TEST_NOPE"}"#));
    assert_eq!(missing.get("value"), Some(&Value::Null));
    solx_actions::internal::utils::set_env(
        &mut store,
        &json(r#"{"key": "SOLX_TEST_KEY", "value": "hi"}"#),
    );
    let got = solx_actions::internal::utils::get_env(&store, &json(r#"{"key": "SOLX_TEST_KEY"}"#));
    assert_eq!(got.get_str("value"), Some("hi"));
}

#[test]
fn env_namespaces_isolate_the_same_key() {
    let mut store = EnvStore::new();
    ok(set_env(&mut store, &json(r#"{"namespace": "ns_iso_a", "key": "cursor", "value": "alpha"}"#), never));
    ok(set_env(&mut store, &json(r#"{"namespace": "ns_iso_b", "key": "cursor", "value": "beta"}"#), never));
    let a = get_env(&store, &json(r#"{"namespace": "ns_iso_a", "key": "cursor"}"#));
    let b = get_env(&store, &json(r#"{"namespace": "ns_iso_b", "key": "cursor"}"#));
    assert_eq!(a.get_str("value"), Some("alpha"));
    assert_eq!(b.get_str("value"), Some("beta"));
    let miss = get_env(&store, &json(r#"{"namespace": "ns_iso_c", "key": "cursor"}"#));
    assert_eq!(miss.get("value"), Some(&Value::Null));
}

#[test]
fn set_env_persist_is_sticky_and_writes_config() {
    let written: std::cell::RefCell<Vec<(String, String, String)>> = std::cell::RefCell::new(vec![]);
    let keep = |ns: &str, key: &str, value: &str| -> Result<(), String> {
        written.borrow_mut().push((ns.to_string(), key.to_string(), value.to_string()));
        Ok(())
    };
    let mut store = EnvStore::new();
    let res = ok(set_env(
        &mut store,
        &json(r#"{"namespace": "ns_sticky", "key": "cursor", "value": "/?skip=10", "persist": true}"#),
        keep,
    ));
    assert_eq!(res.get_bool("persisted"), Some(true));
    assert_eq!(
        written.borrow().last().map(|w| w.2.clone()).as_deref(),
        Some("/?skip=10")
    );
    let res = ok(set_env(
        &mut store,
        &json(r#"{"namespace": "ns_sticky", "key": "cursor", "value": "/?skip=20"}"#),
        keep,
    ));
    assert_eq!(res.get_bool("persisted"), Some(true));
    assert_eq!(
        written.borrow().last().cloned(),
        Some(("ns_sticky".to_string(), "cursor".to_string(), "/?skip=20".to_string()))
    );
    ok(set_env(
        &mut store,
        &json(r#"{"namespace": "ns_sticky", "key": "scratch", "value": "x"}"#),
        never,
    ));
    assert_eq!(written.borrow().len(), 2);
}

#[test]
fn init_persisted_env_reloads_into_the_store() {
    let mut store = EnvStore::new();
    init_persisted_env(
        &mut store,
        &vec![("ns_reload".to_string(), vec![("cursor".to_string(), "/?skip=90".to_string())])],
    );
    let got = get_env(&store, &json(r#"{"namespace": "ns_reload", "key": "cursor"}"#));
    assert_eq!(got.get_str("value"), Some("/?skip=90"));
    let res = ok(set_env(
        &mut store,
        &json(r#"{"namespace": "ns_reload", "key": "cursor", "value": "/?skip=100"}"#),
        |_: &str, _: &str, _: &str| Ok(()),
    ));
    assert_eq!(res.get_bool("persisted"), Some(true));
}

#[test]
fn mapped_variables_do_not_persist() {
    let mut store = EnvStore::new();
    init_env_mappings(&mut store, &vec![("HOME_DIR".to_string(), "/home/me".to_string())]);
    assert_eq!(get_env(&store, &json(r#"{"key": "HOME_DIR"}"#)).get_str("value"), Some("/home/me"));
    let res = ok(set_env(&mut store, &json(r#"{"key": "HOME_DIR", "value": "/tmp"}"#), never));
    assert_eq!(res.get_bool("persisted"), Some(false));
}

#[test]
fn a_write_that_fails_is_told() {
    let mut store = EnvStore::new();
    let r = set_env(
        &mut store,
        &json(r#"{"key": "K", "value": "v", "persist": true}"#),
        |_: &str, _: &str, _: &str| Err("disk full".to_string()),
    );
    assert!(refusal(r).contains("disk full"));
}

// ── Secrets of a caller ──────────────────────────────────────────────────────

type Getter = Box<dyn Fn(&str) -> Result<Option<String>, String>>;
type Setter = Box<dyn Fn(&str, &str) -> Result<(), String>>;
type Deleter = Box<dyn Fn(&str) -> Result<(), String>>;
type Backend = SecretBackendOverride<Getter, Setter, Deleter>;

/// A backend in memory that keeps what it is handed.
fn memory() -> Backend {
    let blobs: Rc<RefCell<HashMap<String, String>>> = Rc::new(RefCell::new(HashMap::new()));
    let (read, written, deleted) = (blobs.clone(), blobs.clone(), blobs);
    SecretBackendOverride {
        get: Box::new(move |name: &str| Ok(read.borrow().get(name).cloned())),
        set: Box::new(move |name: &str, blob: &str| {
            written.borrow_mut().insert(name.to_string(), blob.to_string());
            Ok(())
        }),
        delete: Box::new(move |name: &str| {
            deleted.borrow_mut().remove(name);
            Ok(())
        }),
    }
}

fn key_b64() -> String {
    base64::engine::general_purpose::STANDARD.encode([7u8; 32])
}

#[test]
fn secrets_are_refused_without_an_action_caller() {
    let store = SecretStore::new(memory());
    let err = refusal(get_secret(&store, &json(r#"{"name": "FOO"}"#), None));
    assert!(err.contains("no action caller"), "{err}");
    let err = refusal(set_secret(&store, &json(r#"{"name": "FOO", "value": "x"}"#), None));
    assert!(err.contains("no action caller"), "{err}");
}

#[test]
fn secrets_resolve_against_the_calling_actions_own_keys() {
    let config = json(&format!(r#"{{ "secrets": {{ "FOO": "{}" }} }}"#, key_b64()));
    let caller = Caller::from_action("/pkg/foo", Some(&config));
    let store = SecretStore::new(memory());
    ok(set_secret(&store, &json(r#"{"name": "FOO", "value": "s3cret"}"#), Some(&caller)));
    let got = ok(get_secret(&store, &json(r#"{"name": "FOO"}"#), Some(&caller)));
    assert_eq!(got.get_str("value"), Some("s3cret"));
    let err = refusal(get_secret(&store, &json(r#"{"name": "BAR"}"#), Some(&caller)));
    assert!(err.contains("no key configured"), "{err}");
    assert!(err.contains("action://pkg/foo"), "{err}");
}

#[test]
fn get_secret_and_set_secret_require_configured_key() {
    let store = SecretStore::new(memory());
    let config = json(r#"{ "secrets": {} }"#);
    assert_eq!(resolve_secret_key(Some(&config), "FOO"), None);
    assert!(set_own_secret(&store, &json(r#"{"name": "FOO", "value": "x"}"#), Some(&config)).is_err());
    let config = json(&format!(r#"{{ "secrets": {{ "FOO": "{}" }} }}"#, key_b64()));
    ok(set_own_secret(&store, &json(r#"{"name": "FOO", "value": "x"}"#), Some(&config)));
    let got = get_own_secret(&store, &json(r#"{"name": "FOO"}"#), Some(&config));
    assert_eq!(got.get_str("value"), Some("x"));
}

#[test]
fn variables_are_marked_apart() {
    assert_eq!(persist_id("a", "b"), "a\u{0}b");
    assert_ne!(persist_id("a", "bc"), persist_id("ab", "c"));
    assert_ne!(persist_id("a", "b"), persist_id("b", "a"));
}

#[test]
fn a_backend_that_fails_is_reported_to_the_caller_and_null_to_the_executing_action() {
    let store: SecretStore<Getter, Setter, Deleter> = SecretStore::new(SecretBackendOverride {
        get: Box::new(|_: &str| Err("locked".to_string())),
        set: Box::new(|_: &str, _: &str| Err("full".to_string())),
        delete: Box::new(|_: &str| Ok(())),
    });
    let config = json(&format!(r#"{{ "secrets": {{ "FOO": "{}" }} }}"#, key_b64()));
    let caller = Caller::from_action("/pkg/foo", Some(&config));
    let name = json(r#"{"name": "FOO"}"#);
    let write = json(r#"{"name": "FOO", "value": "x"}"#);
    assert_eq!(refusal(get_secret(&store, &name, Some(&caller))), "locked");
    assert_eq!(refusal(set_secret(&store, &write, Some(&caller))), "full");
    assert_eq!(get_own_secret(&store, &name, Some(&config)).get("value"), Some(&Value::Null));
    assert_eq!(refusal(set_own_secret(&store, &write, Some(&config))), "full");
}

// ── HTTP ─────────────────────────────────────────────────────────────────────

#[test]
fn http_request_get_returns_status_and_body() {
    let plan = ok(http_request(&json(r#"{"url": "http://127.0.0.1:4000/ok", "method": "GET"}"#)));
    assert_eq!(plan.method, "GET");
    assert_eq!(plan.url, "http://127.0.0.1:4000/ok");
    assert_eq!(plan.body, None);
    assert_eq!(plan.timeout_secs, 30);
    let v = http_response(
        200,
        "http://127.0.0.1:4000/ok",
        Some("application/json"),
        &vec![("x-echo".to_string(), "1".to_string())],
        br#"{"method":"GET","body":""}"#.to_vec(),
    );
    assert_eq!(v.get_u64("status"), Some(200));
    assert_eq!(v.get_str("body_encoding"), Some("utf8"));
    let parsed = json(v.get_str("body").unwrap());
    assert_eq!(parsed.get_str("method"), Some("GET"));
    assert_eq!(parsed.get_str("body"), Some(""));
    assert_eq!(v.field("headers").get_str("x-echo"), Some("1"));
}

#[test]
fn http_request_sends_headers_and_body() {
    let plan = ok(http_request(&json(
        r#"{
            "url": "http://127.0.0.1:4000/ok",
            "method": "POST",
            "headers": { "Content-Type": "application/json", "X-Trace": "abc" },
            "body": "{\"hi\":\"there\"}"
        }"#,
    )));
    assert_eq!(plan.method, "POST");
    assert_eq!(plan.body.as_deref(), Some(br#"{"hi":"there"}"#.as_slice()));
    assert!(plan.headers.iter().any(|(k, v)| k.eq_ignore_ascii_case("content-type") && v == "application/json"));
    assert!(plan.headers.iter().any(|(k, v)| k.eq_ignore_ascii_case("x-trace") && v == "abc"));
}

#[test]
fn http_request_returns_response_on_non_2xx() {
    let v = http_response(503, "http://127.0.0.1:4000/bad", None, &vec![], br#"{"err":"nope"}"#.to_vec());
    assert_eq!(v.get_u64("status"), Some(503));
    assert_eq!(v.get_str("body_encoding"), Some("utf8"));
    assert_eq!(v.get_str("body"), Some(r#"{"err":"nope"}"#));
}

#[test]
fn http_request_rejects_zero_timeout() {
    let err = refusal(http_request(&json(r#"{"url": "http://127.0.0.1:1/", "timeout_secs": 0}"#)));
    assert!(err.contains("timeout_secs must be > 0"), "{err}");
}

#[test]
fn malformed_methods_and_headers_are_refused() {
    assert!(http_request(&json(r#"{"url": "http://h/", "method": "a b"}"#)).is_err());
    assert!(http_request(&json(r#"{"url": "http://h/", "headers": {"a b": "x"}}"#)).is_err());
    assert!(http_request(&json(r#"{"url": "http://h/", "headers": {"a": "x\ny"}}"#)).is_err());
    assert!(http_request(&json("{}")).is_err());
}

#[test]
fn a_binary_body_is_encoded() {
    let v = http_response(200, "http://h/", None, &vec![], vec![255, 254]);
    assert_eq!(v.get_str("body_encoding"), Some("base64"));
    assert_eq!(v.get_str("body"), Some("//4="));
}

#[test]
fn pages_are_fetched_or_refused_by_status() {
    assert_eq!(ok(fetch_html(&json(r#"{"url": "https://h/"}"#))), "https://h/");
    assert!(fetch_html(&json("{}")).is_err());
    assert_eq!(ok(fetched(true, "200 OK", "<p>".to_string())).get_str("html"), Some("<p>"));
    assert!(refusal(fetched(false, "404 Not Found", String::new())).contains("404 Not Found"));
}

// ── HTTP streams ─────────────────────────────────────────────────────────────

fn reply(step: PollStep) -> Value {
    match step {
        PollStep::Reply(v) => v,
        PollStep::Wait(_) => panic!("expected a reply"),
    }
}

fn stream_of(registry: &mut StreamRegistry, lines: &[&str], cap: usize, end: bool) {
    let mut s = registry.streams.remove("s").unwrap();
    for line in lines {
        s.read_stream(StreamEvent::Bytes(format!("{line}\n").into_bytes()), cap, &parse);
    }
    if end {
        s.read_stream(StreamEvent::Ended, cap, &parse);
    }
    registry.streams.insert("s", s);
}

#[test]
fn http_stream_start_returns_immediately_with_status() {
    ok(stream_request(&json(r#"{"url": "http://127.0.0.1:4000/stream"}"#)));
    let (id, v) = StreamRegistry::new().start(200, 0);
    assert_eq!(v.get_u64("status"), Some(200));
    assert_eq!(v.get_str("stream_id"), Some(id.as_str()));
    assert_eq!(id.len(), 36);
}

#[test]
fn http_stream_poll_drains_chunks_in_order_and_reports_done() {
    let mut registry = StreamRegistry::new();
    registry.start_as("s", 200, 0);
    stream_of(&mut registry, &[r#"{"n":1}"#], 1024, false);
    let v = reply(ok(registry.poll(&json(r#"{"stream_id": "s", "cursor": 0, "wait_secs": 2}"#), 0, 0)));
    let mut chunks = items(v.get("chunks"));
    let cursor = v.get_i64("next_cursor").unwrap();
    assert_eq!(v.get_bool("done"), Some(false));
    stream_of(&mut registry, &[r#"{"n":2}"#, r#"{"n":3}"#], 1024, true);
    let again = json(&format!(r#"{{"stream_id": "s", "cursor": {cursor}, "wait_secs": 2}}"#));
    let v = reply(ok(registry.poll(&again, 1, 0)));
    chunks.extend(items(v.get("chunks")));
    assert_eq!(v.get_bool("done"), Some(true));
    assert_eq!(chunks.len(), 3, "{chunks:?}");
    assert_eq!(chunks[0].get_i64("n"), Some(1));
    assert_eq!(chunks[1].get_i64("n"), Some(2));
    assert_eq!(chunks[2].get_i64("n"), Some(3));
}

#[test]
fn http_stream_poll_missing_cursor_reads_from_the_start() {
    let mut registry = StreamRegistry::new();
    registry.start_as("s", 200, 0);
    stream_of(&mut registry, &[r#"{"n":1}"#], 1024, true);
    let v = reply(ok(registry.poll(&json(r#"{"stream_id": "s", "wait_secs": 2}"#), 0, 0)));
    let chunks = items(v.get("chunks"));
    assert_eq!(chunks.len(), 1);
    assert_eq!(chunks[0].get_i64("n"), Some(1));
}

#[test]
fn http_stream_poll_unknown_stream_id_errors() {
    let err = refusal(StreamRegistry::new().poll(&json(r#"{"stream_id": "nope"}"#), 0, 0));
    assert!(err.contains("no stream registered"), "{err}");
}

#[test]
fn http_stream_close_aborts_and_further_polls_fail() {
    let mut registry = StreamRegistry::new();
    registry.start_as("s", 200, 0);
    let params = json(r#"{"stream_id": "s"}"#);
    let (abort, closed) = ok(registry.close(&params));
    assert!(abort);
    assert_eq!(closed.get_bool("closed"), Some(true));
    let err = refusal(registry.poll(&params, 0, 0));
    assert!(err.contains("no stream registered"), "{err}");
    let (abort, closed) = ok(registry.close(&params));
    assert!(!abort);
    assert_eq!(closed.get_bool("closed"), Some(false));
}

#[test]
fn http_stream_reports_dropped_chunks_once_over_the_buffer_cap() {
    let mut registry = StreamRegistry::new();
    registry.start_as("s", 200, 0);
    stream_of(&mut registry, &[r#"{"n":1}"#, r#"{"n":2}"#, r#"{"n":3}"#], 1, true);
    let last = reply(ok(registry.poll(&json(r#"{"stream_id": "s", "cursor": 0, "wait_secs": 2}"#), 0, 0)));
    assert!(last.get_i64("dropped").unwrap_or(0) > 0, "{last:?}");
}

#[test]
fn http_stream_self_terminates_after_idle_ttl() {
    let mut registry = StreamRegistry::new();
    registry.start_as("s", 200, 0);
    stream_of(&mut registry, &[r#"{"n":1}"#], 1024, false);
    reply(ok(registry.poll(&json(r#"{"stream_id": "s", "cursor": 0}"#), 0, 0)));
    let mut s = registry.streams.remove("s").unwrap();
    let late: u128 = 1_500_000_000;
    assert!(s.is_idle(late, 1));
    assert!(!s.is_idle(1, 1));
    s.read_stream(StreamEvent::Idle, 1024, &parse);
    registry.streams.insert("s", s);
    let v = reply(ok(registry.poll(&json(r#"{"stream_id": "s"}"#), late, 0)));
    assert_eq!(v.get_bool("done"), Some(true));
    assert!(v.get_str("error").unwrap_or_default().contains("idle"), "{v:?}");
}

#[test]
fn a_stream_starts_without_an_error() {
    let mut registry = StreamRegistry::new();
    registry.start_as("s", 200, 7);
    let s = registry.streams.get("s").unwrap();
    assert!(s.error.is_none() && !s.done && s.pending.is_empty());
    assert_eq!((s.status, s.last_polled), (Some(200), 7));
}

#[test]
fn blank_lines_are_not_parsed() {
    let never = |_: &str| -> Option<Value> { panic!("nothing is to be parsed") };
    let mut s = StreamState::new(200, 0);
    s.receive(&b"\n  \n\xff\nrest".to_vec(), 1024, &never);
    assert_eq!(s.chunks.len(), 1);
    s.read_stream(StreamEvent::Idle, 1024, &never);
    assert_eq!(s.pending, b"rest".to_vec());
}

#[test]
fn lines_may_arrive_in_pieces() {
    let mut whole = StreamState::new(200, 0);
    whole.receive(&b"{\"n\":1}\n{\"n\":2}\nrest".to_vec(), 1024, &parse);
    let mut pieces = StreamState::new(200, 0);
    for b in b"{\"n\":1}\n{\"n\":2}\nrest" {
        pieces.receive(&vec![*b], 1024, &parse);
    }
    assert_eq!(whole.chunks, pieces.chunks);
    assert_eq!(whole.pending, pieces.pending);
    assert_eq!(whole.pending, b"rest".to_vec());
    assert_eq!(whole.next_index(), 2);
    whole.finish(None);
    assert!(whole.done);
}

#[test]
fn a_line_that_is_no_json_is_kept_as_text() {
    let mut s = StreamState::new(200, 0);
    s.receive(&b"hello\n".to_vec(), 1024, &parse);
    assert_eq!(s.chunks.len(), 1);
    assert!(format!("{:?}", s.chunks[0]).contains("hello"));
}

#[test]
fn the_cap_counts_lines_and_keeps_the_newest() {
    let mut s = StreamState::new(200, 0);
    for line in ["a", "", "b", "c"] {
        s.push_line(&line.as_bytes().to_vec(), 1, &parse);
    }
    assert_eq!(s.chunks.len(), 1);
    assert!(format!("{:?}", s.chunks[0]).contains('c'));
    assert_eq!((s.dropped, s.base_index, s.buffered_bytes), (2, 2, 1));
    assert_eq!(s.sizes, vec![1]);
    s.push_line(&b"longer than the cap".to_vec(), 1, &parse);
    assert_eq!((s.chunks.len(), s.dropped, s.buffered_bytes), (1, 3, 19));
}

#[test]
fn a_line_is_counted_by_its_own_length() {
    let mut s = StreamState::new(200, 0);
    s.push_line(&br#"{ "n" : 1 }"#.to_vec(), 22, &parse);
    s.push_line(&br#"{ "n" : 2 }"#.to_vec(), 22, &parse);
    assert_eq!((s.chunks.len(), s.buffered_bytes, s.dropped), (2, 22, 0));
    s.push_line(&b"x".to_vec(), 22, &parse);
    assert_eq!((s.chunks.len(), s.buffered_bytes, s.dropped), (2, 12, 1));
}

#[test]
fn polls_in_turn_give_every_line_once() {
    let mut registry = StreamRegistry::new();
    registry.start_as("s", 200, 0);
    let mut cursor: u64 = 0;
    let mut seen: Vec<u64> = Vec::new();
    for lines in [&["1", "2"][..], &[""][..], &["3"][..], &["4", "5", "6"][..]] {
        stream_of(&mut registry, lines, 2, false);
        let params = json(&format!(r#"{{"stream_id": "s", "cursor": {cursor}}}"#));
        let v = reply(ok(registry.poll(&params, 0, 0)));
        match v.get("chunks") {
            Some(Value::Array(chunks)) => seen.extend(chunks.iter().map(|c| c.as_u64().unwrap())),
            _ => panic!("expected chunks"),
        }
        assert!(v.get_u64("next_cursor").unwrap() >= cursor);
        cursor = v.get_u64("next_cursor").unwrap();
    }
    assert_eq!(seen, vec![1, 2, 3, 5, 6]);
    assert_eq!(cursor, 6);
}

#[test]
fn the_end_of_a_stream_leaves_nothing_pending() {
    for event in [StreamEvent::Ended, StreamEvent::Failed("cut".to_string())] {
        let mut s = StreamState::new(200, 0);
        s.receive(&b"rest".to_vec(), 1024, &parse);
        assert!(s.read_stream(event, 1024, &parse));
        assert!(s.pending.is_empty());
        assert_eq!(s.chunks.len(), 1);
    }
    let mut s = StreamState::new(200, 0);
    s.receive(&b"rest".to_vec(), 1024, &parse);
    assert!(s.read_stream(StreamEvent::Idle, 1024, &parse));
    assert_eq!(s.pending, b"rest".to_vec());
}

#[test]
fn a_poll_with_nothing_to_say_waits() {
    let mut registry = StreamRegistry::new();
    registry.start_as("s", 200, 0);
    let params = json(r#"{"stream_id": "s", "wait_secs": 2}"#);
    assert!(matches!(registry.poll(&params, 0, 0), Ok(PollStep::Wait(_))));
    assert!(matches!(registry.poll(&params, 0, 2000), Ok(PollStep::Reply(_))));
}

// ── Consoles ─────────────────────────────────────────────────────────────────

fn entry(seq: i64, message: &str) -> ConsoleEntry {
    ConsoleEntry {
        seq,
        ts: "2024-01-01T00:00:00Z".to_string(),
        level: "info".to_string(),
        invocation_id: "inv".to_string(),
        run_id: None,
        source: "guest".to_string(),
        message: Some(message.to_string()),
        data: None,
    }
}

#[test]
fn console_print_is_refused_without_an_action_caller() {
    let err = refusal(print(&json(r#"{"message": "hi"}"#), None));
    assert!(err.contains("no action caller"), "{err}");
}

#[test]
fn console_print_writes_to_the_callers_own_console() {
    let caller = Caller::from_action("/pkg/foo", None);
    let p = ok(print(&json(r#"{"message": "hello"}"#), Some(&caller)));
    assert_eq!(p.action_ref, "/pkg/foo");
    assert_eq!(p.message.as_deref(), Some("hello"));
    assert_eq!(p.source, "guest");
    assert_eq!(p.level, "info");
    assert_eq!(p.invocation_id, caller.invocation_id());
    assert_eq!(print_reply(1).get_i64("seq"), Some(1));
}

#[test]
fn console_print_defaults_level_and_honors_an_explicit_one() {
    let caller = Caller::from_action("/pkg/foo", None);
    assert_eq!(ok(print(&json(r#"{"message": "a"}"#), Some(&caller))).level, "info");
    assert_eq!(ok(print(&json(r#"{"level": "warn", "message": "b"}"#), Some(&caller))).level, "warn");
}

#[test]
fn console_read_requires_action_ref() {
    let err = refusal(read(&json("{}")));
    assert!(err.contains("missing required param: action_ref"), "{err}");
}

#[test]
fn console_read_of_an_unwritten_console_is_empty_not_an_error() {
    ok(read(&json(r#"{"action_ref": "/never/printed"}"#)));
    let v = result_to_value(&ReadResult { entries: vec![], next_cursor: 1, first_seq: None, dropped: 0 });
    assert_eq!(items(v.get("entries")).len(), 0);
}

#[test]
fn console_read_respects_from_seq_cursor() {
    let range = ok(read(&json(r#"{"action_ref": "/pkg/foo", "from_seq": 2}"#)));
    assert_eq!(range.action_ref, "/pkg/foo");
    assert_eq!(range.from, Some(2));
    let v = result_to_value(&ReadResult {
        entries: vec![entry(2, "m1"), entry(3, "m2")],
        next_cursor: 4,
        first_seq: Some(1),
        dropped: 0,
    });
    let entries = items(v.get("entries"));
    assert_eq!(entries.len(), 2);
    assert_eq!(entries[0].get_i64("seq"), Some(2));
    assert_eq!(v.get_i64("next_cursor"), Some(4));
}

#[test]
fn console_tail_takes_how_long_to_wait() {
    let range = ok(tail(&json(r#"{"action_ref": "/pkg/foo", "wait_secs": 5}"#)));
    assert_eq!(range.wait_secs, Some(5));
    assert!(tail(&json("{}")).is_err());
}

#[test]
fn console_clear_drops_from_the_front() {
    let (action_ref, before) = ok(clear(&json(r#"{"action_ref": "/pkg/foo", "before_seq": 2}"#)));
    assert_eq!((action_ref.as_str(), before), ("/pkg/foo", Some(2)));
    assert_eq!(clear_reply(1).get_i64("removed"), Some(1));
}

#[test]
fn console_list_reflects_written_consoles() {
    let params = json(r#"{"prefix": "/pkg"}"#);
    let (prefix, limit) = list(&params);
    assert_eq!((prefix, limit), (Some("/pkg"), 100));
    let info = |r: &str| ConsoleInfo {
        action_ref: r.to_string(),
        created_at: "t".to_string(),
        last_write: "t".to_string(),
        entry_count: 1,
        dropped: 0,
        next_seq: 2,
    };
    let v = list_reply(&vec![info("/pkg/a"), info("/pkg/b")]);
    assert_eq!(items(v.get("consoles")).len(), 2);
}

// ── Invocations ──────────────────────────────────────────────────────────────

#[test]
fn action_cancelled_is_refused_without_an_action_caller() {
    let err = refusal(cancelled(None, &InvocationStore::new()));
    assert!(err.contains("no action caller"), "{err}");
}

#[test]
fn action_cancelled_reflects_the_callers_own_invocation() {
    let caller = Caller::with_invocation("/pkg/foo", None, "inv-fixed");
    let mut store = InvocationStore::new();
    let before = ok(cancelled(Some(&caller), &store));
    assert_eq!(before.get("cancelled"), Some(&Value::Bool(false)));
    ok(store.create("inv-fixed", "/pkg/foo", 0, "t0"));
    store.request_cancel("inv-fixed", "t1");
    let after = ok(cancelled(Some(&caller), &store));
    assert_eq!(after.get("cancelled"), Some(&Value::Bool(true)));
}

#[test]
fn invocation_requests_name_what_they_are_about() {
    let s = ok(start(&json(r#"{"path": "/p", "name": "n", "params": {"x": 1}}"#)));
    assert_eq!((s.path.as_str(), s.name.as_str()), ("/p", "n"));
    assert_eq!(s.params, json(r#"{"x": 1}"#));
    let s = ok(stop(&json(r#"{"invocation_id": "i", "force": true, "grace_secs": 3}"#)));
    assert_eq!((s.invocation_id.as_str(), s.force, s.grace_secs), ("i", true, Some(3)));
    let (id, wait) = ok(poll(&json(r#"{"invocation_id": "i", "wait_secs": 4}"#)));
    assert_eq!((id.as_str(), wait), ("i", Some(4)));
    assert!(poll(&json("{}")).is_err());
}

// ── The rest ─────────────────────────────────────────────────────────────────

fn config() -> Config {
    Config {
        allowed_base_urls: vec!["https://accounts.example.com/".to_string()],
        allowed_webhook_base_urls: vec![],
        command_actions: vec![],
        appdata: "/appdata".to_string(),
        logs_dir: "/logs".to_string(),
        background_timeout_secs: 3600,
        stop_grace_secs: 5,
        invocation_ttl_days: 7,
        http_stream_max_buffer_bytes: 1024,
        http_stream_idle_ttl_secs: 60,
    }
}

#[test]
fn urls_are_opened_with_the_platforms_launcher() {
    let params = json(r#"{"url": "https://accounts.example.com/auth?a=1"}"#);
    let mac = ok(open_url(&config(), Platform::MacOs, &params));
    assert_eq!((mac.program, mac.args), ("open", texts(&["https://accounts.example.com/auth?a=1"])));
    let other = ok(open_url(&config(), Platform::Other, &params));
    assert_eq!(other.program, "xdg-open");
    let windows = ok(open_url(&config(), Platform::Windows, &params));
    assert_eq!(windows.args.last().map(String::as_str), Some("https://accounts.example.com/auth?a=1"));
    assert!(open_url(&config(), Platform::Other, &json(r#"{"url": "https://evil.example.net/"}"#)).is_err());
    assert!(open_url(&config(), Platform::Other, &json("{}")).is_err());
    assert!(launch_failed("open", "no such file").contains("no such file"));
    assert!(opened_reply("https://h/").is_object());
}

#[test]
fn both_spellings_of_a_parameter_are_there() {
    assert_eq!(to_snake("pathPrefix"), "path_prefix");
    assert_eq!(to_camel("path_prefix"), "pathPrefix");
    let v = normalize_params(&json(r#"{"pathPrefix": 1, "action_ref": "a"}"#));
    assert_eq!(v.get_u64("path_prefix"), Some(1));
    assert_eq!(v.get_u64("pathPrefix"), Some(1));
    assert_eq!(v.get_str("actionRef"), Some("a"));
}

#[test]
fn missing_script_param_errors() {
    assert!(script_run(&json("{}"), None).is_err());
    let run = ok(script_run(&json(r#"{"script": "json 1", "params": {"x": 1}}"#), None));
    assert_eq!(run.source, "json 1");
    assert_eq!(run.params, json(r#"{"x": 1}"#));
    assert_eq!(run.caller.action_ref(), "/builtin/script/exec");
    assert_eq!(run.caller.secret_key("ANY"), None);
    assert!(script_timed_out().contains("timed out"));
}

#[test]
fn a_script_runs_as_its_caller() {
    let caller = Caller::with_invocation("/pkg/foo", Some(&json(r#"{"secrets": {"A": "k"}}"#)), "inv");
    let run = ok(script_run(&json(r#"{"script": "json 1"}"#), Some(&caller)));
    assert_eq!(run.caller.action_ref(), "/pkg/foo");
    assert_eq!(run.caller.secret_key("A"), Some("k"));
}

#[test]
fn chance_and_time_have_their_form() {
    let now = now_value();
    let now = now.get_str("now").unwrap();
    assert!(now.contains('T') && now.ends_with("+00:00") && now.len() >= 25, "{now}");
    let uuid = uuid_value();
    assert_eq!(uuid.get_str("uuid").map(str::len), Some(36));
    assert_ne!(uuid, uuid_value());
    for _ in 0..50 {
        let n = ok(random_int_value(&json(r#"{"lo": -2, "hi": 3}"#))).get_i64("value").unwrap();
        assert!((-2..=3).contains(&n), "{n}");
    }
    assert_eq!(
        refusal(random_int_value(&json(r#"{"lo": 4, "hi": 3}"#))),
        "random_int: lo (4) must be <= hi (3)"
    );
    let s = ok(random_string_value(&json(r#"{"length": 12}"#)));
    let s = s.get_str("value").unwrap();
    assert!(s.len() == 12 && s.chars().all(|c| c.is_ascii_alphanumeric()), "{s}");
    assert_eq!(ok(random_string_value(&json("{}"))).get_str("value").map(str::len), Some(16));
    assert_eq!(ok(random_string_value(&json(r#"{"length": 0}"#))).get_str("value"), Some(""));
}

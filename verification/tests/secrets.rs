//! Secret values, and the encrypted secret store.

use std::cell::RefCell;
use std::collections::HashMap;
use std::rc::Rc;

use solx_actions::secrets::{
    decrypt, delete_secret, encrypt, get_secret, keyring_ref_of, load_keyring,
    load_keyring_with_test_override, real_raw_delete, real_raw_get, real_raw_set, resolve, resolve_in_field, set_secret,
    set_secret_backend_for_tests, set_secret_loader_for_tests, EntryOutcome, KeyringLookup, KeyringRef,
    SecretBackendOverride, SecretLoaderSlot, SecretStore, KEY_LEN,
};
use solx_actions::value::Value;

use base64::Engine;

fn of(j: &serde_json::Value) -> Value {
    match j {
        serde_json::Value::Null => Value::Null,
        serde_json::Value::Bool(b) => Value::Bool(*b),
        serde_json::Value::Number(n) => match (n.as_u64(), n.as_i64()) {
            (Some(u), _) => Value::UInt(u),
            (None, Some(i)) => Value::NegInt(i),
            (None, None) => Value::Float(n.to_string()),
        },
        serde_json::Value::String(s) => Value::Str(s.clone()),
        serde_json::Value::Array(items) => Value::Array(items.iter().map(of).collect()),
        serde_json::Value::Object(members) => {
            Value::Object(members.iter().map(|(k, v)| (k.clone(), of(v))).collect())
        }
    }
}

/// The value that a JSON text stands for.
fn json(text: &str) -> Value {
    of(&serde_json::from_str(text).unwrap())
}

type Loader = fn(&KeyringRef) -> Result<String, String>;

fn no_keyring(_: &KeyringRef) -> KeyringLookup {
    KeyringLookup::OpenFailed("no keyring here".to_string())
}

fn no_loader(_: &KeyringRef) -> Result<String, String> {
    panic!("the loader is not to be called")
}

fn fixed_loader(_: &KeyringRef) -> Result<String, String> {
    Ok("from-test-loader".to_string())
}

fn failing_loader(r: &KeyringRef) -> Result<String, String> {
    Err(format!("synthetic: {}/{}", r.keyring_service, r.keyring_account))
}

type Getter = Box<dyn Fn(&str) -> Result<Option<String>, String>>;
type Setter = Box<dyn Fn(&str, &str) -> Result<(), String>>;
type Deleter = Box<dyn Fn(&str) -> Result<(), String>>;
type Backend = SecretBackendOverride<Getter, Setter, Deleter>;
type Store = SecretStore<Getter, Setter, Deleter>;

/// A backend in memory that keeps what it is handed.
fn memory() -> Backend {
    let blobs: Rc<RefCell<HashMap<String, String>>> = Rc::new(RefCell::new(HashMap::new()));
    let (read, written, deleted) = (blobs.clone(), blobs.clone(), blobs);
    SecretBackendOverride {
        get: Box::new(move |name: &str| Ok(read.borrow().get(name).cloned())),
        set: Box::new(move |name: &str, blob: &str| {
            written.borrow_mut().insert(name.to_string(), blob.to_string());
            Ok(())
        }),
        delete: Box::new(move |name: &str| {
            deleted.borrow_mut().remove(name);
            Ok(())
        }),
    }
}

/// A backend where everything fails.
fn broken(what: &'static str) -> Backend {
    SecretBackendOverride {
        get: Box::new(move |name: &str| Err(format!("{what}: get {name}"))),
        set: Box::new(move |name: &str, _: &str| Err(format!("{what}: set {name}"))),
        delete: Box::new(move |name: &str| Err(format!("{what}: delete {name}"))),
    }
}

fn fake_backend() -> Store {
    let mut store = SecretStore::new(broken("keyring"));
    set_secret_backend_for_tests(&mut store, Some(memory()));
    store
}

fn key_a() -> String {
    base64::engine::general_purpose::STANDARD.encode([1u8; KEY_LEN])
}

fn key_b() -> String {
    base64::engine::general_purpose::STANDARD.encode([2u8; KEY_LEN])
}

#[test]
fn inline_string_resolves_directly() {
    assert_eq!(resolve(&json(r#""abc""#), no_loader).unwrap(), "abc");
}

#[test]
fn null_value_errors_with_helpful_message() {
    let err = resolve(&json("null"), no_loader).unwrap_err();
    assert!(err.contains("secret value is null"), "{err}");
    assert!(err.contains("*-env"), "{err}");
}

#[test]
fn number_value_errors_with_type_name() {
    let err = resolve(&json("42"), no_loader).unwrap_err();
    assert!(err.contains("unsupported JSON type number"), "{err}");
}

#[test]
fn keyring_shape_round_trips() {
    let v = json(r#"{"keyring_service": "sol", "keyring_account": "google"}"#);
    let r = match keyring_ref_of(&v) {
        Ok(r) => r,
        Err(e) => panic!("{e}"),
    };
    assert_eq!(r.keyring_service, "sol");
    assert_eq!(r.keyring_account, "google");
}

#[test]
fn malformed_keyring_shape_errors_without_calling_loader() {
    let err = resolve(&json(r#"{"keyring_service": "sol"}"#), no_loader).unwrap_err();
    assert!(err.contains("missing field"), "{err}");
}

#[test]
fn empty_keyring_fields_rejected_before_loader_runs() {
    let r = KeyringRef { keyring_service: "".into(), keyring_account: "x".into() };
    let err = load_keyring(&r, |_: &KeyringRef| panic!("the keyring is not to be asked")).unwrap_err();
    assert!(err.contains("non-empty"), "{err}");
}

#[test]
fn loader_test_seam_overrides_real_implementation() {
    let mut slot: SecretLoaderSlot<Loader> = SecretLoaderSlot { loader: None };
    set_secret_loader_for_tests(&mut slot, Some(fixed_loader as Loader));
    let v = json(r#"{"keyring_service": "sol", "keyring_account": "any"}"#);
    let r = KeyringRef { keyring_service: "sol".into(), keyring_account: "any".into() };
    assert_eq!(
        load_keyring_with_test_override(&slot, &r, no_keyring).unwrap(),
        "from-test-loader"
    );
    assert_eq!(
        resolve(&v, |k: &KeyringRef| load_keyring_with_test_override(&slot, k, no_keyring)).unwrap(),
        "from-test-loader"
    );
    set_secret_loader_for_tests(&mut slot, None);
    assert!(load_keyring_with_test_override(&slot, &r, no_keyring).is_err());
}

#[test]
fn loader_test_seam_error_surfaces_in_resolve() {
    let mut slot: SecretLoaderSlot<Loader> = SecretLoaderSlot { loader: None };
    set_secret_loader_for_tests(&mut slot, Some(failing_loader as Loader));
    let v = json(r#"{"keyring_service": "sol", "keyring_account": "missing"}"#);
    let err = resolve(&v, |k: &KeyringRef| load_keyring_with_test_override(&slot, k, no_keyring))
        .unwrap_err();
    assert!(err.contains("synthetic: sol/missing"), "{err}");
}

#[test]
fn set_then_get_secret_round_trips_with_the_right_key() {
    let store = fake_backend();
    set_secret(&store, "MY_SECRET", "top-secret-value", &key_a()).unwrap();
    assert_eq!(
        get_secret(&store, "MY_SECRET", &key_a()).unwrap(),
        Some("top-secret-value".to_string())
    );
}

#[test]
fn get_secret_with_wrong_key_fails_to_decrypt() {
    let store = fake_backend();
    set_secret(&store, "MY_SECRET", "top-secret-value", &key_a()).unwrap();
    let err = get_secret(&store, "MY_SECRET", &key_b()).unwrap_err();
    assert!(err.contains("decryption failed"), "{err}");
}

#[test]
fn get_secret_missing_entry_returns_none() {
    assert_eq!(get_secret(&fake_backend(), "NOT_STORED", &key_a()).unwrap(), None);
}

#[test]
fn delete_secret_removes_the_entry() {
    let store = fake_backend();
    set_secret(&store, "MY_SECRET", "value", &key_a()).unwrap();
    delete_secret(&store, "MY_SECRET").unwrap();
    assert_eq!(get_secret(&store, "MY_SECRET", &key_a()).unwrap(), None);
}

#[test]
fn short_key_is_rejected() {
    let short_key = base64::engine::general_purpose::STANDARD.encode([1u8; 16]);
    let err = set_secret(&fake_backend(), "MY_SECRET", "value", &short_key).unwrap_err();
    assert!(err.contains("must decode to 32 bytes"), "{err}");
}

#[test]
fn a_key_that_is_not_base64_is_rejected() {
    let err = set_secret(&fake_backend(), "MY_SECRET", "value", "not base64!").unwrap_err();
    assert!(err.contains("secret key is not valid base64: "), "{err}");
}

#[test]
fn sealed_values_differ_from_call_to_call_and_open_alike() {
    let one = encrypt("s\u{e9}cret", &key_a()).unwrap();
    let two = encrypt("s\u{e9}cret", &key_a()).unwrap();
    assert_ne!(one, two);
    assert_ne!(one, "s\u{e9}cret");
    assert_eq!(decrypt(&one, &key_a()).unwrap(), "s\u{e9}cret");
    assert_eq!(decrypt(&two, &key_a()).unwrap(), "s\u{e9}cret");
}

#[test]
fn an_empty_value_round_trips() {
    let store = SecretStore::new(memory());
    set_secret(&store, "EMPTY", "", &key_a()).unwrap();
    assert_eq!(get_secret(&store, "EMPTY", &key_a()).unwrap(), Some(String::new()));
}

#[test]
fn a_blob_that_is_too_short_or_no_base64_does_not_open() {
    assert!(decrypt("AAAA", &key_a()).is_err());
    assert!(decrypt("***", &key_a()).is_err());
}

#[test]
fn the_seam_hides_the_keyring_and_gives_it_back() {
    let mut store = SecretStore::new(memory());
    set_secret(&store, "A", "outer", &key_a()).unwrap();
    set_secret_backend_for_tests(&mut store, Some(memory()));
    assert_eq!(get_secret(&store, "A", &key_a()).unwrap(), None);
    set_secret(&store, "A", "inner", &key_a()).unwrap();
    delete_secret(&store, "A").unwrap();
    assert!(store.backend.is_some());
    set_secret_backend_for_tests(&mut store, None);
    assert_eq!(get_secret(&store, "A", &key_a()).unwrap(), Some("outer".to_string()));
}

#[test]
fn what_a_backend_refuses_is_handed_on() {
    let store = SecretStore::new(broken("locked"));
    assert_eq!(get_secret(&store, "A", &key_a()), Err("locked: get A".to_string()));
    assert_eq!(get_secret(&store, "A", "no key"), Err("locked: get A".to_string()));
    assert_eq!(set_secret(&store, "A", "v", &key_a()), Err("locked: set A".to_string()));
    assert_eq!(delete_secret(&store, "A"), Err("locked: delete A".to_string()));
    let err = set_secret(&store, "A", "v", "no key").unwrap_err();
    assert!(err.contains("not valid base64"), "{err}");
}

#[test]
fn a_backend_is_handed_the_blob_alone_and_nothing_where_the_key_is_refused() {
    let handed: Rc<RefCell<Vec<(String, String)>>> = Rc::new(RefCell::new(Vec::new()));
    let log = handed.clone();
    let mut backend = memory();
    backend.set = Box::new(move |name: &str, blob: &str| {
        log.borrow_mut().push((name.to_string(), blob.to_string()));
        Ok(())
    });
    let store = SecretStore::new(backend);
    let short_key = base64::engine::general_purpose::STANDARD.encode([1u8; 16]);
    assert_eq!(
        set_secret(&store, "MY_SECRET", "value", &short_key),
        Err("secret key must decode to 32 bytes, got 16".to_string())
    );
    assert!(handed.borrow().is_empty());
    set_secret(&store, "MY_SECRET", "value", &key_a()).unwrap();
    let handed = handed.borrow();
    assert_eq!(handed.len(), 1);
    assert_eq!(handed[0].0, "MY_SECRET");
    assert_ne!(handed[0].1, "value");
    assert_eq!(decrypt(&handed[0].1, &key_a()).unwrap(), "value");
}

#[test]
fn only_a_whole_reference_is_looked_up() {
    for text in [r#"{}"#, r#"{"keyring_service": "s"}"#, r#"{"keyring_service": 1, "keyring_account": "a"}"#, "[]"] {
        assert!(resolve(&json(text), no_loader).is_err(), "{text}");
        assert!(resolve_in_field("auth", "token", &json(text), no_loader).is_err(), "{text}");
    }
    let never = |_: &KeyringRef| -> KeyringLookup { panic!("nothing is to be looked up") };
    let empty = KeyringRef { keyring_service: String::new(), keyring_account: "a".into() };
    assert!(load_keyring(&empty, never).is_err());
    let slot: SecretLoaderSlot<Loader> = SecretLoaderSlot { loader: Some(fixed_loader) };
    let whole = KeyringRef { keyring_service: "s".into(), keyring_account: "a".into() };
    assert_eq!(load_keyring_with_test_override(&slot, &whole, never).unwrap(), "from-test-loader");
}

#[test]
fn a_missing_entry_needs_no_key() {
    assert_eq!(get_secret(&SecretStore::new(memory()), "A", "no key"), Ok(None));
}

#[test]
fn the_backend_is_handed_a_nonce_a_ciphertext_and_a_tag() {
    let store = SecretStore::new(memory());
    set_secret(&store, "A", "s\u{e9}cret", &key_a()).unwrap();
    let blob = (store.keyring.get)("A").unwrap().unwrap();
    let bytes = base64::engine::general_purpose::STANDARD.decode(&blob).unwrap();
    assert_eq!(bytes.len(), 12 + 7 + 16);
    assert_eq!(decrypt(&blob, &key_a()).unwrap(), "s\u{e9}cret");
}

#[test]
fn entries_of_the_credential_manager_are_answered_for() {
    assert_eq!(real_raw_get("A", EntryOutcome::Done("b".into())), Ok(Some("b".to_string())));
    assert_eq!(real_raw_get("A", EntryOutcome::NoEntry("x".into())), Ok(None));
    assert_eq!(
        real_raw_get("A", EntryOutcome::OpenFailed("x".into())),
        Err("keyring entry 'sol-secrets/A' open failed: x".to_string())
    );
    assert_eq!(
        real_raw_get("A", EntryOutcome::Failed("x".into())),
        Err("keyring lookup 'sol-secrets/A' failed: x".to_string())
    );
    assert_eq!(real_raw_set("A", EntryOutcome::Done(())), Ok(()));
    assert_eq!(
        real_raw_set("A", EntryOutcome::OpenFailed("x".into())),
        Err("keyring entry 'sol-secrets/A' open failed: x".to_string())
    );
    assert_eq!(
        real_raw_set("A", EntryOutcome::NoEntry("x".into())),
        Err("keyring write 'sol-secrets/A' failed: x".to_string())
    );
    assert_eq!(
        real_raw_set("A", EntryOutcome::Failed("x".into())),
        Err("keyring write 'sol-secrets/A' failed: x".to_string())
    );
    assert_eq!(real_raw_delete("A", EntryOutcome::Done(())), Ok(()));
    assert_eq!(real_raw_delete("A", EntryOutcome::NoEntry("x".into())), Ok(()));
    assert_eq!(
        real_raw_delete("A", EntryOutcome::OpenFailed("x".into())),
        Err("keyring entry 'sol-secrets/A' open failed: x".to_string())
    );
    assert_eq!(
        real_raw_delete("A", EntryOutcome::Failed("x".into())),
        Err("keyring delete 'sol-secrets/A' failed: x".to_string())
    );
}

#[test]
fn writes_to_one_name_leave_the_others() {
    let store = fake_backend();
    set_secret(&store, "A", "a", &key_a()).unwrap();
    set_secret(&store, "B", "b", &key_b()).unwrap();
    set_secret(&store, "A", "a2", &key_a()).unwrap();
    delete_secret(&store, "C").unwrap();
    assert_eq!(get_secret(&store, "A", &key_a()).unwrap(), Some("a2".to_string()));
    assert_eq!(get_secret(&store, "B", &key_b()).unwrap(), Some("b".to_string()));
}

#[test]
fn a_field_is_named_in_its_complaint() {
    let err = resolve_in_field("auth", "token", &json("true"), no_loader).unwrap_err();
    assert!(err.contains("auth") && err.contains("token"), "{err}");
    assert_eq!(resolve_in_field("auth", "token", &json(r#""t""#), no_loader).unwrap(), "t");
}

#[test]
fn a_keyring_entry_is_read_where_no_seam_is_set() {
    let k = KeyringRef { keyring_service: "sol".into(), keyring_account: "acct".into() };
    let found = load_keyring(&k, |r: &KeyringRef| {
        KeyringLookup::Found(format!("{}:{}", r.keyring_service, r.keyring_account))
    });
    assert_eq!(found.unwrap(), "sol:acct");
    assert!(load_keyring(&k, no_keyring).unwrap_err().contains("no keyring here"));
    assert!(load_keyring(&k, |_: &KeyringRef| KeyringLookup::ReadFailed("locked".into()))
        .unwrap_err()
        .contains("locked"));
}

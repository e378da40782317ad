//! Widgets on the loopback.

use solx_actions::caller::Caller;
use solx_actions::internal::widget::{done_reply, exec, get, open, widget_named};
use solx_actions::loopback::widget::{widget_token, WidgetDescriptor, WidgetLoopback};
use solx_actions::value::Value;

fn of(j: &serde_json::Value) -> Value {
    match j {
        serde_json::Value::Null => Value::Null,
        serde_json::Value::Bool(b) => Value::Bool(*b),
        serde_json::Value::Number(n) => match (n.as_u64(), n.as_i64()) {
            (Some(u), _) => Value::UInt(u),
            (None, Some(i)) => Value::NegInt(i),
            (None, None) => Value::Float(n.to_string()),
        },
        serde_json::Value::String(s) => Value::Str(s.clone()),
        serde_json::Value::Array(items) => Value::Array(items.iter().map(of).collect()),
        serde_json::Value::Object(members) => {
            Value::Object(members.iter().map(|(k, v)| (k.clone(), of(v))).collect())
        }
    }
}

/// The value that a JSON text stands for.
fn json(text: &str) -> Value {
    of(&serde_json::from_str(text).unwrap())
}

const SEC: u128 = 1_000_000_000;
const MILLI: u128 = 1_000_000;
const CONNECT_TTL: u128 = 60 * SEC;
const RECONNECT_GRACE: u128 = 15 * SEC;

fn loopback() -> WidgetLoopback {
    let mut w = WidgetLoopback::new();
    w.port = Some(4100);
    w
}

fn opened(w: &mut WidgetLoopback, fields: Value, ttl: u128, grace: u128) -> WidgetDescriptor {
    let r = w.open_as(
        Ok(b"console.log('hi');".to_vec()),
        "my-widget",
        fields,
        "/pkg/foo",
        "inv-1",
        "w-1",
        "token-1",
        ttl,
        grace,
        0,
    );
    match r {
        Ok(d) => d,
        Err(e) => panic!("{e}"),
    }
}

fn refusal<T>(r: Result<T, String>) -> String {
    match r {
        Err(e) => e,
        Ok(_) => panic!("expected a refusal"),
    }
}

#[test]
fn open_returns_a_descriptor_with_a_reachable_bundle() {
    let mut w = loopback();
    let d = opened(&mut w, json(r#"{"title": "hi"}"#), CONNECT_TTL, RECONNECT_GRACE);
    assert!(d.entry_url.starts_with("http://127.0.0.1:"));
    assert!(d.ws_url.starts_with("ws://127.0.0.1:"));
    assert_eq!(d.tag_name, "my-widget");
    assert_eq!(d.fields, json(r#"{"title": "hi"}"#));
    assert!(d.entry_url.ends_with("?token=token-1"), "{}", d.entry_url);
    assert_eq!(w.bundle(&d.token), Some(b"console.log('hi');".to_vec()));
}

#[test]
fn bundle_rejects_unknown_token() {
    let mut w = loopback();
    opened(&mut w, Value::Null, CONNECT_TTL, RECONNECT_GRACE);
    assert_eq!(w.bundle("not-a-real-token"), None);
    assert_eq!(w.find_by_token("not-a-real-token"), None);
}

#[test]
fn get_set_round_trip_through_the_registry() {
    let mut w = loopback();
    let d = opened(&mut w, json(r#"{"a": 1}"#), CONNECT_TTL, RECONNECT_GRACE);
    assert_eq!(w.get(&d.widget_id, "a"), Ok(json("1")));
    assert!(w.set(&d.widget_id, "b", json(r#""two""#)).is_ok());
    assert_eq!(w.get(&d.widget_id, "b"), Ok(json(r#""two""#)));
    assert_eq!(w.get(&d.widget_id, ""), Ok(json(r#"{"a": 1, "b": "two"}"#)));
}

#[test]
fn close_deregisters_the_token() {
    let mut w = loopback();
    let d = opened(&mut w, Value::Null, CONNECT_TTL, RECONNECT_GRACE);
    w.close(&d.widget_id);
    assert_eq!(w.bundle(&d.token), None);
    assert!(w.get(&d.widget_id, "").is_err());
}

#[test]
fn websocket_connect_and_widget_side_set_updates_fields() {
    let mut w = loopback();
    let d = opened(&mut w, json("{}"), CONNECT_TTL, RECONNECT_GRACE);
    assert!(w.connect(&d.widget_id, 1));
    let reply = w.handle_widget_message(&d.widget_id, Some(json(r#"{"op": "set", "field": "title", "value": "hi"}"#)));
    assert_eq!(reply, None);
    assert_eq!(w.get(&d.widget_id, "title"), Ok(json(r#""hi""#)));
    let reply = w.handle_widget_message(&d.widget_id, Some(json(r#"{"op": "get", "field": "title"}"#)));
    assert_eq!(
        reply.map(|t| json(&t)),
        Some(json(r#"{"op": "get", "field": "title", "value": "hi"}"#))
    );
}

#[test]
fn host_side_set_is_pushed_to_a_connected_widget() {
    let mut w = loopback();
    let d = opened(&mut w, json("{}"), CONNECT_TTL, RECONNECT_GRACE);
    w.connect(&d.widget_id, 5);
    let push = match w.set(&d.widget_id, "title", json(r#""pushed""#)) {
        Ok(Some(p)) => p,
        _ => panic!("expected a push"),
    };
    assert_eq!(push.connection, 5);
    assert_eq!(json(&push.text), json(r#"{"op": "set", "field": "title", "value": "pushed"}"#));
}

#[test]
fn never_connected_widget_is_reaped_after_connect_ttl() {
    let mut w = loopback();
    let d = opened(&mut w, Value::Null, MILLI, RECONNECT_GRACE);
    w.reap_once(20 * MILLI);
    let err = refusal(w.get(&d.widget_id, ""));
    assert!(err.contains("no widget registered"), "{err}");
}

#[test]
fn connected_widget_is_never_reaped_by_connect_ttl() {
    let mut w = loopback();
    let d = opened(&mut w, Value::Null, 300 * MILLI, RECONNECT_GRACE);
    w.connect(&d.widget_id, 1);
    w.reap_once(400 * MILLI);
    assert!(w.get(&d.widget_id, "").is_ok());
}

#[test]
fn disconnected_widget_is_reaped_after_reconnect_grace_elapses() {
    let mut w = loopback();
    let d = opened(&mut w, Value::Null, CONNECT_TTL, MILLI);
    w.connect(&d.widget_id, 1);
    w.disconnect(&d.widget_id, 1, 100 * MILLI);
    w.reap_once(300 * MILLI);
    let err = refusal(w.get(&d.widget_id, ""));
    assert!(err.contains("no widget registered"), "{err}");
}

#[test]
fn disconnected_widget_survives_within_the_reconnect_grace_period() {
    let mut w = loopback();
    let d = opened(&mut w, Value::Null, CONNECT_TTL, 60 * SEC);
    w.connect(&d.widget_id, 1);
    w.disconnect(&d.widget_id, 1, 100 * MILLI);
    w.reap_once(300 * MILLI);
    assert!(w.get(&d.widget_id, "").is_ok());
}

#[test]
fn a_connection_that_was_replaced_does_not_disconnect() {
    let mut w = loopback();
    let d = opened(&mut w, Value::Null, CONNECT_TTL, MILLI);
    w.connect(&d.widget_id, 1);
    w.connect(&d.widget_id, 2);
    w.disconnect(&d.widget_id, 1, 10 * MILLI);
    w.reap_once(SEC);
    assert!(w.get(&d.widget_id, "").is_ok());
}

#[test]
fn a_bundle_that_cannot_be_read_opens_nothing() {
    let mut w = loopback();
    let r = w.open_as(Err("no such file".into()), "t", Value::Null, "/a", "i", "w", "k", 1, 1, 0);
    assert!(refusal(r).contains("no such file"));
    assert!(w.get("w", "").is_err());
}

#[test]
fn visibility_and_events_are_pushed() {
    let mut w = loopback();
    let d = opened(&mut w, json("{}"), CONNECT_TTL, RECONNECT_GRACE);
    assert!(matches!(w.push_visibility(&d.widget_id, false), Ok(None)));
    w.connect(&d.widget_id, 3);
    assert!(matches!(w.push_visibility(&d.widget_id, true), Ok(Some(_))));
    assert!(matches!(w.exec(&d.widget_id, "ping", json("1")), Ok(Some(_))));
    assert!(w.exec("other", "ping", json("1")).is_err());
}

#[test]
fn widgets_make_up_their_identifiers_and_tokens() {
    let mut w = loopback();
    let d = match w.open(Ok(vec![1]), "t", Value::Null, "/a", "i", 1, 1, 0) {
        Ok(d) => d,
        Err(e) => panic!("{e}"),
    };
    assert_eq!((d.widget_id.len(), d.token.len()), (36, 32));
    assert_eq!(w.find_by_token(&d.token), Some(d.widget_id));
    let mut closed = WidgetLoopback::new();
    assert!(closed.open(Ok(vec![1]), "t", Value::Null, "/a", "i", 1, 1, 0).is_err());
}

#[test]
fn tokens_are_not_guessable_from_one_another() {
    assert_ne!(widget_token(), widget_token());
}

#[test]
fn widget_requests_name_their_widget() {
    let caller = Caller::with_invocation("/pkg/foo", None, "inv-1");
    let params = json(r#"{"bin_name": "widget.js", "tag_name": "my-widget", "fields": {"a": 1}}"#);
    let r = match open(&params, Some(&caller)) {
        Ok(r) => r,
        Err(e) => panic!("{e}"),
    };
    assert_eq!((r.bin_name.as_str(), r.tag_name.as_str()), ("widget.js", "my-widget"));
    assert_eq!((r.action_ref.as_str(), r.invocation_id.as_str()), ("/pkg/foo", "inv-1"));
    let r = match open(&params, None) {
        Ok(r) => r,
        Err(e) => panic!("{e}"),
    };
    assert_eq!((r.action_ref.as_str(), r.invocation_id.len()), ("", 36));
    assert!(open(&json("{}"), None).is_err());
    assert_eq!(widget_named(&json(r#"{"widget_id": "w"}"#)), Ok("w".to_string()));
    assert!(widget_named(&json("{}")).is_err());
    assert!(get(&json(r#"{"widget_id": "w", "field": "a"}"#)).is_ok());
    assert!(solx_actions::internal::widget::set(&json(r#"{"widget_id": "w", "field": "a", "value": 1}"#)).is_ok());
    assert!(exec(&json(r#"{"widget_id": "w", "event": "e"}"#)).is_ok());
    assert_eq!(done_reply("closed"), json(r#"{"closed": true}"#));
}

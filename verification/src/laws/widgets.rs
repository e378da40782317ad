//! Widgets: what both sides see of them, and when they go.

use vstd::prelude::*;
use vstd::string::*;

use crate::internal::doc_fields::lemma_field_round_trip;
use crate::json::json_text;
use crate::laws::lemma_pair_is_member;
use crate::loopback::widget::{abandoned, event_text, field_text, is_connection, is_disconnection};
use crate::loopback::widget::{is_message_handled, is_reaping, is_widget_close, is_widget_event};
use crate::loopback::widget::{is_widget_get, is_widget_open, is_widget_showing, is_widget_update};
use crate::loopback::widget::{op_text, Push, WidgetDescriptor, WidgetLoopback, WidgetState};
use crate::text::decimal;
use crate::value::{Json, Value};

verus! {

/// Whether every widget but one is the same in two states.
pub open spec fn others_stay(before: WidgetLoopback, after: WidgetLoopback, id: Seq<char>) -> bool {
    &&& after.port == before.port
    &&& forall|other: Seq<char>|
        other != id ==> (#[trigger] after@.contains_key(other) <==> before@.contains_key(other))
    &&& forall|other: Seq<char>|
        other != id && before@.contains_key(other) ==> #[trigger] after@[other] == before@[other]
}

/// A widget that was opened is there, hidden and not connected, with its fields, its
/// bundle and its action; whoever has its token finds it at the listener's port. It
/// cannot be opened without a listener or a bundle, and no other widget is touched.
pub proof fn lemma_an_opened_widget(
    r: Result<WidgetDescriptor, String>,
    before: WidgetLoopback,
    after: WidgetLoopback,
    bundle: Result<Vec<u8>, String>,
    tag_name: Seq<char>,
    fields: Json,
    action_ref: Seq<char>,
    invocation_id: Seq<char>,
    id: Seq<char>,
    token: Seq<char>,
    connect_ttl: u128,
    reconnect_grace: u128,
    now: u128,
)
    requires
        is_widget_open(
            r,
            before,
            after,
            bundle,
            tag_name,
            fields,
            action_ref,
            invocation_id,
            id,
            token,
            connect_ttl,
            reconnect_grace,
            now,
        ),
    ensures
        r is Ok <==> before.port is Some && bundle is Ok,
        r is Err ==> after@ == before@,
        others_stay(before, after, id),
        r matches Ok(d) ==> {
            let s = after@[id];
            let port = decimal(before.port->0 as nat);
            &&& after@.contains_key(id)
            &&& d.widget_id@ == id
            &&& d.tag_name@ == tag_name
            &&& d.token@ == token
            &&& d.fields@ == fields
            &&& d.entry_url@ == "http://127.0.0.1:"@ + port + "/bundle?token="@ + token
            &&& d.ws_url@ == "ws://127.0.0.1:"@ + port + "/ws?token="@ + token
            &&& s.token@ == token
            &&& s.fields@ == fields
            &&& s.bundle@ == bundle->Ok_0@
            &&& s.action_ref@ == action_ref
            &&& s.invocation_id@ == invocation_id
            &&& !s.visible
            &&& s.connection is None
            &&& s.disconnected_at is None
            &&& s.opened_at == now
            &&& s.connect_ttl == connect_ttl
            &&& s.reconnect_grace == reconnect_grace
        },
{
}

/// A widget that was closed is gone, and its frontend is told if there is one.
pub proof fn lemma_a_closed_widget(
    r: Option<Push>,
    before: WidgetLoopback,
    after: WidgetLoopback,
    id: Seq<char>,
)
    requires
        is_widget_close(r, before, after, id),
    ensures
        !after@.contains_key(id),
        others_stay(before, after, id),
        r is Some <==> before@.contains_key(id) && before@[id].connection is Some,
        r matches Some(p) ==> before@[id].connection == Some(p.connection) && p.text@ == op_text(
            "close"@,
        ),
{
}

/// A widget is shown or hidden: nothing else of it changes, and its frontend is told
/// which.
pub proof fn lemma_a_shown_widget(
    r: Result<Option<Push>, String>,
    before: WidgetLoopback,
    after: WidgetLoopback,
    id: Seq<char>,
    visible: bool,
)
    requires
        is_widget_showing(r, before, after, id, visible),
    ensures
        r is Ok <==> before.port is Some && before@.contains_key(id),
        r is Err ==> after@ == before@,
        others_stay(before, after, id),
        r is Ok ==> after@.contains_key(id) && after@[id] == (WidgetState {
            visible: visible,
            ..before@[id]
        }),
        r matches Ok(Some(p)) ==> {
            &&& before@[id].connection == Some(p.connection)
            &&& (visible ==> p.text@ == op_text("show"@))
            &&& (!visible ==> p.text@ == op_text("hide"@))
        },
        r matches Ok(None) ==> before@[id].connection is None,
{
}

/// What is written to a field of a widget is read from it, and every other field is
/// as it was. The frontend is told of the write, and of a widget that is not there
/// neither side gets an answer but an error.
pub proof fn lemma_a_field_is_read_back(
    w: Result<Option<Push>, String>,
    before: WidgetLoopback,
    after: WidgetLoopback,
    id: Seq<char>,
    field: Seq<char>,
    value: Json,
    r: Result<Value, String>,
    asked: Seq<char>,
)
    requires
        is_widget_update(w, before, after, id, field, value),
        is_widget_get(r, after, id, asked),
        asked.len() > 0,
    ensures
        w is Ok <==> before.port is Some && before@.contains_key(id),
        w is Err ==> after@ == before@,
        others_stay(before, after, id),
        r is Ok <==> w is Ok,
        r matches Ok(v) ==> {
            &&& (asked == field ==> v@ == value)
            &&& (asked != field ==> before@[id].fields@ is Object ==> v@ == (
            match before@[id].fields@.get(asked) {
                Some(x) => x,
                None => Json::Null,
            }))
        },
        w matches Ok(Some(p)) ==> before@[id].connection == Some(p.connection) && p.text@
            == field_text("set"@, field, value),
        w matches Ok(None) ==> before@[id].connection is None,
        w is Ok ==> after@[id].visible == before@[id].visible && after@[id].token
            == before@[id].token && after@[id].connection == before@[id].connection,
{
    if before@.contains_key(id) {
        lemma_field_round_trip(before@[id].fields@, field, value, asked);
    }
}

/// All fields of a widget are read together where none is named.
pub proof fn lemma_all_fields(r: Result<Value, String>, w: WidgetLoopback, id: Seq<char>)
    requires
        is_widget_get(r, w, id, Seq::empty()),
    ensures
        r is Ok <==> w.port is Some && w@.contains_key(id),
        r matches Ok(v) ==> v@ == w@[id].fields@,
{
}

/// An event goes to the frontend of its widget, with its payload.
pub proof fn lemma_a_widget_event(
    r: Result<Option<Push>, String>,
    w: WidgetLoopback,
    id: Seq<char>,
    event: Seq<char>,
    payload: Json,
)
    requires
        is_widget_event(r, w, id, event, payload),
    ensures
        r is Ok <==> w.port is Some && w@.contains_key(id),
        r matches Ok(Some(p)) ==> w@[id].connection == Some(p.connection) && p.text@ == event_text(
            event,
            payload,
        ),
        r matches Ok(None) ==> w@[id].connection is None,
{
}

/// What a frontend is told, as JSON: the operation, and the field with its value or
/// the event with its payload.
pub proof fn lemma_what_frontends_are_told(op: Seq<char>, name: Seq<char>, v: Json)
    ensures
        exists|told: Json|
            op_text(op) == #[trigger] json_text(told) && told.get_str("op"@) == Some(op),
        exists|told: Json|
            field_text(op, name, v) == #[trigger] json_text(told) && told.get_str("op"@) == Some(op)
                && told.get_str("field"@) == Some(name) && told.get("value"@) == Some(v),
        exists|told: Json|
            event_text(name, v) == #[trigger] json_text(told) && told.get_str("op"@) == Some(
                "exec"@,
            ) && told.get_str("event"@) == Some(name) && told.get("payload"@) == Some(v),
{
    reveal_strlit("op");
    reveal_strlit("field");
    reveal_strlit("value");
    reveal_strlit("event");
    reveal_strlit("payload");
    assert("op"@.len() == 2);
    assert("field"@.len() == 5 && "field"@[0] == 'f');
    assert("value"@.len() == 5 && "value"@[0] == 'v');
    assert("event"@.len() == 5 && "event"@[0] == 'e');
    assert("payload"@.len() == 7);
    let a = seq![("op"@, Json::Str(op))];
    let b = seq![("op"@, Json::Str(op)), ("field"@, Json::Str(name)), ("value"@, v)];
    let c = seq![("op"@, Json::Str("exec"@)), ("event"@, Json::Str(name)), ("payload"@, v)];
    lemma_pair_is_member(a, 0);
    lemma_pair_is_member(b, 0);
    lemma_pair_is_member(b, 1);
    lemma_pair_is_member(b, 2);
    lemma_pair_is_member(c, 0);
    lemma_pair_is_member(c, 1);
    lemma_pair_is_member(c, 2);
    let told = crate::json::object_of(a);
    assert(op_text(op) == json_text(told));
    let told = crate::json::object_of(b);
    assert(field_text(op, name, v) == json_text(told));
    let told = crate::json::object_of(c);
    assert(event_text(name, v) == json_text(told));
}

// ── Connections ──────────────────────────────────────────────────────────────

/// A frontend connects to a widget that is there, and is then its connection.
pub proof fn lemma_a_connection(
    r: bool,
    before: WidgetLoopback,
    after: WidgetLoopback,
    id: Seq<char>,
    connection: u64,
)
    requires
        is_connection(r, before, after, id, connection),
    ensures
        r <==> before@.contains_key(id),
        !r ==> after@ == before@,
        others_stay(before, after, id),
        r ==> after@[id].connection == Some(connection) && after@[id].disconnected_at is None
            && after@[id].fields == before@[id].fields && after@[id].token == before@[id].token,
{
}

/// A frontend that goes away leaves its widget, from now on, without one; one that was
/// replaced by a newer connection leaves nothing.
pub proof fn lemma_a_disconnection(
    before: WidgetLoopback,
    after: WidgetLoopback,
    id: Seq<char>,
    connection: u64,
    now: u128,
)
    requires
        is_disconnection(before, after, id, connection, now),
        before@.contains_key(id),
    ensures
        others_stay(before, after, id),
        after@.contains_key(id),
        before@[id].connection == Some(connection) ==> after@[id].connection is None
            && after@[id].disconnected_at == Some(now) && after@[id].fields == before@[id].fields
            && after@[id].token == before@[id].token,
        before@[id].connection != Some(connection) ==> after@ == before@,
{
}

/// A widget is dropped if and only if it is without a frontend and either none ever
/// came within the time that it has for that, or the last one has stayed away for
/// longer than it may.
pub proof fn lemma_which_widgets_are_dropped(
    before: WidgetLoopback,
    after: WidgetLoopback,
    now: u128,
    id: Seq<char>,
)
    requires
        is_reaping(before, after, now),
        before@.contains_key(id),
    ensures
        ({
            let s = before@[id];
            let waited = match s.disconnected_at {
                Some(at) => now - at > s.reconnect_grace,
                None => now - s.opened_at > s.connect_ttl,
            };
            &&& (after@.contains_key(id) <==> !(s.connection is None && waited))
            &&& (after@.contains_key(id) ==> after@[id] == s)
        }),
        after.port == before.port,
{
    assert(after@.contains_key(id) <==> !abandoned(before@[id], now));
}

// ── Messages ─────────────────────────────────────────────────────────────────

/// What a frontend's message does: a read is answered with the field and changes
/// nothing, a write sets the field, showing and hiding set just that, and anything
/// else does nothing. Only a read is answered.
pub proof fn lemma_what_messages_do(
    r: Option<String>,
    before: WidgetLoopback,
    after: WidgetLoopback,
    id: Seq<char>,
    message: Value,
)
    requires
        is_message_handled(r, before, after, id, Some(message)),
        before@.contains_key(id),
    ensures
        ({
            let op = message@.get_str("op"@);
            let field = message@.get_str("field"@);
            &&& others_stay(before, after, id)
            &&& after@.contains_key(id)
            &&& (r is Some <==> op == Some("get"@))
            &&& (op == Some("get"@) ==> after@ == before@)
            &&& (op == Some("get"@) && field is Some && field->0.len() > 0 ==> r->0@ == field_text(
                "get"@,
                field->0,
                match before@[id].fields@.get(field->0) {
                    Some(x) => x,
                    None => Json::Null,
                },
            ))
            &&& (op == Some("set"@) && field is Some ==> after@[id].fields@.field(field->0) == (
            match message@.get("value"@) {
                Some(x) => x,
                None => Json::Null,
            }))
            &&& (op == Some("set"@) && field is None ==> after@ == before@)
            &&& (op == Some("show"@) ==> after@[id] == (WidgetState { visible: true, ..before@[id] }))
            &&& (op == Some("hide"@) ==> after@[id] == (WidgetState {
                visible: false,
                ..before@[id]
            }))
            &&& (op != Some("set"@) && op != Some("show"@) && op != Some("hide"@) ==> after@
                == before@)
        }),
{
    reveal_strlit("get");
    reveal_strlit("set");
    reveal_strlit("show");
    reveal_strlit("hide");
    assert("get"@.len() == 3 && "get"@[0] == 'g');
    assert("set"@.len() == 3 && "set"@[0] == 's');
    assert("show"@.len() == 4 && "show"@[0] == 's');
    assert("hide"@.len() == 4 && "hide"@[0] == 'h');
    if let Some(field) = message@.get_str("field"@) {
        lemma_field_round_trip(before@[id].fields@, field, message@.field("value"@), field);
    }
}

} // verus!

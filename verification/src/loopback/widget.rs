//! Widgets: a frontend that an action opens, whose fields both sides read and
//! write. A widget lives until it is closed, or until its frontend has stayed
//! away for too long.

use vstd::prelude::*;
use vstd::string::*;

use crate::chance::{generate_token, is_token, is_uuid, new_uuid};
use crate::internal::doc_fields::{set_field, with_top_field};
use crate::json::{json_text, object_of, pairs_view, to_text};
use crate::table::Table;
use crate::text::{decimal, cat3, cat4, print_u64, same, texts};
use crate::value::{Json, Value};

verus! {

broadcast use crate::value::group_value_views;

/// A widget that is open.
#[derive(Debug)]
pub struct WidgetState {
    /// What both sides read and write.
    pub fields: Value,
    pub visible: bool,
    /// The script of the frontend.
    pub bundle: Vec<u8>,
    pub tag_name: String,
    /// What the frontend identifies itself by, for as long as the widget lives.
    pub token: String,
    /// The connection of the frontend, while it is connected.
    pub connection: Option<u64>,
    pub action_ref: String,
    pub invocation_id: String,
    /// When the widget was opened, in nanoseconds.
    pub opened_at: u128,
    /// When the frontend went away; none while it is connected or never was.
    pub disconnected_at: Option<u128>,
    /// How long the frontend may take to connect, in nanoseconds.
    pub connect_ttl: u128,
    /// How long it may stay away, in nanoseconds.
    pub reconnect_grace: u128,
}

/// What the caller of `open` hands to the frontend.
#[derive(Debug)]
pub struct WidgetDescriptor {
    pub widget_id: String,
    pub tag_name: String,
    pub entry_url: String,
    pub ws_url: String,
    pub token: String,
    pub fields: Value,
}

/// A message to a connection.
#[derive(Debug)]
pub struct Push {
    pub connection: u64,
    pub text: String,
}

/// The listener for widgets and the widgets that are open.
pub struct WidgetLoopback {
    /// The port of the listener, once it is started.
    pub port: Option<u16>,
    pub widgets: Table<WidgetState>,
}

pub open spec fn no_widget(id: Seq<char>) -> Seq<char> {
    "no widget registered for widget_id '"@ + id + "'"@
}

fn no_widget_text(id: &str) -> (r: String)
    ensures
        r@ == no_widget(id@),
{
    cat3("no widget registered for widget_id '", id, "'")
}

/// The message of an operation without arguments.
pub open spec fn op_text(op: Seq<char>) -> Seq<char> {
    json_text(object_of(seq![("op"@, Json::Str(op))]))
}

fn op_message(op: &str) -> (r: String)
    ensures
        r@ == op_text(op@),
{
    let pairs: Vec<(&'static str, Value)> = vec![("op", Value::text(op))];
    assert(pairs_view(pairs@) =~= seq![("op"@, Json::Str(op@))]);
    let v = Value::object(pairs);
    to_text(&v)
}

/// The message of an operation on a field.
pub open spec fn field_text(op: Seq<char>, field: Seq<char>, value: Json) -> Seq<char> {
    json_text(
        object_of(seq![("op"@, Json::Str(op)), ("field"@, Json::Str(field)), ("value"@, value)]),
    )
}

fn field_message(op: &str, field: &str, value: &Value) -> (r: String)
    ensures
        r@ == field_text(op@, field@, value@),
{
    let pairs: Vec<(&'static str, Value)> = vec![
        ("op", Value::text(op)),
        ("field", Value::text(field)),
        ("value", value.clone()),
    ];
    assert(pairs_view(pairs@) =~= seq![
        ("op"@, Json::Str(op@)),
        ("field"@, Json::Str(field@)),
        ("value"@, value@),
    ]);
    let v = Value::object(pairs);
    to_text(&v)
}

pub open spec fn event_text(event: Seq<char>, payload: Json) -> Seq<char> {
    json_text(
        object_of(
            seq![("op"@, Json::Str("exec"@)), ("event"@, Json::Str(event)), ("payload"@, payload)],
        ),
    )
}

/// Whether a push is a text for the connection of a widget; there is none where
/// the widget is not connected.
pub open spec fn is_push(r: Option<Push>, s: WidgetState, text: Seq<char>) -> bool {
    match s.connection {
        Some(c) => r is Some && r->0.connection == c && r->0.text@ == text,
        None => r is None,
    }
}

fn push_to(connection: Option<u64>, text: String) -> (r: Option<Push>)
    ensures
        match connection {
            Some(c) => r is Some && r->0.connection == c && r->0.text == text,
            None => r is None,
        },
{
    match connection {
        Some(c) => Some(Push { connection: c, text }),
        None => None,
    }
}

/// A field of a widget, or all of them under the empty name.
pub open spec fn field_value(fields: Json, field: Seq<char>) -> Json {
    if field.len() == 0 {
        fields
    } else {
        fields.field(field)
    }
}

fn read_field(fields: &Value, field: &str) -> (r: Value)
    ensures
        r@ == field_value(fields@, field@),
{
    if field.is_empty() {
        fields.clone()
    } else {
        fields.field(field)
    }
}

/// How long ago a time was; nothing for a time to come.
pub open spec fn since(now: u128, at: u128) -> int {
    if now > at {
        now - at
    } else {
        0
    }
}

/// Whether a widget is abandoned: not connected, and its frontend either never
/// came within its time or has stayed away beyond its grace.
pub open spec fn abandoned(s: WidgetState, now: u128) -> bool {
    s.connection is None && (match s.disconnected_at {
        None => since(now, s.opened_at) > s.connect_ttl,
        Some(at) => since(now, at) > s.reconnect_grace,
    })
}

fn is_abandoned(s: &WidgetState, now: u128) -> (r: bool)
    ensures
        r == abandoned(*s, now),
{
    match s.connection {
        Some(_) => false,
        None => match s.disconnected_at {
            None => now > s.opened_at && now - s.opened_at > s.connect_ttl,
            Some(at) => now > at && now - at > s.reconnect_grace,
        },
    }
}

/// The widgets with the fields of one of them changed to something of the view
/// `fields`, and nothing else.
pub open spec fn fields_set(
    before: Map<Seq<char>, WidgetState>,
    after: Map<Seq<char>, WidgetState>,
    id: Seq<char>,
    fields: Json,
) -> bool {
    &&& after.contains_key(id)
    &&& after == before.insert(id, WidgetState { fields: after[id].fields, ..before[id] })
    &&& after[id].fields@ == fields
}

/// Whether a widget is opened and described as it should.
pub open spec fn is_widget_open(
    r: Result<WidgetDescriptor, String>,
    before: WidgetLoopback,
    after: WidgetLoopback,
    bundle: Result<Vec<u8>, String>,
    tag_name: Seq<char>,
    fields: Json,
    action_ref: Seq<char>,
    invocation_id: Seq<char>,
    widget_id: Seq<char>,
    token: Seq<char>,
    connect_ttl: u128,
    reconnect_grace: u128,
    now: u128,
) -> bool {
    &&& after.port == before.port
    &&& match (before.port, bundle) {
        (None, _) => r is Err && r->Err_0@ == "widget loopback failed to start"@ && after@
            == before@,
        (Some(_), Err(e)) => r is Err && r->Err_0@ == e@ && after@ == before@,
        (Some(port), Ok(b)) => {
            let s = after@[widget_id];
            &&& r is Ok
            &&& r->Ok_0.widget_id@ == widget_id
            &&& r->Ok_0.tag_name@ == tag_name
            &&& r->Ok_0.entry_url@ == "http://127.0.0.1:"@ + decimal(port as nat)
                + "/bundle?token="@ + token
            &&& r->Ok_0.ws_url@ == "ws://127.0.0.1:"@ + decimal(port as nat) + "/ws?token="@
                + token
            &&& r->Ok_0.token@ == token
            &&& r->Ok_0.fields@ == fields
            &&& after@.contains_key(widget_id)
            &&& after@ == before@.insert(widget_id, s)
            &&& s.fields@ == fields
            &&& !s.visible
            &&& s.bundle@ == b@
            &&& s.tag_name@ == tag_name
            &&& s.token@ == token
            &&& s.connection is None
            &&& s.action_ref@ == action_ref
            &&& s.invocation_id@ == invocation_id
            &&& s.opened_at == now
            &&& s.disconnected_at is None
            &&& s.connect_ttl == connect_ttl
            &&& s.reconnect_grace == reconnect_grace
        },
    }
}

/// Whether this closes a widget and tells its frontend.
pub open spec fn is_widget_close(
    r: Option<Push>,
    before: WidgetLoopback,
    after: WidgetLoopback,
    id: Seq<char>,
) -> bool {
    &&& after.port == before.port
    &&& after@ == before@.remove(id)
    &&& if before@.contains_key(id) {
        is_push(r, before@[id], op_text("close"@))
    } else {
        r is None
    }
}

/// Whether this shows or hides a widget and tells its frontend.
pub open spec fn is_widget_showing(
    r: Result<Option<Push>, String>,
    before: WidgetLoopback,
    after: WidgetLoopback,
    id: Seq<char>,
    visible: bool,
) -> bool {
    &&& after.port == before.port
    &&& if before.port is None {
        r is Err && r->Err_0@ == "widget loopback not started"@ && after@ == before@
    } else if !before@.contains_key(id) {
        r is Err && r->Err_0@ == no_widget(id) && after@ == before@
    } else {
        let s = before@[id];
        &&& r is Ok
        &&& is_push(
            r->Ok_0,
            s,
            op_text(
                if visible {
                    "show"@
                } else {
                    "hide"@
                },
            ),
        )
        &&& after@ == before@.insert(id, WidgetState { visible, ..s })
    }
}

/// Whether this reads a field of a widget, or all of them.
pub open spec fn is_widget_get(
    r: Result<Value, String>,
    w: WidgetLoopback,
    id: Seq<char>,
    field: Seq<char>,
) -> bool {
    if w.port is None {
        r is Err && r->Err_0@ == "widget loopback not started"@
    } else if !w@.contains_key(id) {
        r is Err && r->Err_0@ == no_widget(id)
    } else {
        r is Ok && r->Ok_0@ == field_value(w@[id].fields@, field)
    }
}

/// Whether this writes a field of a widget and tells its frontend.
pub open spec fn is_widget_update(
    r: Result<Option<Push>, String>,
    before: WidgetLoopback,
    after: WidgetLoopback,
    id: Seq<char>,
    field: Seq<char>,
    value: Json,
) -> bool {
    &&& after.port == before.port
    &&& if before.port is None {
        r is Err && r->Err_0@ == "widget loopback not started"@ && after@ == before@
    } else if !before@.contains_key(id) {
        r is Err && r->Err_0@ == no_widget(id) && after@ == before@
    } else {
        let s = before@[id];
        &&& r is Ok
        &&& is_push(r->Ok_0, s, field_text("set"@, field, value))
        &&& fields_set(
            before@,
            after@,
            id,
            with_top_field(s.fields@, field, value),
        )
    }
}

/// Whether this sends an event to the frontend of a widget.
pub open spec fn is_widget_event(
    r: Result<Option<Push>, String>,
    w: WidgetLoopback,
    id: Seq<char>,
    event: Seq<char>,
    payload: Json,
) -> bool {
    if w.port is None {
        r is Err && r->Err_0@ == "widget loopback not started"@
    } else if !w@.contains_key(id) {
        r is Err && r->Err_0@ == no_widget(id)
    } else {
        r is Ok && is_push(r->Ok_0, w@[id], event_text(event, payload))
    }
}

/// Whether this drops the widgets that nobody came for or came back to.
pub open spec fn is_reaping(before: WidgetLoopback, after: WidgetLoopback, now: u128) -> bool {
    &&& after.port == before.port
    &&& after@ == before@.restrict(
        Set::new(|id: Seq<char>| !abandoned(before@[id], now)),
    )
}

/// Whether this connects a frontend to its widget.
pub open spec fn is_connection(
    r: bool,
    before: WidgetLoopback,
    after: WidgetLoopback,
    id: Seq<char>,
    connection: u64,
) -> bool {
    &&& after.port == before.port
    &&& r == before@.contains_key(id)
    &&& after@ == (if r {
        before@.insert(
            id,
            WidgetState {
                connection: Some(connection),
                disconnected_at: None,
                ..before@[id]
            },
        )
    } else {
        before@
    })
}

/// Whether this takes note that a frontend went away.
pub open spec fn is_disconnection(
    before: WidgetLoopback,
    after: WidgetLoopback,
    id: Seq<char>,
    connection: u64,
    now: u128,
) -> bool {
    &&& after.port == before.port
    &&& after@ == (if before@.contains_key(id)
        && before@[id].connection == Some(connection) {
        before@.insert(
            id,
            WidgetState {
                connection: None,
                disconnected_at: Some(now),
                ..before@[id]
            },
        )
    } else {
        before@
    })
}

/// Whether this is what a message of a frontend does, and what it is answered.
pub open spec fn is_message_handled(
    r: Option<String>,
    before: WidgetLoopback,
    after: WidgetLoopback,
    id: Seq<char>,
    message: Option<Value>,
) -> bool {
    &&& after.port == before.port
    &&& ({
        let op = match message {
            Some(m) => m@.get_str("op"@),
            None => None,
        };
        let there = before@.contains_key(id);
        let s = before@[id];
        if op == Some("get"@) {
            let field = message->0@.str_or("field"@, ""@);
            &&& after@ == before@
            &&& r is Some
            &&& r->0@ == field_text(
                "get"@,
                field,
                if there {
                    field_value(s.fields@, field)
                } else {
                    Json::Null
                },
            )
        } else if op == Some("set"@) && there && message->0@.get_str("field"@) is Some {
            &&& r is None
            &&& fields_set(
                before@,
                after@,
                id,
                with_top_field(
                    s.fields@,
                    message->0@.get_str("field"@)->0,
                    message->0@.field("value"@),
                ),
            )
        } else if (op == Some("show"@) || op == Some("hide"@)) && there {
            &&& r is None
            &&& after@ == before@.insert(
                id,
                WidgetState { visible: op == Some("show"@), ..s },
            )
        } else {
            r is None && after@ == before@
        }
    })
}

impl WidgetLoopback {
    pub open spec fn view(&self) -> Map<Seq<char>, WidgetState> {
        self.widgets@
    }

    pub fn new() -> (r: WidgetLoopback)
        ensures
            r.port is None,
            r@ == Map::<Seq<char>, WidgetState>::empty(),
    {
        WidgetLoopback { port: None, widgets: Table::new() }
    }

    /// Open a widget under a fresh identifier and token. `bundle` is the script
    /// of its frontend, or why it cannot be read.
    pub fn open(
        &mut self,
        bundle: Result<Vec<u8>, String>,
        tag_name: &str,
        fields: Value,
        action_ref: &str,
        invocation_id: &str,
        connect_ttl: u128,
        reconnect_grace: u128,
        now: u128,
    ) -> (r: Result<WidgetDescriptor, String>)
        ensures
            exists|widget_id: Seq<char>, token: Seq<char>|
                is_uuid(widget_id) && is_token(token) && #[trigger] is_widget_open(
                    r,
                    *old(self),
                    *final(self),
                    bundle,
                    tag_name@,
                    fields@,
                    action_ref@,
                    invocation_id@,
                    widget_id,
                    token,
                    connect_ttl,
                    reconnect_grace,
                    now,
                ),
    {
        let widget_id = new_uuid();
        let token = widget_token();
        self.open_as(
            bundle,
            tag_name,
            fields,
            action_ref,
            invocation_id,
            widget_id.as_str(),
            token.as_str(),
            connect_ttl,
            reconnect_grace,
            now,
        )
    }

    /// Open a widget under the given identifier and token.
    pub fn open_as(
        &mut self,
        bundle: Result<Vec<u8>, String>,
        tag_name: &str,
        fields: Value,
        action_ref: &str,
        invocation_id: &str,
        widget_id: &str,
        token: &str,
        connect_ttl: u128,
        reconnect_grace: u128,
        now: u128,
    ) -> (r: Result<WidgetDescriptor, String>)
        ensures
            is_widget_open(
                r,
                *old(self),
                *final(self),
                bundle,
                tag_name@,
                fields@,
                action_ref@,
                invocation_id@,
                widget_id@,
                token@,
                connect_ttl,
                reconnect_grace,
                now,
            ),
    {
        let port: u16 = match self.port {
            Some(p) => p,
            None => {
                return Err("widget loopback failed to start".to_owned());
            },
        };
        let bundle = match bundle {
            Ok(b) => b,
            Err(e) => {
                return Err(e);
            },
        };
        let state = WidgetState {
            fields: fields.clone(),
            visible: false,
            bundle,
            tag_name: tag_name.to_owned(),
            token: token.to_owned(),
            connection: None,
            action_ref: action_ref.to_owned(),
            invocation_id: invocation_id.to_owned(),
            opened_at: now,
            disconnected_at: None,
            connect_ttl,
            reconnect_grace,
        };
        self.widgets.insert(widget_id, state);
        let p = print_u64(port as u64);
        Ok(
            WidgetDescriptor {
                widget_id: widget_id.to_owned(),
                tag_name: tag_name.to_owned(),
                entry_url: cat4("http://127.0.0.1:", p.as_str(), "/bundle?token=", token),
                ws_url: cat4("ws://127.0.0.1:", p.as_str(), "/ws?token=", token),
                token: token.to_owned(),
                fields,
            },
        )
    }

    /// Close a widget: its token is void from then on, and its frontend, where
    /// it is connected, is told.
    pub fn close(&mut self, widget_id: &str) -> (r: Option<Push>)
        ensures
            is_widget_close(r, *old(self), *final(self), widget_id@),
    {
        match self.widgets.remove(widget_id) {
            Some(s) => push_to(s.connection, op_message("close")),
            None => None,
        }
    }

    /// Show or hide a widget, and tell its frontend.
    pub fn push_visibility(&mut self, widget_id: &str, visible: bool) -> (r: Result<
        Option<Push>,
        String,
    >)
        ensures
            is_widget_showing(r, *old(self), *final(self), widget_id@, visible),
    {
        if self.port.is_none() {
            return Err("widget loopback not started".to_owned());
        }
        let ghost before = self@;
        match self.widgets.remove(widget_id) {
            None => {
                assert(self@ =~= before);
                Err(no_widget_text(widget_id))
            },
            Some(s) => {
                let ghost seen = s;
                let mut s = s;
                s.visible = visible;
                let connection = s.connection;
                self.widgets.insert(widget_id, s);
                assert(self@ =~= before.insert(widget_id@, WidgetState { visible, ..seen }));
                let op = if visible {
                    "show"
                } else {
                    "hide"
                };
                Ok(push_to(connection, op_message(op)))
            },
        }
    }

    /// Read a field of a widget, or all of them under the empty name.
    pub fn get(&self, widget_id: &str, field: &str) -> (r: Result<Value, String>)
        ensures
            is_widget_get(r, *self, widget_id@, field@),
    {
        if self.port.is_none() {
            return Err("widget loopback not started".to_owned());
        }
        match self.widgets.get(widget_id) {
            None => Err(no_widget_text(widget_id)),
            Some(s) => Ok(read_field(&s.fields, field)),
        }
    }

    fn write_field(&mut self, widget_id: &str, field: &str, value: Value) -> (r: Option<Option<u64>>)
        ensures
            final(self).port == old(self).port,
            if old(self)@.contains_key(widget_id@) {
                &&& r == Some(old(self)@[widget_id@].connection)
                &&& fields_set(
                    old(self)@,
                    final(self)@,
                    widget_id@,
                    with_top_field(old(self)@[widget_id@].fields@, field@, value@),
                )
            } else {
                r is None && final(self)@ == old(self)@
            },
    {
        let ghost before = self@;
        match self.widgets.remove(widget_id) {
            None => {
                assert(self@ =~= before);
                None
            },
            Some(s) => {
                let ghost seen = s;
                let mut s = s;
                let mut fields = Value::Null;
                std::mem::swap(&mut fields, &mut s.fields);
                s.fields = set_field(fields, field, value);
                let connection = s.connection;
                let ghost changed = s;
                self.widgets.insert(widget_id, s);
                assert(changed == (WidgetState { fields: changed.fields, ..seen }));
                assert(self@ =~= before.insert(
                    widget_id@,
                    WidgetState { fields: changed.fields, ..seen },
                ));
                Some(connection)
            },
        }
    }

    /// Set a field of a widget, and tell its frontend.
    pub fn set(&mut self, widget_id: &str, field: &str, value: Value) -> (r: Result<
        Option<Push>,
        String,
    >)
        ensures
            is_widget_update(r, *old(self), *final(self), widget_id@, field@, value@),
    {
        if self.port.is_none() {
            return Err("widget loopback not started".to_owned());
        }
        let text = field_message("set", field, &value);
        match self.write_field(widget_id, field, value) {
            None => Err(no_widget_text(widget_id)),
            Some(connection) => Ok(push_to(connection, text)),
        }
    }

    /// Send an event to the frontend of a widget; nothing is kept of it where
    /// the frontend is not connected.
    pub fn exec(&self, widget_id: &str, event: &str, payload: Value) -> (r: Result<
        Option<Push>,
        String,
    >)
        ensures
            is_widget_event(r, *self, widget_id@, event@, payload@),
    {
        if self.port.is_none() {
            return Err("widget loopback not started".to_owned());
        }
        match self.widgets.get(widget_id) {
            None => Err(no_widget_text(widget_id)),
            Some(s) => {
                let pairs: Vec<(&'static str, Value)> = vec![
                    ("op", Value::text("exec")),
                    ("event", Value::text(event)),
                    ("payload", payload),
                ];
                assert(pairs_view(pairs@) =~= seq![
                    ("op"@, Json::Str("exec"@)),
                    ("event"@, Json::Str(event@)),
                    ("payload"@, payload@),
                ]);
                let v = Value::object(pairs);
                Ok(push_to(s.connection, to_text(&v)))
            },
        }
    }

    /// Drop the widgets that are abandoned. A widget whose frontend is connected
    /// stays, however old it is.
    pub fn reap_once(&mut self, now: u128)
        ensures
            is_reaping(*old(self), *final(self), now),
    {
        let ghost before = self@;
        let ghost port = self.port;
        let keys = self.widgets.keys();
        let mut i: usize = 0;
        while i < keys.len()
            invariant
                i <= keys.len(),
                self.port == port,
                forall|k: Seq<char>| #[trigger] texts(keys@).contains(k) == before.contains_key(k),
                forall|k: Seq<char>|
                    #![trigger self@.contains_key(k)]
                    self@.contains_key(k) ==> before.contains_key(k) && self@[k] == before[k],
                forall|k: Seq<char>|
                    #![trigger self@.contains_key(k)]
                    before.contains_key(k) && !self@.contains_key(k) ==> abandoned(before[k], now),
                forall|j: int|
                    0 <= j < i && abandoned(before[texts(keys@)[j]], now)
                        ==> !self@.contains_key(#[trigger] texts(keys@)[j]),
            decreases keys.len() - i,
        {
            let key = keys[i].as_str();
            assert(texts(keys@)[i as int] == key@);
            let drop_it = match self.widgets.get(key) {
                Some(s) => is_abandoned(s, now),
                None => false,
            };
            let ghost held = self@;
            if drop_it {
                assert(held.contains_key(key@) && held[key@] == before[key@]);
                let _ = self.widgets.remove(key);
                assert(self@ == held.remove(key@));
            }
            assert forall|k: Seq<char>| #![trigger self@.contains_key(k)] self@.contains_key(k) implies before.contains_key(k) && self@[k] == before[k] by {
                assert(held.contains_key(k));
            }
            assert forall|k: Seq<char>| #![trigger self@.contains_key(k)] before.contains_key(k) && !self@.contains_key(k) implies abandoned(before[k], now) by {
                if k != key@ || !drop_it {
                    assert(!held.contains_key(k));
                }
            }
            i += 1;
        }
        assert(self@ =~= before.restrict(
            Set::new(|id: Seq<char>| !abandoned(before[id], now)),
        )) by {
            assert forall|k: Seq<char>| self@.contains_key(k) implies !abandoned(before[k], now) by {
                assert(texts(keys@).contains(k));
                let j = choose|j: int| 0 <= j < texts(keys@).len() && texts(keys@)[j] == k;
                assert(texts(keys@)[j] == k);
            }
        }
    }

    /// The widget that a token belongs to.
    pub fn find_by_token(&self, token: &str) -> (r: Option<String>)
        ensures
            match r {
                Some(id) => self@.contains_key(id@) && self@[id@].token@ == token@,
                None => forall|id: Seq<char>|
                    self@.contains_key(id) ==> (#[trigger] self@[id]).token@ != token@,
            },
    {
        let keys = self.widgets.keys();
        let mut i: usize = 0;
        while i < keys.len()
            invariant
                i <= keys.len(),
                forall|k: Seq<char>| #[trigger] texts(keys@).contains(k) == self@.contains_key(k),
                forall|j: int|
                    0 <= j < i && self@.contains_key(texts(keys@)[j]) ==> self@[#[trigger] texts(
                        keys@,
                    )[j]].token@ != token@,
            decreases keys.len() - i,
        {
            let key = keys[i].as_str();
            assert(texts(keys@)[i as int] == key@);
            if let Some(s) = self.widgets.get(key) {
                if same(s.token.as_str(), token) {
                    return Some(keys[i].clone());
                }
            }
            i += 1;
        }
        assert forall|id: Seq<char>| self@.contains_key(id) implies (#[trigger] self@[id]).token@
            != token@ by {
            assert(texts(keys@).contains(id));
            let j = choose|j: int| 0 <= j < texts(keys@).len() && texts(keys@)[j] == id;
            assert(texts(keys@)[j] == id);
        }
        None
    }

    /// The script of the widget that a token belongs to; without a widget the
    /// request is not authorized.
    pub fn bundle(&self, token: &str) -> (r: Option<Vec<u8>>)
        ensures
            match r {
                Some(b) => exists|id: Seq<char>|
                    self@.contains_key(id) && (#[trigger] self@[id]).token@ == token@ && b@
                        == self@[id].bundle@,
                None => forall|id: Seq<char>|
                    self@.contains_key(id) ==> (#[trigger] self@[id]).token@ != token@,
            },
    {
        match self.find_by_token(token) {
            None => None,
            Some(id) => match self.widgets.get(id.as_str()) {
                Some(s) => {
                    let b = s.bundle.clone();
                    assert(b@ =~= s.bundle@);
                    assert(self@[id@].token@ == token@);
                    Some(b)
                },
                None => None,
            },
        }
    }

    /// Note that the frontend of a widget is connected. Says whether the widget
    /// is still open.
    pub fn connect(&mut self, widget_id: &str, connection: u64) -> (r: bool)
        ensures
            is_connection(r, *old(self), *final(self), widget_id@, connection),
    {
        let ghost before = self@;
        match self.widgets.remove(widget_id) {
            None => {
                assert(self@ =~= before);
                false
            },
            Some(s) => {
                let ghost seen = s;
                let mut s = s;
                s.connection = Some(connection);
                s.disconnected_at = None;
                self.widgets.insert(widget_id, s);
                assert(self@ =~= before.insert(
                    widget_id@,
                    WidgetState {
                        connection: Some(connection),
                        disconnected_at: None,
                        ..seen
                    },
                ));
                true
            },
        }
    }

    /// Note that a connection of the frontend of a widget ended. Where another
    /// one has taken its place, the widget stays connected.
    pub fn disconnect(&mut self, widget_id: &str, connection: u64, now: u128)
        ensures
            is_disconnection(*old(self), *final(self), widget_id@, connection, now),
    {
        let ghost before = self@;
        let current = match self.widgets.get(widget_id) {
            Some(s) => match s.connection {
                Some(c) => c == connection,
                None => false,
            },
            None => false,
        };
        if current {
            if let Some(s) = self.widgets.remove(widget_id) {
                let ghost seen = s;
                let mut s = s;
                s.connection = None;
                s.disconnected_at = Some(now);
                self.widgets.insert(widget_id, s);
                assert(self@ =~= before.insert(
                    widget_id@,
                    WidgetState { connection: None, disconnected_at: Some(now), ..seen },
                ));
            }
        }
    }

    fn show_or_hide(&mut self, widget_id: &str, visible: bool)
        ensures
            final(self).port == old(self).port,
            final(self)@ == (if old(self)@.contains_key(widget_id@) {
                old(self)@.insert(widget_id@, WidgetState { visible, ..old(self)@[widget_id@] })
            } else {
                old(self)@
            }),
    {
        let ghost before = self@;
        match self.widgets.remove(widget_id) {
            None => {
                assert(self@ =~= before);
            },
            Some(s) => {
                let ghost seen = s;
                let mut s = s;
                s.visible = visible;
                self.widgets.insert(widget_id, s);
                assert(self@ =~= before.insert(widget_id@, WidgetState { visible, ..seen }));
            },
        }
    }

    /// Take in a message of a widget's frontend; what it says is the JSON in it.
    /// A read is answered, a write and a change of visibility are not.
    pub fn handle_widget_message(&mut self, widget_id: &str, message: Option<Value>) -> (r: Option<
        String,
    >)
        ensures
            is_message_handled(r, *old(self), *final(self), widget_id@, message),
    {
        proof {
            reveal_strlit("get");
            reveal_strlit("set");
            reveal_strlit("show");
            reveal_strlit("hide");
            assert("get"@[0] == 'g' && "set"@[0] == 's' && "show"@.len() == 4 && "hide"@[0] == 'h'
                && "set"@.len() == 3 && "show"@[0] == 's');
        }
        let m = match &message {
            Some(m) => m,
            None => {
                return None;
            },
        };
        let op = match m.get_str("op") {
            Some(op) => op,
            None => {
                return None;
            },
        };
        if same(op, "get") {
            let field = m.str_or("field", "");
            let value = match self.widgets.get(widget_id) {
                Some(s) => read_field(&s.fields, field),
                None => Value::Null,
            };
            return Some(field_message("get", field, &value));
        }
        if same(op, "set") {
            if let Some(field) = m.get_str("field") {
                let value = m.field("value");
                let _ = self.write_field(widget_id, field, value);
            }
            return None;
        }
        if same(op, "show") {
            self.show_or_hide(widget_id, true);
        } else if same(op, "hide") {
            self.show_or_hide(widget_id, false);
        }
        None
    }
}

/// What a frontend identifies itself by: sixteen random bytes in hexadecimal.
pub fn widget_token() -> (r: String)
    ensures
        is_token(r@),
{
    generate_token()
}

/// A widget whose frontend is connected is never abandoned, whatever the time.
pub proof fn lemma_connected_widgets_stay(s: WidgetState, now: u128)
    requires
        s.connection is Some,
    ensures
        !abandoned(s, now),
{
}

/// Once a widget is closed, its identifier reaches nothing and its token, where
/// no other widget has it, opens nothing.
pub proof fn lemma_closed_widgets_are_gone(
    widgets: Map<Seq<char>, WidgetState>,
    id: Seq<char>,
    token: Seq<char>,
)
    requires
        forall|other: Seq<char>|
            widgets.contains_key(other) && other != id ==> (#[trigger] widgets[other]).token@ != token,
    ensures
        !widgets.remove(id).contains_key(id),
        forall|other: Seq<char>|
            widgets.remove(id).contains_key(other) ==> (#[trigger] widgets.remove(id)[other]).token@
                != token,
{
    assert forall|other: Seq<char>| widgets.remove(id).contains_key(other) implies (
    #[trigger] widgets.remove(id)[other]).token@ != token by {
        assert(widgets[other] == widgets.remove(id)[other]);
    }
}

} // verus!

//! The widget operations: what a call asks of the widgets, and the answers.

use vstd::prelude::*;
use vstd::string::*;

use crate::caller::{Caller, CallerFrame};
use crate::chance::{is_uuid, new_uuid};
use crate::internal::{require_str, required};
use crate::json::{object_of, pairs_view};
use crate::manager::caller_frame;
use crate::value::{Json, Value};

verus! {

broadcast use crate::value::group_value_views;

/// A widget to open.
#[derive(Debug)]
pub struct OpenRequest {
    pub bin_name: String,
    pub tag_name: String,
    pub fields: Value,
    pub action_ref: String,
    pub invocation_id: String,
}

/// Whether this is the widget that some parameters open, and for whom.
pub open spec fn is_open_request(
    r: Result<OpenRequest, String>,
    params: Json,
    caller: Option<CallerFrame>,
) -> bool {
    match (required(params, "bin_name"@), required(params, "tag_name"@)) {
        (Err(e), _) => r is Err && r->Err_0@ == e,
        (Ok(_), Err(e)) => r is Err && r->Err_0@ == e,
        (Ok(b), Ok(t)) => {
            &&& r is Ok
            &&& r->Ok_0.bin_name@ == b
            &&& r->Ok_0.tag_name@ == t
            &&& r->Ok_0.fields@ == params.field("fields"@)
            &&& (match caller {
                Some(c) => r->Ok_0.action_ref@ == c.action_ref && r->Ok_0.invocation_id@
                    == c.invocation_id,
                None => r->Ok_0.action_ref@.len() == 0 && is_uuid(r->Ok_0.invocation_id@),
            })
        },
    }
}

/// What an open asks for. Who opens a widget is noted where an action does;
/// anybody else opens it as nobody, under a fresh identifier.
pub fn open(params: &Value, caller: Option<&Caller>) -> (r: Result<OpenRequest, String>)
    ensures
        is_open_request(r, params@, caller_frame(caller)),
{
    let bin_name = match require_str(params, "bin_name") {
        Ok(s) => s,
        Err(e) => {
            return Err(e);
        },
    };
    let tag_name = match require_str(params, "tag_name") {
        Ok(s) => s,
        Err(e) => {
            return Err(e);
        },
    };
    let (action_ref, invocation_id) = match caller {
        Some(c) => (c.action_ref().to_owned(), c.invocation_id().to_owned()),
        None => (String::new(), new_uuid()),
    };
    Ok(
        OpenRequest {
            bin_name: bin_name.to_owned(),
            tag_name: tag_name.to_owned(),
            fields: params.field("fields"),
            action_ref,
            invocation_id,
        },
    )
}

/// Which widget a call names.
pub fn widget_named(params: &Value) -> (r: Result<String, String>)
    ensures
        match required(params@, "widget_id"@) {
            Ok(s) => r is Ok && r->Ok_0@ == s,
            Err(e) => r is Err && r->Err_0@ == e,
        },
{
    match require_str(params, "widget_id") {
        Ok(s) => Ok(s.to_owned()),
        Err(e) => Err(e),
    }
}

/// Whether this is the field of a widget that some parameters read.
pub open spec fn is_widget_read(r: Result<(String, String), String>, params: Json) -> bool {
    match required(params, "widget_id"@) {
        Ok(s) => r is Ok && r->Ok_0.0@ == s && r->Ok_0.1@ == params.str_or("field"@, ""@),
        Err(e) => r is Err && r->Err_0@ == e,
    }
}

/// Which field of which widget a call reads; all of them where it names none.
pub fn get(params: &Value) -> (r: Result<(String, String), String>)
    ensures
        is_widget_read(r, params@),
{
    match require_str(params, "widget_id") {
        Ok(s) => Ok((s.to_owned(), params.str_or("field", "").to_owned())),
        Err(e) => Err(e),
    }
}

/// A name and a value that a call hands to a widget.
#[derive(Debug)]
pub struct WidgetWrite {
    pub widget_id: String,
    pub name: String,
    pub value: Value,
}

fn widget_write(params: &Value, name: &str, value: &str) -> (r: Result<WidgetWrite, String>)
    ensures
        match (required(params@, "widget_id"@), required(params@, name@)) {
            (Err(e), _) => r is Err && r->Err_0@ == e,
            (Ok(_), Err(e)) => r is Err && r->Err_0@ == e,
            (Ok(id), Ok(n)) => r is Ok && r->Ok_0.widget_id@ == id && r->Ok_0.name@ == n
                && r->Ok_0.value@ == params@.field(value@),
        },
{
    let id = match require_str(params, "widget_id") {
        Ok(s) => s,
        Err(e) => {
            return Err(e);
        },
    };
    match require_str(params, name) {
        Ok(n) => Ok(
            WidgetWrite {
                widget_id: id.to_owned(),
                name: n.to_owned(),
                value: params.field(value),
            },
        ),
        Err(e) => Err(e),
    }
}

/// Whether this is the field of a widget that some parameters write.
pub open spec fn is_widget_set(r: Result<WidgetWrite, String>, params: Json) -> bool {
    match (required(params, "widget_id"@), required(params, "field"@)) {
        (Err(e), _) => r is Err && r->Err_0@ == e,
        (Ok(_), Err(e)) => r is Err && r->Err_0@ == e,
        (Ok(id), Ok(n)) => r is Ok && r->Ok_0.widget_id@ == id && r->Ok_0.name@ == n
            && r->Ok_0.value@ == params.field("value"@),
    }
}

/// Which field of which widget a call writes, and with what.
pub fn set(params: &Value) -> (r: Result<WidgetWrite, String>)
    ensures
        is_widget_set(r, params@),
{
    widget_write(params, "field", "value")
}

/// Whether this is the event that some parameters send a widget.
pub open spec fn is_widget_exec(r: Result<WidgetWrite, String>, params: Json) -> bool {
    match (required(params, "widget_id"@), required(params, "event"@)) {
        (Err(e), _) => r is Err && r->Err_0@ == e,
        (Ok(_), Err(e)) => r is Err && r->Err_0@ == e,
        (Ok(id), Ok(n)) => r is Ok && r->Ok_0.widget_id@ == id && r->Ok_0.name@ == n
            && r->Ok_0.value@ == params.field("payload"@),
    }
}

/// Which event a call sends to which widget, and with what.
pub fn exec(params: &Value) -> (r: Result<WidgetWrite, String>)
    ensures
        is_widget_exec(r, params@),
{
    widget_write(params, "event", "payload")
}

/// The answer to an operation that went through, by the word for it.
pub fn done_reply(word: &'static str) -> (r: Value)
    ensures
        r@ == object_of(seq![(word@, Json::Bool(true))]),
{
    let pairs: Vec<(&'static str, Value)> = vec![(word, Value::Bool(true))];
    assert(pairs_view(pairs@) =~= seq![(word@, Json::Bool(true))]);
    Value::object(pairs)
}

} // verus!

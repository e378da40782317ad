//! The operations on background runs: start, stop, poll, and the question of a
//! running action whether it was asked to stop. Only the last is scoped to the
//! calling action; the others name a run and are open to everybody.

use vstd::prelude::*;
use vstd::string::*;

use crate::caller::{Caller, CallerFrame};
use crate::internal::{path_or_root, require_str, required};
use crate::invocations::{run_of, InvocationStore, Run};
use crate::json::{object_of, pairs_view};
use crate::manager::caller_frame;
use crate::value::{members, Json, Value};

verus! {

broadcast use crate::value::group_value_views;

/// A run to start.
#[derive(Debug)]
pub struct StartRequest {
    pub path: String,
    pub name: String,
    pub params: Value,
}

/// Whether this is the run that some parameters start.
pub open spec fn is_start_request(r: Result<StartRequest, String>, params: Json) -> bool {
    match required(params, "name"@) {
        Err(e) => r is Err && r->Err_0@ == e,
        Ok(name) => {
            &&& r is Ok
            &&& r->Ok_0.path@ == params.str_or("path"@, "/"@)
            &&& r->Ok_0.name@ == name
            &&& r->Ok_0.params@ == (match params.get("params"@) {
                Some(p) => p,
                None => Json::Object(Seq::empty()),
            })
        },
    }
}

/// What a start asks for; without parameters the action gets the empty object.
pub fn start(params: &Value) -> (r: Result<StartRequest, String>)
    ensures
        is_start_request(r, params@),
{
    let name = match require_str(params, "name") {
        Ok(s) => s,
        Err(e) => {
            return Err(e);
        },
    };
    let inner = match params.get("params") {
        Some(p) => p.clone(),
        None => {
            let none: Vec<(String, Value)> = Vec::new();
            assert(members(none@) =~= Seq::<(Seq<char>, Json)>::empty());
            Value::Object(none)
        },
    };
    Ok(
        StartRequest {
            path: path_or_root(params).to_owned(),
            name: name.to_owned(),
            params: inner,
        },
    )
}

/// A run to stop.
#[derive(Debug)]
pub struct StopRequest {
    pub invocation_id: String,
    pub force: bool,
    pub grace_secs: Option<u64>,
}

/// Whether this is the stop that some parameters ask for.
pub open spec fn is_stop_request(r: Result<StopRequest, String>, params: Json) -> bool {
    match required(params, "invocation_id"@) {
        Err(e) => r is Err && r->Err_0@ == e,
        Ok(id) => {
            &&& r is Ok
            &&& r->Ok_0.invocation_id@ == id
            &&& r->Ok_0.force == (params.get_bool("force"@) == Some(true))
            &&& r->Ok_0.grace_secs == params.get_u64("grace_secs"@)
        },
    }
}

/// What a stop asks for.
pub fn stop(params: &Value) -> (r: Result<StopRequest, String>)
    ensures
        is_stop_request(r, params@),
{
    let id = match require_str(params, "invocation_id") {
        Ok(s) => s,
        Err(e) => {
            return Err(e);
        },
    };
    let force = match params.get_bool("force") {
        Some(b) => b,
        None => false,
    };
    Ok(
        StopRequest {
            invocation_id: id.to_owned(),
            force,
            grace_secs: params.get_u64("grace_secs"),
        },
    )
}

/// Whether this is the poll that some parameters ask for.
pub open spec fn is_poll_request(r: Result<(String, Option<u64>), String>, params: Json) -> bool {
    match required(params, "invocation_id"@) {
        Err(e) => r is Err && r->Err_0@ == e,
        Ok(id) => r is Ok && r->Ok_0.0@ == id && r->Ok_0.1 == params.get_u64("wait_secs"@),
    }
}

/// What a poll asks for: a run, and how long to wait for its end.
pub fn poll(params: &Value) -> (r: Result<(String, Option<u64>), String>)
    ensures
        is_poll_request(r, params@),
{
    match require_str(params, "invocation_id") {
        Ok(id) => Ok((id.to_owned(), params.get_u64("wait_secs"))),
        Err(e) => Err(e),
    }
}

/// Whether this tells a caller if its own run is to end.
pub open spec fn is_cancelled_reply(r: Result<Value, String>, caller: Option<CallerFrame>, runs: Seq<Run>) -> bool {
    match caller {
        None => r is Err && r->Err_0@
            == "action_cancelled has no action caller — it can only be called from within an action's own execution"@,
        Some(c) => r is Ok && r->Ok_0@ == object_of(
            seq![
                (
                    "cancelled"@,
                    Json::Bool(
                        match run_of(runs, c.invocation_id) {
                            Some(x) => x.cancel_requested,
                            None => false,
                        },
                    ),
                ),
            ],
        ),
    }
}

/// Whether the run of the calling action was asked to stop.
pub fn cancelled(caller: Option<&Caller>, invocations: &InvocationStore) -> (r: Result<Value, String>)
    ensures
        is_cancelled_reply(r, caller_frame(caller), invocations@),
{
    match caller {
        None => Err(
            "action_cancelled has no action caller — it can only be called from within an action's own execution".to_owned(),
        ),
        Some(c) => {
            let asked = invocations.is_cancelled(c.invocation_id());
            let pairs: Vec<(&'static str, Value)> = vec![("cancelled", Value::Bool(asked))];
            assert(pairs_view(pairs@) =~= seq![("cancelled"@, Json::Bool(asked))]);
            Ok(Value::object(pairs))
        },
    }
}

} // verus!
